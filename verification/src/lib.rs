//! Chat coordination engine: an append-only event log with idempotent
//! recording, the decisions of the single-writer coordinator, and the
//! protocol by which a subscriber follows the log without gaps.
//!
//! - [`event`]: identifiers, messages and events.
//! - [`log`]: the log as a sequence, and what holds of every log.
//! - [`history`]: what a store of events owes the coordinator, and a
//!   store in memory.
//! - [`store`]: the decisions of a relational store: schema generations,
//!   rows, and what the answer to an insertion means.
//! - [`hub`]: the broadcast hub and the reply channels.
//! - [`actor`]: the coordinator.
//! - [`subscription`]: a subscriber's way from the history to the hub
//!   and back.
//! - [`terminate`]: the filter that ends a stream on a signal.
//! - [`clock`], [`text`], [`http`], [`configuration`]: the wall clock,
//!   numbers in base ten, the face on the network, and the settings.

pub mod actor;
pub mod clock;
pub mod configuration;
pub mod event;
pub mod history;
pub mod http;
pub mod hub;
pub mod log;
pub mod store;
pub mod subscription;
pub mod terminate;
pub mod text;
