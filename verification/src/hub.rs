//! The broadcast hub and the reply channels, as the coordinator sees them.
//!
//! Both are channels of `tokio`. Nothing here is proved of them: each
//! function below states, without proof, what it takes from them.

use vstd::prelude::*;
use crate::event::Event;

verus! {

/// Number of recent events that the hub keeps for subscribers who lag.
pub const BROADCAST_CAPACITY: usize = 10;

/// Number of requests that may wait for the coordinator.
pub const REQUEST_CAPACITY: usize = 5;

/// `tokio::sync::broadcast::Sender`, the sending half of the hub, opaque
/// to the verifier.
#[verifier::external_type_specification]
#[verifier::external_body]
#[verifier::reject_recursive_types(T)]
pub struct ExBroadcastSender<T>(tokio::sync::broadcast::Sender<T>);

/// `tokio::sync::broadcast::Receiver`, one subscriber's end of the hub,
/// opaque to the verifier.
#[verifier::external_type_specification]
#[verifier::external_body]
#[verifier::reject_recursive_types(T)]
pub struct ExBroadcastReceiver<T>(tokio::sync::broadcast::Receiver<T>);

/// `tokio::sync::oneshot::Sender`, the channel on which one request is
/// answered, opaque to the verifier.
#[verifier::external_type_specification]
#[verifier::external_body]
#[verifier::reject_recursive_types(T)]
pub struct ExOneshotSender<T>(tokio::sync::oneshot::Sender<T>);

/// Calls `tokio::sync::broadcast::channel` and keeps the sending half.
/// The call panics on a capacity of zero or above `usize::MAX / 2`, which
/// the precondition leaves out. Nothing is claimed of the channel.
#[verifier::external_body]
pub(crate) fn open_hub(capacity: usize) -> (sender: tokio::sync::broadcast::Sender<Event>)
    requires
        0 < capacity <= usize::MAX / 2,
{
    tokio::sync::broadcast::channel(capacity).0
}

/// Calls `tokio::sync::broadcast::Sender::send`. The result is the number
/// of receivers subscribed at that moment, or `None` where there is none;
/// it depends on what other tasks hold, so nothing is claimed of it.
#[verifier::external_body]
pub(crate) fn publish(sender: &tokio::sync::broadcast::Sender<Event>, event: Event) -> (receivers:
    Option<usize>) {
    sender.send(event).ok()
}

/// Calls `tokio::sync::broadcast::Sender::subscribe`. The receiver sees
/// what is sent after the call; nothing is claimed of it here. The call
/// panics once a quarter of `usize::MAX` receivers are subscribed.
#[verifier::external_body]
pub(crate) fn subscribe(sender: &tokio::sync::broadcast::Sender<Event>) -> (receiver:
    tokio::sync::broadcast::Receiver<Event>) {
    sender.subscribe()
}

/// Calls `tokio::sync::oneshot::Sender::send`. The result says whether
/// the other end was still there; it depends on the requester, so nothing
/// is claimed of it.
#[verifier::external_body]
pub(crate) fn reply<T>(responder: tokio::sync::oneshot::Sender<T>, value: T) -> (delivered: bool) {
    responder.send(value).is_ok()
}

} // verus!
