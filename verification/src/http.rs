//! What the chat owes its face on the network: where a client resumes,
//! and how a refusal is told.

use vstd::prelude::*;
use crate::event::{Event, EventId};
use crate::history::ChatError;
use crate::text::{decimal, decimal_text, lemma_text_round_trip};

verus! {

/// Status code of a refused submission whose identifier is taken.
pub const STATUS_CONFLICT: u16 = 409;

/// Status code of a failure of the server.
pub const STATUS_INTERNAL_SERVER_ERROR: u16 = 500;

/// What a client is told of a conflict.
pub const CONFLICT_MESSAGE: &'static str = "A different message with this ID already exists";

/// What a client is told of a failure, and no more than that.
pub const INTERNAL_MESSAGE: &'static str = "Internal server error";

/// The name of the frame that tells a subscriber of a failure.
pub const ERROR_EVENT: &'static str = "error";

/// The identifier that a client last saw, as its `Last-Event-ID` header
/// gives it.
#[derive(Clone, Copy, Debug)]
pub struct LastEventId(pub u64);

impl LastEventId {
    /// Reads the header: the number that it spells, and zero where the
    /// header is absent or spells none.
    pub fn from_header(value: Option<&str>) -> (last: Self)
        ensures
            last.0 == match value {
                Some(text) => match decimal(text@, u64::MAX as nat) {
                    Some(number) => number,
                    None => 0,
                },
                None => 0,
            },
    {
        match value {
            Some(text) => match EventId::from_str(text) {
                Some(id) => LastEventId(id.0),
                None => LastEventId(0),
            },
            None => LastEventId(0),
        }
    }
}

/// A refusal as the network sees it.
#[derive(Debug)]
pub struct HttpError {
    pub status_code: u16,
    pub message: String,
}

impl HttpError {
    /// How a refusal of the chat is told: a conflict as such, a failure
    /// without its cause.
    pub fn from_chat_error(err: ChatError) -> (error: Self)
        ensures
            match err {
                ChatError::Conflict => error.status_code == STATUS_CONFLICT && error.message@
                    == CONFLICT_MESSAGE@,
                ChatError::Internal => error.status_code == STATUS_INTERNAL_SERVER_ERROR
                    && error.message@ == INTERNAL_MESSAGE@,
            },
    {
        match err {
            ChatError::Conflict => HttpError {
                status_code: STATUS_CONFLICT,
                message: CONFLICT_MESSAGE.to_owned(),
            },
            ChatError::Internal => HttpError {
                status_code: STATUS_INTERNAL_SERVER_ERROR,
                message: INTERNAL_MESSAGE.to_owned(),
            },
        }
    }
}

/// A message as the stream of events shows it.
#[derive(Debug)]
pub struct HttpMessage {
    /// Client-generated identifier of the message.
    pub id: u128,
    /// Author of the message.
    pub sender: String,
    /// Text of the message.
    pub content: String,
    /// When the server accepted the message, in milliseconds since the
    /// Unix epoch.
    pub timestamp_ms: u64,
}

impl HttpMessage {
    /// What the stream shows of `source`.
    pub fn from_event(source: Event) -> (message: Self)
        ensures
            message.id == source.message.id,
            message.sender@ == source.message.sender@,
            message.content@ == source.message.content@,
            message.timestamp_ms == source.timestamp_ms,
    {
        HttpMessage {
            id: source.message.id,
            sender: source.message.sender,
            content: source.message.content,
            timestamp_ms: source.timestamp_ms,
        }
    }
}

/// One frame of the stream of events.
#[derive(Debug)]
pub enum SseFrame {
    /// An event of the chat. A client that reconnects sends `id` back as
    /// its `Last-Event-ID`.
    Event { id: String, data: HttpMessage },
    /// A failure. The frame has no identifier, so that the client's
    /// `Last-Event-ID` stays where it is.
    Error { event: &'static str, data: &'static str },
}

/// The frame for an item of a subscription: an event under its
/// identifier in base ten, which read back as a `Last-Event-ID` resumes
/// after that event; a failure without identifier and without its cause.
pub fn sse_frame(item: Result<Event, ChatError>) -> (frame: SseFrame)
    ensures
        match item {
            Ok(source) => {
                &&& frame matches SseFrame::Event { id, data }
                &&& id@ == decimal_text(source.id.0 as nat)
                &&& decimal(id@, u64::MAX as nat) == Some(source.id.0 as nat)
                &&& data.id == source.message.id
                &&& data.sender@ == source.message.sender@
                &&& data.content@ == source.message.content@
                &&& data.timestamp_ms == source.timestamp_ms
            },
            Err(_) => {
                &&& frame matches SseFrame::Error { event, data }
                &&& event@ == ERROR_EVENT@
                &&& data@ == INTERNAL_MESSAGE@
            },
        },
{
    match item {
        Ok(source) => {
            proof {
                lemma_text_round_trip(source.id.0 as nat, u64::MAX as nat);
            }
            SseFrame::Event { id: source.id.to_string(), data: HttpMessage::from_event(source) }
        },
        Err(_) => SseFrame::Error { event: ERROR_EVENT, data: INTERNAL_MESSAGE },
    }
}

} // verus!
