//! Identifiers and records of the event log.

use vstd::prelude::*;
use crate::clock::now_ms;
use crate::text::{decimal, decimal_text, format_decimal, parse_decimal};

verus! {

/// Position of an event in the log. `0` stands before every event; stored
/// events are numbered from `1` without gaps.
#[derive(Clone, Copy, PartialEq, Eq, Debug, Structural)]
pub struct EventId(pub u64);

impl EventId {
    /// The identifier that precedes every stored event.
    pub fn before_all() -> (id: Self)
        ensures
            id.0 == 0,
    {
        EventId(0)
    }

    /// The identifier that follows `self`.
    pub fn successor(self) -> (next: Self)
        requires
            self.0 < u64::MAX,
        ensures
            next.0 == self.0 + 1,
    {
        EventId(self.0 + 1)
    }

    /// The identifier that `text` spells in base ten, if it spells one.
    pub fn from_str(text: &str) -> (id: Option<Self>)
        ensures
            match id {
                Some(id) => decimal(text@, u64::MAX as nat) == Some(id.0 as nat),
                None => decimal(text@, u64::MAX as nat) is None,
            },
    {
        match parse_decimal(text, u64::MAX) {
            Some(value) => Some(EventId(value)),
            None => None,
        }
    }

    /// The identifier in base ten.
    pub fn to_string(&self) -> (text: String)
        ensures
            text@ == decimal_text(self.0 as nat),
    {
        format_decimal(self.0)
    }
}

impl Default for EventId {
    fn default() -> (id: Self)
        ensures
            id.0 == 0,
    {
        EventId(0)
    }
}

/// What a client sends: an identifier of its own choosing, its name and
/// the text.
#[derive(Debug)]
pub struct Message {
    /// Client-generated identifier, the 128 bits of a UUID.
    pub id: u128,
    /// Author of the message.
    pub sender: String,
    /// Text of the message.
    pub content: String,
}

/// Mathematical value of a [`Message`].
pub struct MessageView {
    pub id: u128,
    pub sender: Seq<char>,
    pub content: Seq<char>,
}

impl View for Message {
    type V = MessageView;

    open spec fn view(&self) -> MessageView {
        MessageView { id: self.id, sender: self.sender@, content: self.content@ }
    }
}

impl Clone for Message {
    fn clone(&self) -> (copy: Self)
        ensures
            copy@ == self@,
    {
        Message { id: self.id, sender: self.sender.clone(), content: self.content.clone() }
    }
}

impl PartialEq for Message {
    fn eq(&self, other: &Self) -> (same: bool) {
        self.id == other.id && self.sender == other.sender && self.content == other.content
    }
}

impl Eq for Message {}

impl vstd::std_specs::cmp::PartialEqSpecImpl for Message {
    open spec fn obeys_eq_spec() -> bool {
        true
    }

    open spec fn eq_spec(&self, other: &Self) -> bool {
        self@ == other@
    }
}

/// A message as the log holds it.
#[derive(Debug)]
pub struct Event {
    pub id: EventId,
    pub message: Message,
    /// Milliseconds since the Unix epoch at which the message was accepted.
    pub timestamp_ms: u64,
}

/// Mathematical value of an [`Event`].
pub struct EventView {
    pub id: u64,
    pub message: MessageView,
    pub timestamp_ms: u64,
}

impl View for Event {
    type V = EventView;

    open spec fn view(&self) -> EventView {
        EventView { id: self.id.0, message: self.message@, timestamp_ms: self.timestamp_ms }
    }
}

impl Clone for Event {
    fn clone(&self) -> (copy: Self)
        ensures
            copy@ == self@,
    {
        Event { id: self.id, message: self.message.clone(), timestamp_ms: self.timestamp_ms }
    }
}

impl PartialEq for Event {
    fn eq(&self, other: &Self) -> (same: bool) {
        self.id == other.id && self.message == other.message && self.timestamp_ms
            == other.timestamp_ms
    }
}

impl Eq for Event {}

impl vstd::std_specs::cmp::PartialEqSpecImpl for Event {
    open spec fn obeys_eq_spec() -> bool {
        true
    }

    open spec fn eq_spec(&self, other: &Self) -> bool {
        self@ == other@
    }
}

impl Event {
    /// The event that records `message` under `id`, accepted now by the
    /// wall clock.
    pub fn new(id: EventId, message: Message) -> (event: Self)
        ensures
            event.id == id,
            event.message == message,
    {
        Event::with_timestamp(id, message, now_ms())
    }

    /// The event that records `message` under `id`, accepted at
    /// `timestamp_ms`.
    pub fn with_timestamp(id: EventId, message: Message, timestamp_ms: u64) -> (event: Self)
        ensures
            event.id == id,
            event.message == message,
            event.timestamp_ms == timestamp_ms,
    {
        Event { id, message, timestamp_ms }
    }
}

/// Views of a sequence of events, element by element.
pub open spec fn views(events: Seq<Event>) -> Seq<EventView> {
    events.map_values(|e: Event| e@)
}

} // verus!
