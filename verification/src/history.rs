//! The history of a chat: what a store of events owes the coordinator, and
//! a store that keeps the events in memory.

use vstd::prelude::*;
use crate::event::{views, Event, EventId, EventView, Message, MessageView};
use crate::log::{
    events_after, holds_id, holds_message, lemma_events_after_is_suffix,
    lemma_record_keeps_well_formed, lemma_resubmission_changes_nothing, next_event, record,
    verdict, well_formed, Verdict,
};

verus! {

/// Why an operation on the chat was refused.
#[derive(Clone, Copy, PartialEq, Eq, Debug, Structural)]
pub enum ChatError {
    /// A different message is already recorded under the same client
    /// identifier. Nothing was recorded.
    Conflict,
    /// The store failed. The cause is of interest to the operator only.
    Internal,
}

/// The store could not carry out an operation.
#[derive(Clone, Copy, PartialEq, Eq, Debug, Structural)]
pub struct StorageFailure;

/// What became of a message handed to the store.
#[derive(Debug)]
pub enum RecordOutcome {
    /// The message was recorded as this event.
    New(Event),
    /// The very same message was recorded before. The store is unchanged.
    Duplicate,
    /// A different message holds the same client identifier. The store is
    /// unchanged.
    Conflict,
    /// The store failed and is unchanged.
    StorageFailure,
}

/// Whether `outcome` and the log `after` are what recording `m` at
/// `timestamp_ms` in the log `before` may give. A store may fail on any
/// message; where it does not, the outcome and the log are determined.
pub open spec fn recorded(
    before: Seq<EventView>,
    m: MessageView,
    timestamp_ms: u64,
    outcome: RecordOutcome,
    after: Seq<EventView>,
) -> bool {
    match outcome {
        RecordOutcome::New(event) => {
            &&& verdict(before, m) == Verdict::New
            &&& event@ == next_event(before, m, timestamp_ms)
            &&& after == record(before, m, timestamp_ms)
        },
        RecordOutcome::Duplicate => verdict(before, m) == Verdict::Duplicate && after == before,
        RecordOutcome::Conflict => verdict(before, m) == Verdict::Conflict && after == before,
        RecordOutcome::StorageFailure => after == before,
    }
}

/// What a submitter is owed where the store does not fail: a new message
/// and a repetition are acknowledged, a conflict is refused as such. A
/// new message for which no event identifier is left is a failure of the
/// store.
pub open spec fn owed_reply(verdict: Verdict) -> Result<(), ChatError> {
    match verdict {
        Verdict::New => Ok(()),
        Verdict::Duplicate => Ok(()),
        Verdict::Conflict => Err(ChatError::Conflict),
        Verdict::Full => Err(ChatError::Internal),
    }
}

/// Submitting is idempotent: a message that is acknowledged is
/// acknowledged again when it is submitted again, at whatever time, and
/// the second submission leaves the log as the first left it.
pub proof fn lemma_resubmission_is_acknowledged(
    log: Seq<EventView>,
    m: MessageView,
    first_ms: u64,
    second_ms: u64,
)
    requires
        owed_reply(verdict(log, m)) is Ok,
    ensures
        owed_reply(verdict(record(log, m, first_ms), m)) is Ok,
        record(record(log, m, first_ms), m, second_ms) == record(log, m, first_ms),
{
    lemma_resubmission_changes_nothing(log, m, first_ms, second_ms);
}

/// A store of events, as the coordinator uses it. What the coordinator
/// promises of the log rests on the contracts of these methods; a store
/// that is written without proof is held to them by its author alone.
pub trait Chat {
    /// The events that the store holds, oldest first. A store that says
    /// nothing of its events holds none as far as proofs go.
    open spec fn log(&self) -> Seq<EventView> {
        Seq::empty()
    }

    /// What the store needs to hold between operations. A store that
    /// says nothing of itself is never known to be in order.
    open spec fn valid(&self) -> bool {
        false
    }

    /// Whether the store is known never to fail, but for a new message
    /// when no event identifier is left. Nothing of the kind is known of
    /// a store that does not say so.
    open spec fn reliable(&self) -> bool {
        false
    }

    /// All events after the one with the given identifier, oldest first.
    fn events_since(&self, last_event_id: EventId) -> (result: Result<Vec<Event>, StorageFailure>)
        requires
            self.valid(),
            well_formed(self.log()),
        ensures
            result matches Ok(events) ==> views(events@) == events_after(
                self.log(),
                last_event_id.0,
            ),
            self.reliable() ==> result is Ok,
    ;

    /// Records `message` as accepted at `timestamp_ms`, unless it is
    /// recorded already or its identifier is taken.
    fn record_message(&mut self, message: Message, timestamp_ms: u64) -> (outcome: RecordOutcome)
        requires
            old(self).valid(),
            well_formed(old(self).log()),
        ensures
            final(self).valid(),
            final(self).reliable() == old(self).reliable(),
            recorded(old(self).log(), message@, timestamp_ms, outcome, final(self).log()),
            old(self).reliable() ==> (outcome is StorageFailure <==> verdict(
                old(self).log(),
                message@,
            ) == Verdict::Full),
    ;
}

/// A store that keeps its events in memory and never fails while event
/// identifiers are left.
pub struct InMemoryChatHistory {
    events: Vec<Event>,
}

impl InMemoryChatHistory {
    /// The events held, oldest first.
    pub closed spec fn events(&self) -> Seq<EventView> {
        views(self.events@)
    }

    /// The events held form a well-formed log.
    pub closed spec fn well_formed(&self) -> bool {
        well_formed(views(self.events@))
    }

    /// An empty store.
    pub fn new() -> (history: Self)
        ensures
            history.well_formed(),
            history.events() == Seq::<EventView>::empty(),
    {
        let history = InMemoryChatHistory { events: Vec::new() };
        assert(views(history.events@) =~= Seq::<EventView>::empty());
        history
    }

    /// Identifier of the newest event, or the identifier before all where
    /// there is none.
    pub fn last_event_id(&self) -> (id: EventId)
        requires
            self.well_formed(),
        ensures
            id.0 == self.events().len(),
    {
        EventId(self.events.len() as u64)
    }

    /// Index of the event that carries the client identifier `id`.
    fn position(&self, id: u128) -> (found: Option<usize>)
        ensures
            match found {
                Some(i) => i < self.events().len() && self.events()[i as int].message.id == id,
                None => !holds_id(self.events(), id),
            },
    {
        let mut i: usize = 0;
        while i < self.events.len()
            invariant
                i <= self.events.len(),
                forall|j: int| 0 <= j < i ==> (#[trigger] self.events()[j]).message.id != id,
            decreases self.events.len() - i,
        {
            if self.events[i].message.id == id {
                return Some(i);
            }
            i += 1;
        }
        None
    }

    /// All events after the one with the given identifier, oldest first.
    pub fn events_after(&self, last_event_id: EventId) -> (events: Vec<Event>)
        requires
            self.well_formed(),
        ensures
            views(events@) == events_after(self.events(), last_event_id.0),
    {
        let mut events: Vec<Event> = Vec::new();
        let total: usize = self.events.len();
        proof {
            lemma_events_after_is_suffix(self.events(), last_event_id.0);
        }
        if last_event_id.0 >= total as u64 {
            assert(views(events@) =~= Seq::<EventView>::empty());
            return events;
        }
        let start: usize = last_event_id.0 as usize;
        let mut i: usize = start;
        while i < total
            invariant
                start <= i <= total,
                total == self.events.len(),
                views(events@) == self.events().subrange(start as int, i as int),
            decreases total - i,
        {
            let ghost before = events@;
            let copy = self.events[i].clone();
            events.push(copy);
            assert(views(events@) =~= views(before).push(copy@));
            assert(views(events@) =~= self.events().subrange(start as int, i + 1));
            i += 1;
        }
        events
    }

    /// Records `message` as accepted at `timestamp_ms`. The store fails
    /// only where the message is new and no event identifier is left.
    pub fn record(&mut self, message: Message, timestamp_ms: u64) -> (outcome: RecordOutcome)
        requires
            old(self).well_formed(),
        ensures
            final(self).well_formed(),
            recorded(old(self).events(), message@, timestamp_ms, outcome, final(self).events()),
            outcome is StorageFailure <==> verdict(old(self).events(), message@) == Verdict::Full,
            final(self).events() == record(old(self).events(), message@, timestamp_ms),
    {
        proof {
            lemma_record_keeps_well_formed(self.events(), message@, timestamp_ms);
        }
        match self.position(message.id) {
            Some(i) => {
                let held = &self.events[i].message;
                if held.sender == message.sender && held.content == message.content {
                    assert(self.events()[i as int].message == message@);
                    RecordOutcome::Duplicate
                } else {
                    assert(!holds_message(self.events(), message@)) by {
                        if holds_message(self.events(), message@) {
                            let j = choose|j: int|
                                0 <= j < self.events().len() && (
                                #[trigger] self.events()[j]).message == message@;
                            assert(self.events()[i as int].message.id
                                == self.events()[j].message.id);
                        }
                    }
                    RecordOutcome::Conflict
                }
            },
            None => {
                assert(!holds_message(self.events(), message@)) by {
                    if holds_message(self.events(), message@) {
                        let j = choose|j: int|
                            0 <= j < self.events().len() && (
                            #[trigger] self.events()[j]).message == message@;
                        assert(self.events()[j].message.id == message@.id);
                    }
                }
                if self.events.len() as u64 == u64::MAX {
                    RecordOutcome::StorageFailure
                } else {
                    let id = EventId(self.events.len() as u64 + 1);
                    let event = Event::with_timestamp(id, message, timestamp_ms);
                    let ghost before = self.events();
                    self.events.push(event.clone());
                    assert(self.events() =~= before.push(event@));
                    RecordOutcome::New(event)
                }
            },
        }
    }
}

impl Chat for InMemoryChatHistory {
    open spec fn log(&self) -> Seq<EventView> {
        self.events()
    }

    open spec fn valid(&self) -> bool {
        self.well_formed()
    }

    open spec fn reliable(&self) -> bool {
        true
    }

    fn events_since(&self, last_event_id: EventId) -> (result: Result<Vec<Event>, StorageFailure>) {
        Ok(self.events_after(last_event_id))
    }

    fn record_message(&mut self, message: Message, timestamp_ms: u64) -> (outcome: RecordOutcome) {
        self.record(message, timestamp_ms)
    }
}

} // verus!
