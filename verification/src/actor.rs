//! The coordinator: sole owner of the history and of the broadcast hub.

use vstd::prelude::*;
use crate::event::{views, Event, EventId, EventView, Message};
use crate::history::{owed_reply, Chat, ChatError, RecordOutcome, StorageFailure};
use crate::hub::{open_hub, publish, reply, subscribe, BROADCAST_CAPACITY};
use crate::log::{events_after, lemma_record_keeps_well_formed, record, verdict, well_formed};

verus! {

/// What the coordinator does with the answer of the history to a read.
#[derive(Debug)]
pub enum ReadPlan {
    /// Hand these events to the subscriber.
    Catchup(Vec<Event>),
    /// The subscriber has caught up: subscribe it to the hub.
    Subscribe,
    /// The history failed: tell the subscriber so.
    Fail,
}

/// Decides how a read is answered: a batch of events where there are any,
/// a live subscription where there are none, and never an empty batch in
/// place of a failure.
pub fn plan_read(history: Result<Vec<Event>, StorageFailure>) -> (plan: ReadPlan)
    ensures
        match history {
            Ok(events) => if events@.len() > 0 {
                plan == ReadPlan::Catchup(events)
            } else {
                plan is Subscribe
            },
            Err(_) => plan is Fail,
        },
{
    match history {
        Ok(events) => if events.len() > 0 {
            ReadPlan::Catchup(events)
        } else {
            ReadPlan::Subscribe
        },
        Err(_) => ReadPlan::Fail,
    }
}

/// What the coordinator does once the history has dealt with a message.
#[derive(Debug)]
pub struct SubmitPlan {
    /// What the submitter is told.
    pub reply: Result<(), ChatError>,
    /// The event to send through the hub, if any.
    pub publish: Option<Event>,
}

/// Decides what follows an outcome of the history: a new event is
/// published and acknowledged, a repetition is acknowledged in silence, a
/// conflict and a failure are reported and nothing is published.
pub fn plan_submit(outcome: RecordOutcome) -> (plan: SubmitPlan)
    ensures
        match outcome {
            RecordOutcome::New(event) => plan.reply == Ok::<(), ChatError>(()) && plan.publish
                == Some(event),
            RecordOutcome::Duplicate => plan.reply == Ok::<(), ChatError>(()) && plan.publish
                is None,
            RecordOutcome::Conflict => plan.reply == Err::<(), ChatError>(ChatError::Conflict)
                && plan.publish is None,
            RecordOutcome::StorageFailure => plan.reply == Err::<(), ChatError>(
                ChatError::Internal,
            ) && plan.publish is None,
        },
{
    match outcome {
        RecordOutcome::New(event) => SubmitPlan { reply: Ok(()), publish: Some(event) },
        RecordOutcome::Duplicate => SubmitPlan { reply: Ok(()), publish: None },
        RecordOutcome::Conflict => SubmitPlan { reply: Err(ChatError::Conflict), publish: None },
        RecordOutcome::StorageFailure => SubmitPlan {
            reply: Err(ChatError::Internal),
            publish: None,
        },
    }
}

/// The answer to a read.
pub enum Events {
    /// Events that the subscriber has not seen, oldest first; never empty.
    History(Vec<Event>),
    /// The subscriber has seen all there is: what follows arrives here.
    Current(tokio::sync::broadcast::Receiver<Event>),
    /// The history could not be read.
    Failed,
}

/// A request to the coordinator.
#[allow(inconsistent_fields)]
pub enum ActorMsg {
    /// Asks for the events after `last_event_id`.
    ReadEvents { responder: tokio::sync::oneshot::Sender<Events>, last_event_id: EventId },
    /// Submits a message.
    AddMessage { message: Message, responder: tokio::sync::oneshot::Sender<Result<(), ChatError>> },
}

/// The single writer of a chat. It answers one request at a time, so that
/// no event can enter the history between a read that finds nothing and
/// the subscription that follows it.
pub struct Actor<H: Chat> {
    /// The persistent state of the chat.
    history: H,
    /// Sends new events to the subscribers who have caught up.
    current: tokio::sync::broadcast::Sender<Event>,
}

impl<H: Chat> Actor<H> {
    /// The events recorded so far.
    pub closed spec fn log(&self) -> Seq<EventView> {
        self.history.log()
    }

    /// The history is in order.
    pub closed spec fn valid(&self) -> bool {
        self.history.valid() && well_formed(self.history.log())
    }

    /// The history is known never to fail, but for a new message when no
    /// event identifier is left.
    pub closed spec fn reliable(&self) -> bool {
        self.history.reliable()
    }

    /// The log of a coordinator in order is well-formed.
    pub proof fn lemma_log_is_well_formed(&self)
        requires
            self.valid(),
        ensures
            well_formed(self.log()),
    {
    }

    /// A coordinator over `history`, with a hub of its own.
    pub fn new(history: H) -> (actor: Self)
        requires
            history.valid(),
            well_formed(history.log()),
        ensures
            actor.valid(),
            actor.log() == history.log(),
            actor.reliable() == history.reliable(),
    {
        Actor { history, current: open_hub(BROADCAST_CAPACITY) }
    }

    /// Answers a read: the events after `last_event_id` where the history
    /// holds any, else a subscription to what is recorded from now on. A
    /// read fails only where the history does.
    pub fn read_events(&self, last_event_id: EventId) -> (events: Events)
        requires
            self.valid(),
        ensures
            match events {
                Events::History(batch) => batch@.len() > 0 && views(batch@) == events_after(
                    self.log(),
                    last_event_id.0,
                ),
                Events::Current(_) => events_after(self.log(), last_event_id.0).len() == 0,
                Events::Failed => !self.reliable(),
            },
    {
        match plan_read(self.history.events_since(last_event_id)) {
            ReadPlan::Catchup(batch) => Events::History(batch),
            ReadPlan::Subscribe => Events::Current(subscribe(&self.current)),
            ReadPlan::Fail => Events::Failed,
        }
    }

    /// Records a message as accepted at `timestamp_ms` and, where it is
    /// new, sends its event through the hub. A new message and a
    /// repetition are acknowledged, a conflict is refused as such, and a
    /// failure of the history as internal. The log changes only by a new
    /// message.
    pub fn add_message(&mut self, message: Message, timestamp_ms: u64) -> (result: Result<
        (),
        ChatError,
    >)
        requires
            old(self).valid(),
        ensures
            final(self).valid(),
            final(self).reliable() == old(self).reliable(),
            result != Err::<(), ChatError>(ChatError::Internal) || old(self).reliable() ==> result
                == owed_reply(verdict(old(self).log(), message@)),
            result is Ok ==> final(self).log() == record(old(self).log(), message@, timestamp_ms),
            result is Err ==> final(self).log() == old(self).log(),
    {
        proof {
            lemma_record_keeps_well_formed(self.history.log(), message@, timestamp_ms);
        }
        let plan = plan_submit(self.history.record_message(message, timestamp_ms));
        match plan.publish {
            Some(event) => {
                let _ = publish(&self.current, event);
            },
            None => {},
        }
        plan.reply
    }

    /// Serves one request and answers it. A requester that has gone away
    /// is ignored: what the request did to the log stands.
    pub fn handle_message(&mut self, msg: ActorMsg, timestamp_ms: u64)
        requires
            old(self).valid(),
        ensures
            final(self).valid(),
            final(self).reliable() == old(self).reliable(),
            match msg {
                ActorMsg::ReadEvents { .. } => final(self).log() == old(self).log(),
                ActorMsg::AddMessage { message, .. } => {
                    &&& final(self).log() == old(self).log() || final(self).log() == record(
                        old(self).log(),
                        message@,
                        timestamp_ms,
                    )
                    &&& old(self).reliable() ==> final(self).log() == record(
                        old(self).log(),
                        message@,
                        timestamp_ms,
                    )
                },
            },
    {
        match msg {
            ActorMsg::ReadEvents { responder, last_event_id } => {
                let events = self.read_events(last_event_id);
                let _ = reply(responder, events);
            },
            ActorMsg::AddMessage { message, responder } => {
                let result = self.add_message(message, timestamp_ms);
                let _ = reply(responder, result);
            },
        }
    }
}

} // verus!
