//! One subscriber's way through the log: first what the history holds,
//! then what the hub delivers, and back to the history when the hub has
//! run ahead.
//!
//! The subscription decides; its driver asks the coordinator, waits on
//! the hub and hands the events on.

use vstd::prelude::*;
use crate::actor::Events;
use crate::event::{views, Event, EventId, EventView};
use crate::log::{events_after, ids_contiguous, lemma_events_after_is_suffix};

verus! {

/// Where a subscription stands.
#[derive(Clone, Copy, PartialEq, Eq, Debug, Structural)]
pub enum Phase {
    /// The coordinator is to be asked for the events after the cursor.
    Asking,
    /// Events of a batch from the history are still to be handed on.
    Replaying,
    /// The subscriber has caught up and waits on the hub.
    Listening,
    /// The history failed; the subscriber has not been told yet.
    Failing,
    /// Nothing more will be handed on.
    Ended,
}

/// What the driver of a subscription does next.
#[derive(Debug)]
pub enum Step {
    /// Ask the coordinator for the events after this identifier and hand
    /// its answer to [`Subscription::on_reply`].
    Ask(EventId),
    /// Hand this event to the subscriber.
    Emit(Event),
    /// Wait on the hub and hand what comes to [`Subscription::on_live`].
    Listen,
    /// Tell the subscriber that the history failed.
    Fail,
    /// End the stream.
    End,
}

/// Mathematical value of a [`Step`].
pub enum StepView {
    Ask(u64),
    Emit(EventView),
    Listen,
    Fail,
    End,
}

impl View for Step {
    type V = StepView;

    open spec fn view(&self) -> StepView {
        match *self {
            Step::Ask(id) => StepView::Ask(id.0),
            Step::Emit(event) => StepView::Emit(event@),
            Step::Listen => StepView::Listen,
            Step::Fail => StepView::Fail,
            Step::End => StepView::End,
        }
    }
}

/// What the hub gives a subscriber that waits on it.
#[derive(Debug)]
pub enum LiveSignal {
    /// The next event.
    Event(Event),
    /// The subscriber was too slow: events were dropped before it read
    /// them.
    Lagged,
    /// The coordinator is gone.
    Closed,
}

/// Mathematical value of a [`LiveSignal`].
pub enum Signal {
    Event(EventView),
    Lagged,
    Closed,
}

impl View for LiveSignal {
    type V = Signal;

    open spec fn view(&self) -> Signal {
        match *self {
            LiveSignal::Event(event) => Signal::Event(event@),
            LiveSignal::Lagged => Signal::Lagged,
            LiveSignal::Closed => Signal::Closed,
        }
    }
}

/// What an answer of the coordinator means to a subscription.
pub enum Reply {
    /// These events lie after the cursor.
    History(Seq<EventView>),
    /// None does; what follows comes through the hub.
    Current,
    /// The history could not be read.
    Failed,
}

/// What `events` means to a subscription.
pub open spec fn reply_of(events: Events) -> Reply {
    match events {
        Events::History(batch) => Reply::History(views(batch@)),
        Events::Current(_) => Reply::Current,
        Events::Failed => Reply::Failed,
    }
}

/// Mathematical value of a [`Subscription`].
pub struct SubscriptionView {
    /// Identifier of the last event handed to the subscriber, or the
    /// identifier that it started from.
    pub cursor: u64,
    /// Where the subscription stands.
    pub phase: Phase,
    /// The events of the current batch that are still to be handed on.
    pub pending: Seq<EventView>,
}

/// A subscription that has seen the events up to `last_event_id` and
/// nothing else yet.
pub open spec fn fresh(last_event_id: u64) -> SubscriptionView {
    SubscriptionView { cursor: last_event_id, phase: Phase::Asking, pending: Seq::empty() }
}

/// The subscription after the coordinator's answer: a batch is replayed,
/// an empty one asked for again; a live subscription is listened to; a
/// failure is passed on.
pub open spec fn replied(s: SubscriptionView, reply: Reply) -> SubscriptionView {
    match reply {
        Reply::History(batch) => SubscriptionView {
            cursor: s.cursor,
            phase: if batch.len() > 0 {
                Phase::Replaying
            } else {
                Phase::Asking
            },
            pending: batch,
        },
        Reply::Current => SubscriptionView {
            cursor: s.cursor,
            phase: Phase::Listening,
            pending: Seq::empty(),
        },
        Reply::Failed => SubscriptionView {
            cursor: s.cursor,
            phase: Phase::Failing,
            pending: Seq::empty(),
        },
    }
}

/// What the driver does next, and the subscription after it: while a
/// batch is replayed, its events are handed on one by one and the cursor
/// follows them; after the last, the coordinator is asked again. A failure
/// is told once, and then the stream ends.
pub open spec fn stepped(s: SubscriptionView) -> (SubscriptionView, StepView) {
    match s.phase {
        Phase::Asking => (s, StepView::Ask(s.cursor)),
        Phase::Replaying => (
            SubscriptionView {
                cursor: s.pending[0].id,
                phase: if s.pending.len() > 1 {
                    Phase::Replaying
                } else {
                    Phase::Asking
                },
                pending: s.pending.drop_first(),
            },
            StepView::Emit(s.pending[0]),
        ),
        Phase::Listening => (s, StepView::Listen),
        Phase::Failing => (
            SubscriptionView { cursor: s.cursor, phase: Phase::Ended, pending: s.pending },
            StepView::Fail,
        ),
        Phase::Ended => (s, StepView::End),
    }
}

/// The subscription after the hub gave `signal`, and the event handed on:
/// an event is handed on and the cursor follows it; after a lag the
/// coordinator is asked again, from the cursor; a closed hub ends the
/// stream.
pub open spec fn heard(s: SubscriptionView, signal: Signal) -> (
    SubscriptionView,
    Option<EventView>,
) {
    match signal {
        Signal::Event(event) => (
            SubscriptionView { cursor: event.id, phase: s.phase, pending: s.pending },
            Some(event),
        ),
        Signal::Lagged => (
            SubscriptionView { cursor: s.cursor, phase: Phase::Asking, pending: s.pending },
            None,
        ),
        Signal::Closed => (
            SubscriptionView { cursor: s.cursor, phase: Phase::Ended, pending: s.pending },
            None,
        ),
    }
}

/// A subscriber's cursor and what it still has to hand on.
pub struct Subscription {
    cursor: EventId,
    phase: Phase,
    batch: Vec<Event>,
    next: usize,
}

impl View for Subscription {
    type V = SubscriptionView;

    closed spec fn view(&self) -> SubscriptionView {
        SubscriptionView {
            cursor: self.cursor.0,
            phase: self.phase,
            pending: views(self.batch@).subrange(self.next as int, self.batch@.len() as int),
        }
    }
}

impl Subscription {
    /// A batch is being replayed exactly while events of it are pending.
    pub closed spec fn well_formed(&self) -> bool {
        &&& self.next <= self.batch@.len()
        &&& (self.phase == Phase::Replaying <==> self.next < self.batch@.len())
    }

    /// In a well-formed subscription a batch is being replayed exactly
    /// while events are pending.
    pub proof fn lemma_replaying_while_pending(&self)
        requires
            self.well_formed(),
        ensures
            self@.phase == Phase::Replaying <==> self@.pending.len() > 0,
    {
    }

    /// A subscription that has seen the events up to `last_event_id`.
    pub fn new(last_event_id: EventId) -> (subscription: Self)
        ensures
            subscription.well_formed(),
            subscription@ == fresh(last_event_id.0),
    {
        let subscription = Subscription {
            cursor: last_event_id,
            phase: Phase::Asking,
            batch: Vec::new(),
            next: 0,
        };
        assert(subscription@.pending =~= Seq::<EventView>::empty());
        subscription
    }

    /// Takes the coordinator's answer to the last [`Step::Ask`]. The
    /// receiver of a live subscription is handed back for the driver to
    /// wait on.
    pub fn on_reply(&mut self, events: Events) -> (receiver: Option<
        tokio::sync::broadcast::Receiver<Event>,
    >)
        requires
            old(self).well_formed(),
            old(self)@.phase == Phase::Asking,
        ensures
            final(self).well_formed(),
            final(self)@ == replied(old(self)@, reply_of(events)),
            receiver == match events {
                Events::Current(live) => Some(live),
                _ => None,
            },
    {
        assert(self@.pending =~= Seq::<EventView>::empty());
        match events {
            Events::History(batch) => {
                if batch.len() > 0 {
                    self.phase = Phase::Replaying;
                }
                self.batch = batch;
                self.next = 0;
                assert(self@.pending =~= views(self.batch@));
                None
            },
            Events::Current(live) => {
                self.phase = Phase::Listening;
                Some(live)
            },
            Events::Failed => {
                self.phase = Phase::Failing;
                None
            },
        }
    }

    /// What the driver does next.
    pub fn next_step(&mut self) -> (step: Step)
        requires
            old(self).well_formed(),
        ensures
            final(self).well_formed(),
            (final(self)@, step@) == stepped(old(self)@),
    {
        match self.phase {
            Phase::Asking => Step::Ask(self.cursor),
            Phase::Replaying => {
                let ghost before = self@.pending;
                let total: usize = self.batch.len();
                assert(self.next < total);
                let event = self.batch[self.next].clone();
                self.cursor = event.id;
                self.next = self.next + 1;
                if self.next == total {
                    self.phase = Phase::Asking;
                }
                assert(self@.pending =~= before.drop_first());
                Step::Emit(event)
            },
            Phase::Listening => Step::Listen,
            Phase::Failing => {
                self.phase = Phase::Ended;
                Step::Fail
            },
            Phase::Ended => Step::End,
        }
    }

    /// Takes what the hub gave after a [`Step::Listen`], and hands on the
    /// event if it gave one.
    pub fn on_live(&mut self, signal: LiveSignal) -> (emitted: Option<Event>)
        requires
            old(self).well_formed(),
            old(self)@.phase == Phase::Listening,
        ensures
            final(self).well_formed(),
            final(self)@ == heard(old(self)@, signal@).0,
            emitted == match signal {
                LiveSignal::Event(event) => Some(event),
                _ => None,
            },
    {
        match signal {
            LiveSignal::Event(event) => {
                self.cursor = event.id;
                Some(event)
            },
            LiveSignal::Lagged => {
                self.phase = Phase::Asking;
                None
            },
            LiveSignal::Closed => {
                self.phase = Phase::Ended;
                None
            },
        }
    }
}

/// What happens to a subscription, one thing at a time.
pub enum Move {
    /// The coordinator answers.
    Reply(Reply),
    /// The driver takes its next step.
    Step,
    /// The hub gives a signal.
    Signal(Signal),
}

/// The subscription after `m`, and the event handed to the subscriber by
/// it, if any.
pub open spec fn moved(s: SubscriptionView, m: Move) -> (SubscriptionView, Option<EventView>) {
    match m {
        Move::Reply(reply) => (replied(s, reply), None),
        Move::Step => (
            stepped(s).0,
            match stepped(s).1 {
                StepView::Emit(event) => Some(event),
                _ => None,
            },
        ),
        Move::Signal(signal) => heard(s, signal),
    }
}

/// The subscription after each of `moves` in turn.
pub open spec fn state_after(s: SubscriptionView, moves: Seq<Move>) -> SubscriptionView
    decreases moves.len(),
{
    if moves.len() == 0 {
        s
    } else {
        moved(state_after(s, moves.drop_last()), moves.last()).0
    }
}

/// The events handed to the subscriber in the course of `moves`, in the
/// order in which it got them.
pub open spec fn emitted(s: SubscriptionView, moves: Seq<Move>) -> Seq<EventView>
    decreases moves.len(),
{
    if moves.len() == 0 {
        Seq::empty()
    } else {
        match moved(state_after(s, moves.drop_last()), moves.last()).1 {
            Some(event) => emitted(s, moves.drop_last()).push(event),
            None => emitted(s, moves.drop_last()),
        }
    }
}

/// Whether `m` is what a subscription in state `s` may meet when the
/// events of the chat are, in the end, those of `log`. The coordinator
/// answers only when asked, and a batch from it holds the events that
/// follow the cursor; the hub signals only a subscriber that listens, and
/// an event from it is the one that follows the cursor.
pub open spec fn in_order(s: SubscriptionView, m: Move, log: Seq<EventView>) -> bool {
    match m {
        Move::Reply(Reply::History(batch)) => {
            &&& s.phase == Phase::Asking
            &&& s.cursor + batch.len() <= log.len()
            &&& batch == log.subrange(s.cursor as int, s.cursor + batch.len())
        },
        Move::Reply(_) => s.phase == Phase::Asking,
        Move::Step => true,
        Move::Signal(Signal::Event(event)) => {
            &&& s.phase == Phase::Listening
            &&& s.cursor < log.len()
            &&& event == log[s.cursor as int]
        },
        Move::Signal(_) => s.phase == Phase::Listening,
    }
}

/// Whether each of `moves` is in order where it occurs.
pub open spec fn all_in_order(s: SubscriptionView, moves: Seq<Move>, log: Seq<EventView>) -> bool
    decreases moves.len(),
{
    moves.len() > 0 ==> {
        &&& all_in_order(s, moves.drop_last(), log)
        &&& in_order(state_after(s, moves.drop_last()), moves.last(), log)
    }
}

/// What holds of a subscription between moves, when the events of the
/// chat are those of `log` and the subscriber started after `start`.
spec fn on_track(
    s: SubscriptionView,
    out: Seq<EventView>,
    start: u64,
    log: Seq<EventView>,
) -> bool {
    &&& s.phase == Phase::Replaying <==> s.pending.len() > 0
    &&& s.cursor == start + out.len()
    &&& s.cursor + s.pending.len() <= log.len()
    &&& s.pending == log.subrange(s.cursor as int, s.cursor + s.pending.len())
    &&& out == log.subrange(start as int, start + out.len())
}

proof fn lemma_moves_stay_on_track(start: u64, moves: Seq<Move>, log: Seq<EventView>)
    requires
        ids_contiguous(log),
        start <= log.len() <= u64::MAX,
        all_in_order(fresh(start), moves, log),
    ensures
        on_track(state_after(fresh(start), moves), emitted(fresh(start), moves), start, log),
    decreases moves.len(),
{
    let s0 = fresh(start);
    if moves.len() == 0 {
        assert(s0.pending =~= log.subrange(start as int, start as int));
        assert(emitted(s0, moves) =~= log.subrange(start as int, start as int));
    } else {
        let front = moves.drop_last();
        lemma_moves_stay_on_track(start, front, log);
        let s = state_after(s0, front);
        let out = emitted(s0, front);
        let m = moves.last();
        let t = moved(s, m).0;
        let out2 = emitted(s0, moves);
        match m {
            Move::Reply(reply) => {
                assert(s.pending.len() == 0);
                match reply {
                    Reply::History(batch) => {},
                    _ => {
                        assert(t.pending =~= log.subrange(t.cursor as int, t.cursor as int));
                    },
                }
            },
            Move::Step => {
                if s.phase == Phase::Replaying {
                    let event = s.pending[0];
                    assert(event == log[s.cursor as int]);
                    assert(event.id == s.cursor + 1);
                    assert(t.pending =~= log.subrange(t.cursor as int, t.cursor + t.pending.len()));
                    assert(out2 =~= log.subrange(start as int, start + out2.len()));
                }
            },
            Move::Signal(signal) => {
                assert(s.pending.len() == 0);
                match signal {
                    Signal::Event(event) => {
                        assert(event.id == s.cursor + 1);
                        assert(t.pending =~= log.subrange(t.cursor as int, t.cursor as int));
                        assert(out2 =~= log.subrange(start as int, start + out2.len()));
                    },
                    _ => {},
                }
            },
        }
    }
}

/// A subscriber sees no gap and no repetition. Whatever the coordinator
/// answers and the hub signals, in whatever order, as long as each is in
/// order: the events handed to a subscriber that started after `start`
/// are those that follow `start` in the log, one after the other, and the
/// cursor stands at the last of them. So the event handed on after the
/// one numbered `k` is numbered `k + 1`.
pub proof fn lemma_subscriber_sees_no_gap_and_no_repeat(
    start: u64,
    moves: Seq<Move>,
    log: Seq<EventView>,
)
    requires
        ids_contiguous(log),
        start <= log.len() <= u64::MAX,
        all_in_order(fresh(start), moves, log),
    ensures
        start + emitted(fresh(start), moves).len() <= log.len(),
        emitted(fresh(start), moves) == log.subrange(
            start as int,
            start + emitted(fresh(start), moves).len(),
        ),
        forall|i: int|
            0 <= i < emitted(fresh(start), moves).len() ==> (#[trigger] emitted(
                fresh(start),
                moves,
            )[i]).id == start + 1 + i,
        state_after(fresh(start), moves).cursor == start + emitted(fresh(start), moves).len(),
{
    lemma_moves_stay_on_track(start, moves, log);
}

/// What the coordinator answers to a read is in order, and stays so
/// while the log grows: where the history held the events `then` when it
/// was read, and the log is `log` in the end, the events after `cursor`
/// in `then` are those that follow `cursor` in `log`.
pub proof fn lemma_catchup_is_in_order(then: Seq<EventView>, log: Seq<EventView>, cursor: u64)
    requires
        ids_contiguous(log),
        then.len() <= log.len(),
        then == log.subrange(0, then.len() as int),
        cursor <= then.len(),
    ensures
        cursor + events_after(then, cursor).len() == then.len(),
        events_after(then, cursor) == log.subrange(cursor as int, then.len() as int),
{
    assert forall|i: int| 0 <= i < then.len() implies (#[trigger] then[i]).id == i + 1 by {
        assert(then[i] == log[i]);
    }
    lemma_events_after_is_suffix(then, cursor);
    if cursor < then.len() {
        assert(then.subrange(cursor as int, then.len() as int) =~= log.subrange(
            cursor as int,
            then.len() as int,
        ));
    } else {
        assert(Seq::<EventView>::empty() =~= log.subrange(cursor as int, then.len() as int));
    }
}

/// A subscriber that is told to listen misses nothing: where the history
/// held no event after the cursor when the subscription to the hub was
/// made, and the subscriber had not run ahead of the history, the first
/// event recorded since is the one that follows the cursor.
pub proof fn lemma_first_live_event_follows_cursor(
    then: Seq<EventView>,
    log: Seq<EventView>,
    cursor: u64,
)
    requires
        ids_contiguous(log),
        then.len() < log.len(),
        then == log.subrange(0, then.len() as int),
        cursor <= then.len(),
        events_after(then, cursor).len() == 0,
    ensures
        cursor == then.len(),
        log[then.len() as int] == log[cursor as int],
        log[cursor as int].id == cursor + 1,
{
    lemma_catchup_is_in_order(then, log, cursor);
}

} // verus!
