//! The event log as a mathematical sequence, and what holds of it.

use vstd::prelude::*;
use crate::event::{EventView, MessageView};

verus! {

/// The event at index `i` carries the identifier `i + 1`.
pub open spec fn ids_contiguous(log: Seq<EventView>) -> bool {
    forall|i: int| 0 <= i < log.len() ==> (#[trigger] log[i]).id == i + 1
}

/// No two events carry the same client identifier.
pub open spec fn message_ids_unique(log: Seq<EventView>) -> bool {
    forall|i: int, j: int|
        #![trigger log[i], log[j]]
        0 <= i < log.len() && 0 <= j < log.len() && log[i].message.id == log[j].message.id ==> i
            == j
}

/// What every log of the engine satisfies.
pub open spec fn well_formed(log: Seq<EventView>) -> bool {
    &&& log.len() <= u64::MAX
    &&& ids_contiguous(log)
    &&& message_ids_unique(log)
}

/// Events are stamped in non-decreasing order.
pub open spec fn timestamps_sorted(log: Seq<EventView>) -> bool {
    forall|i: int, j: int|
        #![trigger log[i], log[j]]
        0 <= i <= j < log.len() ==> log[i].timestamp_ms <= log[j].timestamp_ms
}

/// Some event carries the client identifier `id`.
pub open spec fn holds_id(log: Seq<EventView>, id: u128) -> bool {
    exists|i: int| 0 <= i < log.len() && (#[trigger] log[i]).message.id == id
}

/// Some event carries exactly the message `m`.
pub open spec fn holds_message(log: Seq<EventView>, m: MessageView) -> bool {
    exists|i: int| 0 <= i < log.len() && (#[trigger] log[i]).message == m
}

/// How a log receives a message.
pub enum Verdict {
    /// The identifier is unused and the log has room.
    New,
    /// The very same message is already recorded.
    Duplicate,
    /// The identifier is taken by a different message.
    Conflict,
    /// The identifier is unused but the identifiers of events are used up.
    Full,
}

/// How `log` receives `m`.
pub open spec fn verdict(log: Seq<EventView>, m: MessageView) -> Verdict {
    if holds_message(log, m) {
        Verdict::Duplicate
    } else if holds_id(log, m.id) {
        Verdict::Conflict
    } else if log.len() >= u64::MAX {
        Verdict::Full
    } else {
        Verdict::New
    }
}

/// The event under which `m` enters `log` at time `timestamp_ms`.
pub open spec fn next_event(log: Seq<EventView>, m: MessageView, timestamp_ms: u64) -> EventView {
    EventView { id: (log.len() + 1) as u64, message: m, timestamp_ms }
}

/// The log after `m` was submitted at time `timestamp_ms`.
pub open spec fn record(log: Seq<EventView>, m: MessageView, timestamp_ms: u64) -> Seq<
    EventView,
> {
    if verdict(log, m) == Verdict::New {
        log.push(next_event(log, m, timestamp_ms))
    } else {
        log
    }
}

/// The events of `log` whose identifier is greater than `last`, in the
/// order of the log.
pub open spec fn events_after(log: Seq<EventView>, last: u64) -> Seq<EventView> {
    log.filter(|e: EventView| e.id > last)
}

/// The log after each of `submissions`, a message with its time of
/// acceptance, was submitted in turn.
pub open spec fn record_all(log: Seq<EventView>, submissions: Seq<(MessageView, u64)>) -> Seq<
    EventView,
>
    decreases submissions.len(),
{
    if submissions.len() == 0 {
        log
    } else {
        record(
            record_all(log, submissions.drop_last()),
            submissions.last().0,
            submissions.last().1,
        )
    }
}

/// In a well-formed log the events after `last` are the log without its
/// first `last` events.
pub proof fn lemma_events_after_is_suffix(log: Seq<EventView>, last: u64)
    requires
        ids_contiguous(log),
    ensures
        last >= log.len() ==> events_after(log, last) == Seq::<EventView>::empty(),
        last < log.len() ==> events_after(log, last) == log.subrange(
            last as int,
            log.len() as int,
        ),
    decreases log.len(),
{
    reveal(Seq::filter);
    let pred = |e: EventView| e.id > last;
    if log.len() > 0 {
        let front = log.drop_last();
        lemma_events_after_is_suffix(front, last);
        assert(log.last() == log[log.len() - 1]);
        if last < log.len() {
            if last < front.len() {
                assert(front.subrange(last as int, front.len() as int).push(log.last())
                    =~= log.subrange(last as int, log.len() as int));
            } else {
                assert(Seq::<EventView>::empty().push(log.last()) =~= log.subrange(
                    last as int,
                    log.len() as int,
                ));
            }
        }
    }
}

/// Recording a message keeps a log well-formed.
pub proof fn lemma_record_keeps_well_formed(log: Seq<EventView>, m: MessageView, timestamp_ms: u64)
    requires
        well_formed(log),
    ensures
        well_formed(record(log, m, timestamp_ms)),
{
    let after = record(log, m, timestamp_ms);
    if verdict(log, m) == Verdict::New {
        assert forall|i: int, j: int|
            #![trigger after[i], after[j]]
            0 <= i < after.len() && 0 <= j < after.len() && after[i].message.id
                == after[j].message.id implies i == j by {
            if i < log.len() {
                assert(after[i] == log[i]);
            }
            if j < log.len() {
                assert(after[j] == log[j]);
            }
        }
    }
}

/// Submissions only append: an event, once in the log, stays where it is
/// and as it is.
pub proof fn lemma_submissions_only_append(
    log: Seq<EventView>,
    submissions: Seq<(MessageView, u64)>,
)
    ensures
        log.len() <= record_all(log, submissions).len(),
        record_all(log, submissions).subrange(0, log.len() as int) == log,
    decreases submissions.len(),
{
    let after = record_all(log, submissions);
    if submissions.len() > 0 {
        lemma_submissions_only_append(log, submissions.drop_last());
        let before = record_all(log, submissions.drop_last());
        assert(after.subrange(0, log.len() as int) =~= before.subrange(0, log.len() as int));
    } else {
        assert(after.subrange(0, log.len() as int) =~= log);
    }
}

/// Whatever is submitted to an empty log, and in whatever order, the
/// events that result are numbered `1, 2, ..` without gaps and no client
/// identifier occurs twice among them.
pub proof fn lemma_submissions_keep_log_well_formed(submissions: Seq<(MessageView, u64)>)
    ensures
        well_formed(record_all(Seq::empty(), submissions)),
    decreases submissions.len(),
{
    if submissions.len() > 0 {
        lemma_submissions_keep_log_well_formed(submissions.drop_last());
        lemma_record_keeps_well_formed(
            record_all(Seq::empty(), submissions.drop_last()),
            submissions.last().0,
            submissions.last().1,
        );
    }
}

/// The times of acceptance in `submissions` never decrease.
pub open spec fn times_sorted(submissions: Seq<(MessageView, u64)>) -> bool {
    forall|i: int, j: int|
        #![trigger submissions[i], submissions[j]]
        0 <= i <= j < submissions.len() ==> submissions[i].1 <= submissions[j].1
}

/// Where the clock does not run backwards between submissions, the events
/// of the log are stamped in non-decreasing order, and none later than the
/// last submission.
pub proof fn lemma_submissions_keep_timestamps_sorted(submissions: Seq<(MessageView, u64)>)
    requires
        times_sorted(submissions),
    ensures
        timestamps_sorted(record_all(Seq::empty(), submissions)),
        forall|i: int|
            0 <= i < record_all(Seq::empty(), submissions).len() ==> (#[trigger] record_all(
                Seq::empty(),
                submissions,
            )[i]).timestamp_ms <= submissions.last().1,
    decreases submissions.len(),
{
    if submissions.len() > 0 {
        let front = submissions.drop_last();
        assert forall|i: int, j: int|
            #![trigger front[i], front[j]]
            0 <= i <= j < front.len() implies front[i].1 <= front[j].1 by {
            assert(front[i] == submissions[i]);
            assert(front[j] == submissions[j]);
        }
        lemma_submissions_keep_timestamps_sorted(front);
        let before = record_all(Seq::empty(), front);
        let after = record_all(Seq::empty(), submissions);
        if front.len() > 0 {
            assert(front.last() == submissions[front.len() - 1]);
            assert(submissions.last() == submissions[submissions.len() - 1]);
            assert(front.last().1 <= submissions.last().1);
        }
        assert forall|i: int| 0 <= i < after.len() implies (#[trigger] after[i]).timestamp_ms
            <= submissions.last().1 by {
            if i < before.len() {
                assert(after[i] == before[i]);
            }
        }
        assert forall|i: int, j: int|
            #![trigger after[i], after[j]]
            0 <= i <= j < after.len() implies after[i].timestamp_ms <= after[j].timestamp_ms by {
            if j < before.len() {
                assert(after[i] == before[i]);
                assert(after[j] == before[j]);
            }
        }
    }
}

/// A submission that the log accepts, as new or as a repetition, is a
/// repetition from then on: submitted again, at whatever time, it leaves
/// the log as the first submission left it.
pub proof fn lemma_resubmission_changes_nothing(
    log: Seq<EventView>,
    m: MessageView,
    first_ms: u64,
    second_ms: u64,
)
    requires
        verdict(log, m) == Verdict::New || verdict(log, m) == Verdict::Duplicate,
    ensures
        verdict(record(log, m, first_ms), m) == Verdict::Duplicate,
        record(record(log, m, first_ms), m, second_ms) == record(log, m, first_ms),
{
    let after = record(log, m, first_ms);
    if verdict(log, m) == Verdict::New {
        assert(after[log.len() as int].message == m);
    }
}

/// No two of `submissions` carry the same client identifier.
pub open spec fn distinct_ids(submissions: Seq<(MessageView, u64)>) -> bool {
    forall|i: int, j: int|
        #![trigger submissions[i], submissions[j]]
        0 <= i < submissions.len() && 0 <= j < submissions.len() && submissions[i].0.id
            == submissions[j].0.id ==> i == j
}

/// Messages with distinct identifiers, submitted to an empty log, are
/// what the log then holds, one event each and in the order of
/// submission; reading from before the first event returns all of them.
pub proof fn lemma_round_trip(submissions: Seq<(MessageView, u64)>)
    requires
        distinct_ids(submissions),
        submissions.len() <= u64::MAX,
    ensures
        record_all(Seq::empty(), submissions).len() == submissions.len(),
        forall|i: int|
            0 <= i < submissions.len() ==> (#[trigger] record_all(
                Seq::empty(),
                submissions,
            )[i]).message == submissions[i].0,
        forall|i: int|
            0 <= i < submissions.len() ==> (#[trigger] record_all(
                Seq::empty(),
                submissions,
            )[i]).timestamp_ms == submissions[i].1,
        events_after(record_all(Seq::empty(), submissions), 0) == record_all(
            Seq::empty(),
            submissions,
        ),
    decreases submissions.len(),
{
    let after = record_all(Seq::empty(), submissions);
    if submissions.len() > 0 {
        let front = submissions.drop_last();
        let n = front.len() as int;
        assert forall|i: int, j: int|
            #![trigger front[i], front[j]]
            0 <= i < front.len() && 0 <= j < front.len() && front[i].0.id
                == front[j].0.id implies i == j by {
            assert(front[i] == submissions[i]);
            assert(front[j] == submissions[j]);
        }
        lemma_round_trip(front);
        let before = record_all(Seq::empty(), front);
        let m = submissions.last().0;
        assert(submissions.last() == submissions[n]);
        assert(!holds_id(before, m.id)) by {
            if holds_id(before, m.id) {
                let i = choose|i: int|
                    0 <= i < before.len() && (#[trigger] before[i]).message.id == m.id;
                assert(before[i].message == front[i].0);
                assert(front[i] == submissions[i]);
            }
        }
        assert(!holds_message(before, m)) by {
            if holds_message(before, m) {
                let i = choose|i: int| 0 <= i < before.len() && (#[trigger] before[i]).message == m;
                assert(before[i].message.id == m.id);
            }
        }
        assert(verdict(before, m) == Verdict::New);
        assert forall|i: int| 0 <= i < submissions.len() implies (#[trigger] after[i]).message
            == submissions[i].0 && after[i].timestamp_ms == submissions[i].1 by {
            if i < n {
                assert(after[i] == before[i]);
                assert(front[i] == submissions[i]);
            }
        }
    }
    lemma_submissions_keep_log_well_formed(submissions);
    lemma_events_after_is_suffix(after, 0);
    if after.len() > 0 {
        assert(after.subrange(0, after.len() as int) =~= after);
    }
}

} // verus!
