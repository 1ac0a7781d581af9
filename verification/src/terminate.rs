//! Ends a stream when a watched signal turns true.
//!
//! The filter decides; its driver waits on the signal and on the stream,
//! the signal first, and reports what happened.

use vstd::prelude::*;

verus! {

/// What the filter still watches.
#[derive(Clone, Copy, PartialEq, Eq, Debug, Structural)]
pub enum Watch {
    /// The signal and the stream.
    Both,
    /// The stream only: the signal's sender is gone, so the signal will
    /// never turn true.
    StreamOnly,
    /// Nothing: the stream has ended.
    Nothing,
}

/// What the driver observed.
#[derive(Clone, Copy, PartialEq, Eq, Debug, Structural)]
pub enum Observed {
    /// The signal changed, to this value.
    Signal(bool),
    /// The signal's sender was dropped.
    SenderDropped,
    /// The stream produced an item.
    Item,
    /// The stream is exhausted.
    Exhausted,
}

/// What the driver does with the observation.
#[derive(Clone, Copy, PartialEq, Eq, Debug, Structural)]
pub enum Verdict {
    /// Hand the item on.
    Forward,
    /// Nothing; go on watching.
    Proceed,
    /// End the stream and drop what it wraps.
    Stop,
}

/// The filter's answer to `observed` while it watches `watch`: the state
/// it moves to and what the driver does.
pub open spec fn filtered(watch: Watch, observed: Observed) -> (Watch, Verdict) {
    match watch {
        Watch::Nothing => (Watch::Nothing, Verdict::Stop),
        Watch::Both => match observed {
            Observed::Signal(true) => (Watch::Nothing, Verdict::Stop),
            Observed::Signal(false) => (Watch::Both, Verdict::Proceed),
            Observed::SenderDropped => (Watch::StreamOnly, Verdict::Proceed),
            Observed::Item => (Watch::Both, Verdict::Forward),
            Observed::Exhausted => (Watch::Nothing, Verdict::Stop),
        },
        Watch::StreamOnly => match observed {
            Observed::Item => (Watch::StreamOnly, Verdict::Forward),
            Observed::Exhausted => (Watch::Nothing, Verdict::Stop),
            _ => (Watch::StreamOnly, Verdict::Proceed),
        },
    }
}

/// One step of the filter: items pass while the signal is false; the
/// stream ends at once when the signal turns true; when the signal's
/// sender is dropped the remaining items pass; and the stream ends when
/// what it wraps is exhausted.
pub fn terminate_if(watch: Watch, observed: Observed) -> (next: (Watch, Verdict))
    ensures
        next == filtered(watch, observed),
{
    match watch {
        Watch::Nothing => (Watch::Nothing, Verdict::Stop),
        Watch::Both => match observed {
            Observed::Signal(true) => (Watch::Nothing, Verdict::Stop),
            Observed::Signal(false) => (Watch::Both, Verdict::Proceed),
            Observed::SenderDropped => (Watch::StreamOnly, Verdict::Proceed),
            Observed::Item => (Watch::Both, Verdict::Forward),
            Observed::Exhausted => (Watch::Nothing, Verdict::Stop),
        },
        Watch::StreamOnly => match observed {
            Observed::Item => (Watch::StreamOnly, Verdict::Forward),
            Observed::Exhausted => (Watch::Nothing, Verdict::Stop),
            Observed::Signal(_) => (Watch::StreamOnly, Verdict::Proceed),
            Observed::SenderDropped => (Watch::StreamOnly, Verdict::Proceed),
        },
    }
}

/// The state of the filter after each of `observations` in turn.
pub open spec fn watch_after(watch: Watch, observations: Seq<Observed>) -> Watch
    decreases observations.len(),
{
    if observations.len() == 0 {
        watch
    } else {
        filtered(watch_after(watch, observations.drop_last()), observations.last()).0
    }
}

/// After the signal was seen to turn true while both were watched, the
/// filter watches nothing and hands nothing on, whatever is observed
/// later.
pub proof fn lemma_ended_after_signal(
    before: Seq<Observed>,
    after: Seq<Observed>,
    observed: Observed,
)
    requires
        watch_after(Watch::Both, before) == Watch::Both,
    ensures
        watch_after(Watch::Both, before.push(Observed::Signal(true)) + after) == Watch::Nothing,
        filtered(
            watch_after(Watch::Both, before.push(Observed::Signal(true)) + after),
            observed,
        ).1 == Verdict::Stop,
    decreases after.len(),
{
    let prefix = before.push(Observed::Signal(true));
    let all = prefix + after;
    if after.len() == 0 {
        assert(all =~= prefix);
        assert(prefix.drop_last() =~= before);
    } else {
        lemma_ended_after_signal(before, after.drop_last(), observed);
        assert(all.drop_last() =~= prefix + after.drop_last());
    }
}

/// While the signal stays false and its sender is there, the filter
/// watches both, and an item passes.
pub proof fn lemma_items_pass_while_signal_is_false(seen: Seq<Observed>)
    requires
        forall|i: int|
            0 <= i < seen.len() ==> (#[trigger] seen[i]) == Observed::Item || seen[i]
                == Observed::Signal(false),
    ensures
        watch_after(Watch::Both, seen) == Watch::Both,
        filtered(watch_after(Watch::Both, seen), Observed::Item) == (Watch::Both, Verdict::Forward),
    decreases seen.len(),
{
    if seen.len() > 0 {
        let front = seen.drop_last();
        assert forall|i: int| 0 <= i < front.len() implies (#[trigger] front[i])
            == Observed::Item || front[i] == Observed::Signal(false) by {
            assert(front[i] == seen[i]);
        }
        lemma_items_pass_while_signal_is_false(front);
        assert(seen.last() == seen[seen.len() - 1]);
    }
}

/// After the signal's sender was dropped while both were watched, the
/// items that remain pass, whatever the signal is seen to do, until the
/// stream is exhausted.
pub proof fn lemma_items_pass_after_sender_dropped(before: Seq<Observed>, after: Seq<Observed>)
    requires
        watch_after(Watch::Both, before) == Watch::Both,
        forall|i: int| 0 <= i < after.len() ==> (#[trigger] after[i]) != Observed::Exhausted,
    ensures
        watch_after(Watch::Both, before.push(Observed::SenderDropped) + after)
            == Watch::StreamOnly,
        filtered(
            watch_after(Watch::Both, before.push(Observed::SenderDropped) + after),
            Observed::Item,
        ) == (Watch::StreamOnly, Verdict::Forward),
    decreases after.len(),
{
    let prefix = before.push(Observed::SenderDropped);
    let all = prefix + after;
    if after.len() == 0 {
        assert(all =~= prefix);
        assert(prefix.drop_last() =~= before);
    } else {
        let front = after.drop_last();
        assert forall|i: int| 0 <= i < front.len() implies (#[trigger] front[i])
            != Observed::Exhausted by {
            assert(front[i] == after[i]);
        }
        lemma_items_pass_after_sender_dropped(before, front);
        assert(all.drop_last() =~= prefix + front);
        assert(all.last() == after[after.len() - 1]);
    }
}

} // verus!
