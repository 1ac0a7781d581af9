use klatsch::terminate::Observed::{Exhausted, Item, SenderDropped, Signal};
use klatsch::terminate::{terminate_if, Observed, Verdict, Watch};

/// Runs the filter over what a driver observes, and counts the items that
/// pass before the stream ends.
fn run(observations: &[Observed]) -> (usize, bool) {
    let mut watch = Watch::Both;
    let mut passed = 0;
    for observed in observations {
        let (next, verdict) = terminate_if(watch, *observed);
        watch = next;
        match verdict {
            Verdict::Forward => passed += 1,
            Verdict::Proceed => {}
            Verdict::Stop => return (passed, true),
        }
    }
    (passed, false)
}

#[test]
fn signal_terminates_stream_with_infinite_items() {
    let mut observations = vec![Observed::Item; 42];
    observations.push(Observed::Signal(true));
    observations.extend(vec![Observed::Item; 42]);
    assert_eq!(run(&observations), (42, true));
}

#[test]
fn termination_is_immediate() {
    let observations = [Observed::Signal(true), Observed::Item, Observed::Item];
    assert_eq!(run(&observations), (0, true));
}

#[test]
fn terminates_when_underlying_stream_ends() {
    let observations = [Observed::Item, Observed::Exhausted];
    assert_eq!(run(&observations), (1, true));
}

#[test]
fn dropped_sender_forwards_remaining_items() {
    let observations = [
        Observed::SenderDropped,
        Observed::Item,
        Observed::Item,
        Observed::Item,
        Observed::Exhausted,
    ];
    assert_eq!(run(&observations), (3, true));
}

#[test]
fn shutdown_terminates_stream_with_infinite_items() {
    let observations = [Observed::Item, Observed::Item, Observed::Signal(true), Observed::Item];
    assert_eq!(run(&observations), (2, true));
}

#[test]
fn terminating_stream_is_immediate() {
    assert_eq!(terminate_if(Watch::Both, Observed::Signal(true)), (Watch::Nothing, Verdict::Stop));
}

#[test]
fn terminate_if_underlying_stream_ends_even_if_shutting_down_is_false() {
    let observations = [Observed::Signal(false), Observed::Item, Observed::Exhausted];
    assert_eq!(run(&observations), (1, true));
}

#[test]
fn false_signal_lets_items_pass() {
    let observations = [Observed::Signal(false), Observed::Item, Observed::Signal(false), Observed::Item];
    assert_eq!(run(&observations), (2, false));
}

#[test]
fn every_step_of_the_filter() {
    assert_eq!(terminate_if(Watch::Both, Signal(false)), (Watch::Both, Verdict::Proceed));
    assert_eq!(terminate_if(Watch::Both, SenderDropped), (Watch::StreamOnly, Verdict::Proceed));
    assert_eq!(terminate_if(Watch::Both, Item), (Watch::Both, Verdict::Forward));
    assert_eq!(terminate_if(Watch::Both, Exhausted), (Watch::Nothing, Verdict::Stop));
    assert_eq!(terminate_if(Watch::StreamOnly, Item), (Watch::StreamOnly, Verdict::Forward));
    assert_eq!(terminate_if(Watch::StreamOnly, Exhausted), (Watch::Nothing, Verdict::Stop));
    assert_eq!(terminate_if(Watch::StreamOnly, Signal(true)), (Watch::StreamOnly, Verdict::Proceed));
    assert_eq!(terminate_if(Watch::StreamOnly, SenderDropped), (Watch::StreamOnly, Verdict::Proceed));
    for observed in [Signal(true), Signal(false), SenderDropped, Item, Exhausted] {
        assert_eq!(terminate_if(Watch::Nothing, observed), (Watch::Nothing, Verdict::Stop));
    }
}
