use process_key_sender::acquire::{AcqCommand, Acquisition};
use process_key_sender::config::{IndependentKey, KeyAction};
use process_key_sender::error::PksError;
use process_key_sender::independent::{IndCommand, IndependentDriver};
use process_key_sender::refresh::{HandleCell, RefreshRole};
use process_key_sender::sequence::{SeqCommand, SequenceDriver, StepOutcome};

fn three_steps() -> Vec<KeyAction> {
    vec![
        KeyAction {
            key: "1".to_string(),
            interval_after: 500,
        },
        KeyAction {
            key: "2".to_string(),
            interval_after: 500,
        },
        KeyAction {
            key: "space".to_string(),
            interval_after: 1000,
        },
    ]
}

/// Run a sequence driver to completion with every injection
/// delivered, collecting the injected step indices and the waits.
fn run_clean(mut d: SequenceDriver, fuel: usize) -> (Vec<usize>, Vec<u64>, bool) {
    let mut injected = Vec::new();
    let mut waits = Vec::new();
    for _ in 0..fuel {
        match d.next_command(false) {
            SeqCommand::Inject(i) => {
                injected.push(i);
                d.on_inject_result(StepOutcome::Delivered);
            }
            SeqCommand::Wait(ms) => {
                waits.push(ms);
                d.on_wait_finished();
            }
            SeqCommand::Reacquire => {
                d.on_reacquired(true);
            }
            SeqCommand::HoldPaused => unreachable!("not paused"),
            SeqCommand::Finished => return (injected, waits, true),
        }
    }
    (injected, waits, false)
}

#[test]
fn sequence_without_looping_runs_each_step_once_in_order() {
    let d = SequenceDriver::new(three_steps(), false, 0);
    let (injected, waits, finished) = run_clean(d, 1000);
    assert!(finished);
    assert_eq!(injected, vec![0, 1, 2]);
    assert_eq!(waits, vec![500, 500, 1000]);
}

#[test]
fn sequence_with_repeat_count_runs_exactly_that_many_passes() {
    let d = SequenceDriver::new(three_steps(), true, 2);
    let (injected, waits, finished) = run_clean(d, 1000);
    assert!(finished);
    assert_eq!(injected, vec![0, 1, 2, 0, 1, 2]);
    assert_eq!(waits, vec![500, 500, 1000, 500, 500, 1000]);
}

#[test]
fn sequence_with_unbounded_looping_never_finishes_on_its_own() {
    let d = SequenceDriver::new(three_steps(), true, 0);
    let (injected, _waits, finished) = run_clean(d, 600);
    assert!(!finished);
    // 600 commands alternate inject/wait: 300 injections, still going
    assert_eq!(injected.len(), 300);
    for (k, i) in injected.iter().enumerate() {
        assert_eq!(*i, k % 3);
    }
}

#[test]
fn empty_sequence_has_no_work() {
    let d = SequenceDriver::new(Vec::new(), true, 0);
    assert_eq!(d.next_command(false), SeqCommand::Finished);
}

#[test]
fn paused_driver_never_injects() {
    let mut d = SequenceDriver::new(three_steps(), false, 0);
    // ready to inject, but paused
    assert_eq!(d.next_command(true), SeqCommand::HoldPaused);
    // mid-wait, still paused
    assert_eq!(d.next_command(false), SeqCommand::Inject(0));
    d.on_inject_result(StepOutcome::Delivered);
    assert_eq!(d.next_command(true), SeqCommand::HoldPaused);
    // resume continues from the same point rather than restarting
    assert_eq!(d.next_command(false), SeqCommand::Wait(500));

    let mut ind = IndependentDriver::new(IndependentKey {
        key: "r".to_string(),
        interval: 1000,
    });
    assert_eq!(ind.next_command(true), IndCommand::HoldPaused);
    assert_eq!(ind.next_command(false), IndCommand::Inject);
    ind.on_inject_result(StepOutcome::Delivered);
    assert_eq!(ind.next_command(true), IndCommand::HoldPaused);
    assert_eq!(ind.next_command(false), IndCommand::Wait(1000));
}

#[test]
fn target_gone_asks_for_exactly_one_reacquisition_per_step() {
    let mut d = SequenceDriver::new(three_steps(), false, 0);
    assert_eq!(d.next_command(false), SeqCommand::Inject(0));
    d.on_inject_result(StepOutcome::TargetGone);
    // exactly one re-acquisition before the step is retried
    assert_eq!(d.next_command(false), SeqCommand::Reacquire);
    d.on_reacquired(true);
    // the same step is retried, not skipped
    assert_eq!(d.next_command(false), SeqCommand::Inject(0));
    // a second loss on the same step abandons it: no second re-acquisition
    d.on_inject_result(StepOutcome::TargetGone);
    assert_eq!(d.next_command(false), SeqCommand::Wait(500));
    d.on_wait_finished();
    // the loop continues with the next step
    assert_eq!(d.next_command(false), SeqCommand::Inject(1));
}

#[test]
fn other_rejections_count_the_step_as_attempted() {
    let mut d = SequenceDriver::new(three_steps(), false, 0);
    assert_eq!(d.next_command(false), SeqCommand::Inject(0));
    d.on_inject_result(StepOutcome::Rejected);
    assert_eq!(d.next_command(false), SeqCommand::Wait(500));
    d.on_wait_finished();
    assert_eq!(d.next_command(false), SeqCommand::Inject(1));
}

#[test]
fn failed_reacquisition_is_fatal_to_the_driver() {
    let mut d = SequenceDriver::new(three_steps(), true, 0);
    d.on_inject_result(StepOutcome::TargetGone);
    assert_eq!(d.next_command(false), SeqCommand::Reacquire);
    d.on_reacquired(false);
    assert_eq!(d.next_command(false), SeqCommand::Finished);
}

#[test]
fn independent_driver_cycles_on_its_own_interval() {
    let mut d = IndependentDriver::new(IndependentKey {
        key: "ctrl+s".to_string(),
        interval: 30_000,
    });
    for _ in 0..5 {
        assert_eq!(d.next_command(false), IndCommand::Inject);
        d.on_inject_result(StepOutcome::Delivered);
        assert_eq!(d.next_command(false), IndCommand::Wait(30_000));
        d.on_wait_finished();
    }
    // a lost target: one re-acquisition, then the same cycle retries
    d.on_inject_result(StepOutcome::TargetGone);
    assert_eq!(d.next_command(false), IndCommand::Reacquire);
    d.on_reacquired(true);
    assert_eq!(d.next_command(false), IndCommand::Inject);
    // a second loss in the same cycle abandons it through the wait
    d.on_inject_result(StepOutcome::TargetGone);
    assert_eq!(d.next_command(false), IndCommand::Wait(30_000));
}

#[test]
fn acquisition_that_never_finds_makes_exactly_max_retries_lookups() {
    let mut a = Acquisition::new("game.exe".to_string(), 3);
    let mut lookups = 0;
    loop {
        match a.next_command() {
            AcqCommand::Lookup => {
                lookups += 1;
                a.on_lookup_result(None);
            }
            AcqCommand::Backoff(ms) => {
                assert_eq!(ms, 1000);
                a.on_backoff_done();
            }
            AcqCommand::Ready(_) => unreachable!("locator never finds"),
            AcqCommand::GiveUp => break,
        }
        assert!(lookups <= 3);
    }
    assert_eq!(lookups, 3);
    assert_eq!(a.attempts, 3);
    assert_eq!(
        a.error(),
        PksError::ProcessNotFound {
            name: "game.exe".to_string(),
            retries: 3
        }
    );
}

#[test]
fn acquisition_stops_at_the_first_hit() {
    let mut a = Acquisition::new("game.exe".to_string(), 5);
    assert_eq!(a.next_command(), AcqCommand::Lookup);
    a.on_lookup_result(None);
    assert_eq!(a.next_command(), AcqCommand::Backoff(1000));
    a.on_backoff_done();
    assert_eq!(a.next_command(), AcqCommand::Lookup);
    a.on_lookup_result(Some(4242));
    assert_eq!(a.next_command(), AcqCommand::Ready(4242));
    assert_eq!(a.attempts, 2);
}

#[test]
fn concurrent_refresh_requests_collapse_into_one() {
    let mut cell = HandleCell::new(77);
    let (handle, gen) = cell.snapshot();
    assert_eq!(handle, 77);
    assert_eq!(gen, 0);

    // two drivers fail at the same time and both ask for a refresh
    assert_eq!(cell.request_refresh(gen), RefreshRole::Leader);
    assert_eq!(cell.request_refresh(gen), RefreshRole::Follower);
    assert_eq!(cell.request_refresh(gen), RefreshRole::Follower);

    // the leader publishes the new handle once
    cell.complete_refresh(88);
    let (handle, gen2) = cell.snapshot();
    assert_eq!(handle, 88);
    assert_eq!(gen2, 1);

    // a driver still quoting the old snapshot is told it is stale
    assert_eq!(cell.request_refresh(gen), RefreshRole::AlreadyRefreshed);
    // the next failure at the new generation starts a new single flight
    assert_eq!(cell.request_refresh(gen2), RefreshRole::Leader);
}
