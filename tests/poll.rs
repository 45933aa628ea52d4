use std::cell::Cell;
use stm32f3_common::poll::{poll_with_timeout, PollOutcome, PollReport, PollStep, PollTimeout};

#[test]
fn never_true_condition_times_out_after_budget_plus_one() {
    let evaluations = Cell::new(0u32);
    let pauses = Cell::new(0u32);
    let r = poll_with_timeout(
        5,
        || {
            evaluations.set(evaluations.get() + 1);
            false
        },
        || pauses.set(pauses.get() + 1),
    );
    assert_eq!(r, PollReport { outcome: PollOutcome::Timeout, evaluations: 6 });
    assert_eq!(evaluations.get(), 6);
    assert_eq!(pauses.get(), 5);
}

#[test]
fn true_condition_succeeds_at_once_whatever_the_budget() {
    for budget in [0u32, 1, 100, u32::MAX] {
        let evaluations = Cell::new(0u32);
        let pauses = Cell::new(0u32);
        let r = poll_with_timeout(
            budget,
            || {
                evaluations.set(evaluations.get() + 1);
                true
            },
            || pauses.set(pauses.get() + 1),
        );
        assert_eq!(r, PollReport { outcome: PollOutcome::Success, evaluations: 1 });
        assert_eq!(evaluations.get(), 1);
        assert_eq!(pauses.get(), 0);
    }
}

#[test]
fn zero_budget_false_condition_times_out_without_delay() {
    let pauses = Cell::new(0u32);
    let r = poll_with_timeout(0, || false, || pauses.set(pauses.get() + 1));
    assert_eq!(r.outcome, PollOutcome::Timeout);
    assert_eq!(r.evaluations, 1);
    assert_eq!(pauses.get(), 0);
}

#[test]
fn condition_that_becomes_true_ends_the_wait() {
    let evaluations = Cell::new(0u32);
    let pauses = Cell::new(0u32);
    let r = poll_with_timeout(
        10,
        || {
            evaluations.set(evaluations.get() + 1);
            evaluations.get() == 4
        },
        || pauses.set(pauses.get() + 1),
    );
    assert_eq!(r, PollReport { outcome: PollOutcome::Success, evaluations: 4 });
    assert_eq!(pauses.get(), 3);
}

#[test]
fn condition_true_on_the_last_allowed_evaluation_succeeds() {
    let evaluations = Cell::new(0u32);
    let r = poll_with_timeout(
        2,
        || {
            evaluations.set(evaluations.get() + 1);
            evaluations.get() == 3
        },
        || {},
    );
    assert_eq!(r, PollReport { outcome: PollOutcome::Success, evaluations: 3 });
}

#[test]
fn countdown_retries_then_times_out() {
    let mut wait = PollTimeout::new(2);
    assert_eq!(wait.observe(false), PollStep::Retry);
    assert_eq!(wait.observe(false), PollStep::Retry);
    assert_eq!(wait.observe(false), PollStep::Finished(PollOutcome::Timeout));
}

#[test]
fn finished_countdown_keeps_its_outcome() {
    let mut wait = PollTimeout::new(3);
    assert_eq!(wait.observe(true), PollStep::Finished(PollOutcome::Success));
    assert_eq!(wait.observe(false), PollStep::Finished(PollOutcome::Success));
    let mut expired = PollTimeout::new(0);
    assert_eq!(expired.observe(false), PollStep::Finished(PollOutcome::Timeout));
    assert_eq!(expired.observe(true), PollStep::Finished(PollOutcome::Timeout));
}

#[test]
fn zero_budget_countdown_evaluates_once() {
    let mut wait = PollTimeout::new(0);
    assert_eq!(wait.observe(true), PollStep::Finished(PollOutcome::Success));
}
