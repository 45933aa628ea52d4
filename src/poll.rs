//! Bounded busy-wait on a hardware condition.
//!
//! A wait is a countdown over a retry budget: the condition is evaluated, and
//! while it is false and budget remains, the caller pauses for a fixed short
//! delay and evaluates it again. When the budget is spent the wait ends in a
//! timeout instead of looping for ever. A budget of zero still evaluates the
//! condition once.
use vstd::prelude::*;

verus! {

/// How a wait ended.
#[derive(Clone, Copy, Debug, PartialEq, Eq, Structural)]
pub enum PollOutcome {
    /// The condition held at the last evaluation.
    Success,
    /// The condition was false at every evaluation and the budget is spent.
    Timeout,
}

/// What the caller does after reporting one evaluation of the condition.
#[derive(Clone, Copy, Debug, PartialEq, Eq, Structural)]
pub enum PollStep {
    /// Pause for the fixed delay, then evaluate the condition again.
    Retry,
    /// The wait is over.
    Finished(PollOutcome),
}

/// Abstract state of a wait.
pub struct PollState {
    /// The retry budget the wait was created with.
    pub budget: nat,
    /// Retries still allowed.
    pub remaining: nat,
    /// Evaluations of the condition reported so far.
    pub evaluations: nat,
    /// How the wait ended, once it has.
    pub outcome: Option<PollOutcome>,
}

impl PollState {
    /// A wait that has not evaluated its condition yet.
    pub open spec fn fresh(budget: nat) -> PollState {
        PollState { budget, remaining: budget, evaluations: 0, outcome: None }
    }

    /// Pauses taken so far: one per retry.
    pub open spec fn pauses(self) -> nat {
        (self.budget - self.remaining) as nat
    }

    /// The step answered to one more evaluation whose result is `satisfied`.
    pub open spec fn step(self, satisfied: bool) -> PollStep {
        match self.outcome {
            Some(o) => PollStep::Finished(o),
            None => if satisfied {
                PollStep::Finished(PollOutcome::Success)
            } else if self.remaining == 0 {
                PollStep::Finished(PollOutcome::Timeout)
            } else {
                PollStep::Retry
            },
        }
    }

    /// The state after one more evaluation whose result is `satisfied`; a
    /// finished wait ignores further evaluations.
    pub open spec fn after(self, satisfied: bool) -> PollState {
        match self.outcome {
            Some(_) => self,
            None => if satisfied {
                PollState {
                    evaluations: self.evaluations + 1,
                    outcome: Some(PollOutcome::Success),
                    ..self
                }
            } else if self.remaining == 0 {
                PollState {
                    evaluations: self.evaluations + 1,
                    outcome: Some(PollOutcome::Timeout),
                    ..self
                }
            } else {
                PollState {
                    remaining: (self.remaining - 1) as nat,
                    evaluations: self.evaluations + 1,
                    ..self
                }
            },
        }
    }

    /// The state after evaluations whose results are `results`, in order.
    pub open spec fn run(self, results: Seq<bool>) -> PollState
        decreases results.len(),
    {
        if results.len() == 0 {
            self
        } else {
            self.after(results[0]).run(results.drop_first())
        }
    }

    /// The state's counters agree with each other.
    pub open spec fn wf(self) -> bool {
        &&& self.remaining <= self.budget
        &&& self.evaluations == self.pauses() + if self.outcome is Some {
            1nat
        } else {
            0nat
        }
        &&& self.outcome == Some(PollOutcome::Timeout) ==> self.remaining == 0
    }
}

/// Evaluating once more after a run is the same as running the longer sequence.
proof fn lemma_run_push(s: PollState, results: Seq<bool>, satisfied: bool)
    ensures
        s.run(results.push(satisfied)) == s.run(results).after(satisfied),
    decreases results.len(),
{
    let longer = results.push(satisfied);
    assert(longer[0] == if results.len() == 0 {
        satisfied
    } else {
        results[0]
    });
    if results.len() == 0 {
        assert(longer.drop_first() =~= Seq::<bool>::empty());
        assert(s.after(satisfied).run(Seq::<bool>::empty()) == s.after(satisfied));
    } else {
        assert(longer.drop_first() =~= results.drop_first().push(satisfied));
        lemma_run_push(s.after(results[0]), results.drop_first(), satisfied);
    }
}

/// A finished wait ignores every further evaluation.
proof fn lemma_finished_absorbs(s: PollState, results: Seq<bool>)
    requires
        s.outcome is Some,
    ensures
        s.run(results) == s,
    decreases results.len(),
{
    if results.len() > 0 {
        lemma_finished_absorbs(s.after(results[0]), results.drop_first());
    }
}

/// Where the condition is never true, a wait makes at most `budget + 1`
/// evaluations: while fewer have been made it is still waiting, and the
/// evaluation after the last retry ends it in a timeout, after exactly
/// `budget` pauses.
pub proof fn never_satisfied_times_out(budget: nat, results: Seq<bool>)
    requires
        forall|i: int| 0 <= i < results.len() ==> !results[i],
    ensures
        results.len() <= budget ==> PollState::fresh(budget).run(results) == (PollState {
            budget,
            remaining: (budget - results.len()) as nat,
            evaluations: results.len(),
            outcome: None,
        }),
        results.len() > budget ==> PollState::fresh(budget).run(results) == (PollState {
            budget,
            remaining: 0,
            evaluations: budget + 1,
            outcome: Some(PollOutcome::Timeout),
        }),
        PollState::fresh(budget).run(results).evaluations <= budget + 1,
        results.len() > budget ==> PollState::fresh(budget).run(results).pauses() == budget,
    decreases results.len(),
{
    let fresh = PollState::fresh(budget);
    if results.len() > 0 {
        let prefix = results.drop_last();
        assert(prefix.push(results.last()) =~= results);
        never_satisfied_times_out(budget, prefix);
        lemma_run_push(fresh, prefix, results.last());
        if prefix.len() > budget {
            lemma_finished_absorbs(fresh.run(prefix), seq![results.last()]);
        }
    }
}

/// Where the condition holds at the first evaluation, a wait succeeds after
/// that one evaluation and no pause, whatever its budget.
pub proof fn satisfied_at_once_succeeds(budget: nat, results: Seq<bool>)
    requires
        results.len() >= 1,
        results[0],
    ensures
        PollState::fresh(budget).run(results).outcome == Some(PollOutcome::Success),
        PollState::fresh(budget).run(results).evaluations == 1,
        PollState::fresh(budget).run(results).pauses() == 0,
{
    let first = PollState::fresh(budget).after(true);
    lemma_finished_absorbs(first, results.drop_first());
}

/// How a driven wait ended, and after how many evaluations of its condition.
#[derive(Clone, Copy, Debug, PartialEq, Eq, Structural)]
pub struct PollReport {
    pub outcome: PollOutcome,
    pub evaluations: u64,
}

/// Waits for `condition` to hold, calling `pause` between evaluations, for at
/// most `budget` retries after the first evaluation.
///
/// The report is the end of a wait whose evaluations returned results that
/// `condition` can return; there were `evaluations - 1` pauses.
pub fn poll_with_timeout<C: Fn() -> bool, P: Fn()>(budget: u32, condition: C, pause: P) -> (r:
    PollReport)
    requires
        condition.requires(()),
        pause.requires(()),
    ensures
        exists|results: Seq<bool>|
            {
                &&& results.len() == r.evaluations
                &&& forall|i: int| 0 <= i < results.len() ==> condition.ensures((), #[trigger] results[i])
                &&& PollState::fresh(budget as nat).run(results).outcome == Some(r.outcome)
                &&& PollState::fresh(budget as nat).run(results).evaluations == r.evaluations
            },
        1 <= r.evaluations <= budget + 1,
        r.outcome == PollOutcome::Success ==> condition.ensures((), true),
        r.outcome == PollOutcome::Timeout ==> condition.ensures((), false) && r.evaluations == budget
            + 1,
        (forall|b: bool| condition.ensures((), b) ==> !b) ==> r.outcome == PollOutcome::Timeout,
        (forall|b: bool| condition.ensures((), b) ==> b) ==> r.outcome == PollOutcome::Success
            && r.evaluations == 1,
{
    let mut wait = PollTimeout::new(budget);
    let ghost fresh = PollState::fresh(budget as nat);
    let ghost mut results: Seq<bool> = Seq::empty();
    loop
        invariant
            wait.inv(),
            fresh == PollState::fresh(budget as nat),
            wait@ == fresh.run(results),
            wait@.outcome is None,
            wait@.budget == budget,
            results.len() == wait@.evaluations,
            forall|i: int| 0 <= i < results.len() ==> condition.ensures((), #[trigger] results[i]),
            forall|i: int| 0 <= i < results.len() ==> !#[trigger] results[i],
            condition.requires(()),
            pause.requires(()),
        decreases wait@.remaining,
    {
        let satisfied = condition();
        proof {
            lemma_run_push(fresh, results, satisfied);
            results = results.push(satisfied);
        }
        match wait.observe(satisfied) {
            PollStep::Retry => {
                pause();
            },
            PollStep::Finished(outcome) => {
                proof {
                    let n = results.len() - 1;
                    assert(results[n] == satisfied);
                    assert(condition.ensures((), results[n]));
                    if results.len() > 1 {
                        assert(condition.ensures((), results[0]));
                        assert(!results[0]);
                    }
                    assert(results.len() == wait.evaluations);
                    assert(PollState::fresh(budget as nat).run(results).outcome == Some(outcome));
                }
                return PollReport { outcome, evaluations: wait.evaluations };
            },
        }
    }
}

/// A wait in progress: the countdown of one bounded busy-wait.
pub struct PollTimeout {
    budget: u32,
    remaining: u32,
    evaluations: u64,
    outcome: Option<PollOutcome>,
}

impl View for PollTimeout {
    type V = PollState;

    closed spec fn view(&self) -> PollState {
        PollState {
            budget: self.budget as nat,
            remaining: self.remaining as nat,
            evaluations: self.evaluations as nat,
            outcome: self.outcome,
        }
    }
}

impl PollTimeout {
    /// The counters fit their machine integers and agree with each other.
    pub closed spec fn inv(&self) -> bool {
        self@.wf()
    }

    /// Starts a wait that may retry `budget` times after the first evaluation.
    pub fn new(budget: u32) -> (r: PollTimeout)
        ensures
            r@ == PollState::fresh(budget as nat),
            r.inv(),
    {
        PollTimeout { budget, remaining: budget, evaluations: 0, outcome: None }
    }

    /// Reports one evaluation of the condition and says what to do next.
    pub fn observe(&mut self, satisfied: bool) -> (r: PollStep)
        requires
            old(self).inv(),
        ensures
            r == old(self)@.step(satisfied),
            final(self)@ == old(self)@.after(satisfied),
            final(self).inv(),
    {
        match self.outcome {
            Some(o) => PollStep::Finished(o),
            None => {
                self.evaluations = self.evaluations + 1;
                if satisfied {
                    self.outcome = Some(PollOutcome::Success);
                    PollStep::Finished(PollOutcome::Success)
                } else if self.remaining == 0 {
                    self.outcome = Some(PollOutcome::Timeout);
                    PollStep::Finished(PollOutcome::Timeout)
                } else {
                    self.remaining = self.remaining - 1;
                    PollStep::Retry
                }
            },
        }
    }
}

} // verus!
