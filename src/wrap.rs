//! Cycle detection on a free-running counter.
//!
//! A hardware counter counts up to its reload ceiling and starts again from
//! zero. Its "cycle complete" flag cannot be relied on, so a completed cycle is
//! inferred from two consecutive samples: the counter went down, and the
//! earlier sample was past the middle of the range. Samples must be taken
//! often enough that the counter never runs a whole cycle between two of them.
use vstd::prelude::*;
use vstd::arithmetic::div_mod::{lemma_fundamental_div_mod, lemma_fundamental_div_mod_converse};

verus! {

/// The counter wrapped between a sample `previous` and the next sample
/// `current`, for a counter whose reload ceiling is `ceiling`.
pub open spec fn wrapped(previous: int, current: int, ceiling: int) -> bool {
    current < previous && previous > ceiling / 2
}

/// Whether the counter completed a cycle between a sample `previous` and the
/// next sample `current`.
pub fn cycle_completed(previous: u32, current: u32, ceiling: u32) -> (r: bool)
    ensures
        r == wrapped(previous as int, current as int, ceiling as int),
{
    current < previous && previous > ceiling / 2
}

/// Number of wraps between consecutive samples of `samples`.
pub open spec fn count_wraps(ceiling: int, samples: Seq<int>) -> nat
    decreases samples.len(),
{
    if samples.len() < 2 {
        0
    } else {
        let n = samples.len();
        count_wraps(ceiling, samples.drop_last()) + if wrapped(
            samples[n - 2],
            samples[n - 1],
            ceiling,
        ) {
            1nat
        } else {
            0nat
        }
    }
}

/// Abstract state of a sampler.
pub struct SamplerState {
    /// The counter's reload ceiling.
    pub ceiling: int,
    /// The latest sample.
    pub previous: int,
    /// Cycles detected so far.
    pub cycles: nat,
}

impl SamplerState {
    /// A sampler whose first sample is `first`.
    pub open spec fn started(ceiling: int, first: int) -> SamplerState {
        SamplerState { ceiling, previous: first, cycles: 0 }
    }

    /// The state after one more sample.
    pub open spec fn next(self, current: int) -> SamplerState {
        SamplerState {
            previous: current,
            cycles: self.cycles + if wrapped(self.previous, current, self.ceiling) {
                1nat
            } else {
                0nat
            },
            ..self
        }
    }

    /// The state after the samples `samples`, in order.
    pub open spec fn feed(self, samples: Seq<int>) -> SamplerState
        decreases samples.len(),
    {
        if samples.len() == 0 {
            self
        } else {
            self.feed(samples.drop_last()).next(samples.last())
        }
    }
}

/// Why a sampler could not be made.
#[derive(Clone, Copy, Debug, PartialEq, Eq, Structural)]
pub enum SamplerError {
    /// A ceiling of zero or one leaves no upper half to wrap from.
    DegenerateCeiling,
}

/// Detects completed cycles of a free-running counter from its samples.
pub struct WraparoundSampler {
    ceiling: u32,
    previous: u32,
    cycles: u64,
}

impl View for WraparoundSampler {
    type V = SamplerState;

    closed spec fn view(&self) -> SamplerState {
        SamplerState {
            ceiling: self.ceiling as int,
            previous: self.previous as int,
            cycles: self.cycles as nat,
        }
    }
}

impl WraparoundSampler {
    /// Starts sampling a counter with reload ceiling `ceiling` whose first
    /// sample is `first`; a ceiling below two is refused.
    pub fn new(ceiling: u32, first: u32) -> (r: Result<WraparoundSampler, SamplerError>)
        ensures
            ceiling < 2 ==> r == Err::<WraparoundSampler, SamplerError>(
                SamplerError::DegenerateCeiling,
            ),
            ceiling >= 2 ==> r is Ok && r->Ok_0@ == SamplerState::started(
                ceiling as int,
                first as int,
            ),
    {
        if ceiling < 2 {
            Err(SamplerError::DegenerateCeiling)
        } else {
            Ok(WraparoundSampler { ceiling, previous: first, cycles: 0 })
        }
    }

    /// Takes the next sample and says whether a cycle completed since the
    /// previous one.
    pub fn sample(&mut self, current: u32) -> (r: bool)
        requires
            old(self)@.cycles < u64::MAX,
        ensures
            r == wrapped(old(self)@.previous, current as int, old(self)@.ceiling),
            final(self)@ == old(self)@.next(current as int),
    {
        let r = cycle_completed(self.previous, current, self.ceiling);
        if r {
            self.cycles = self.cycles + 1;
        }
        self.previous = current;
        r
    }

    /// Cycles detected so far.
    pub fn cycles(&self) -> (r: u64)
        ensures
            r == self@.cycles,
    {
        self.cycles
    }

    /// The latest sample.
    pub fn previous(&self) -> (r: u32)
        ensures
            r == self@.previous,
    {
        self.previous
    }

    /// The reload ceiling of the sampled counter.
    pub fn ceiling(&self) -> (r: u32)
        ensures
            r == self@.ceiling,
    {
        self.ceiling
    }
}

/// Feeding the samples after the first to a sampler started on the first
/// counts the wraps between consecutive samples, and leaves the last sample as
/// the latest.
pub proof fn sampler_counts_wraps(ceiling: int, samples: Seq<int>)
    requires
        samples.len() >= 1,
    ensures
        SamplerState::started(ceiling, samples[0]).feed(samples.drop_first()).cycles
            == count_wraps(ceiling, samples),
        SamplerState::started(ceiling, samples[0]).feed(samples.drop_first()).previous
            == samples.last(),
        SamplerState::started(ceiling, samples[0]).feed(samples.drop_first()).ceiling == ceiling,
    decreases samples.len(),
{
    let start = SamplerState::started(ceiling, samples[0]);
    if samples.len() >= 2 {
        let prefix = samples.drop_last();
        sampler_counts_wraps(ceiling, prefix);
        assert(prefix[0] == samples[0]);
        assert(samples.drop_first().drop_last() =~= prefix.drop_first());
        assert(samples.drop_first().last() == samples.last());
        assert(prefix.last() == samples[samples.len() - 2]);
        assert(start.feed(samples.drop_first()) == start.feed(prefix.drop_first()).next(
            samples.last(),
        ));
        let n = samples.len();
        assert(samples.last() == samples[n - 1]);
        assert(count_wraps(ceiling, samples) == count_wraps(ceiling, prefix) + if wrapped(
            samples[n - 2],
            samples[n - 1],
            ceiling,
        ) {
            1nat
        } else {
            0nat
        });
    }
}

/// The samples of a counter with ceiling `ceiling` read every `step` ticks,
/// starting at tick zero: `0, step, 2 * step, ...`, each taken modulo the
/// ceiling.
pub open spec fn sweep(ceiling: int, step: int, n: nat) -> Seq<int> {
    Seq::new(n, |k: int| (k * step) % ceiling)
}

/// One step of `step` ticks from tick `t` is reported as a wrap exactly when
/// it crosses a multiple of the ceiling.
proof fn lemma_step_wraps(ceiling: int, step: int, t: int)
    requires
        1 <= step,
        2 * step < ceiling,
        0 <= t,
    ensures
        wrapped(t % ceiling, (t + step) % ceiling, ceiling) <==> (t + step) / ceiling == t / ceiling
            + 1,
        !wrapped(t % ceiling, (t + step) % ceiling, ceiling) <==> (t + step) / ceiling == t
            / ceiling,
{
    let q = t / ceiling;
    let r = t % ceiling;
    lemma_fundamental_div_mod(t, ceiling);
    assert(t + step == ceiling * q + r + step);
    if r + step < ceiling {
        lemma_fundamental_div_mod_converse(t + step, ceiling, q, r + step);
    } else {
        assert(t + step == (q + 1) * ceiling + (r + step - ceiling)) by (nonlinear_arith)
            requires
                t + step == ceiling * q + r + step,
        ;
        lemma_fundamental_div_mod_converse(t + step, ceiling, q + 1, r + step - ceiling);
    }
}

/// Counting every `step` ticks, with `step` less than half the ceiling, a
/// sampler reports exactly one wrap per full cycle of the counter, and a wrap
/// only where the counter really passed its ceiling: after `n` samples it has
/// seen `((n - 1) * step) / ceiling` cycles.
pub proof fn one_wrap_per_cycle(ceiling: int, step: int, n: nat)
    requires
        1 <= step,
        2 * step < ceiling,
        n >= 1,
    ensures
        count_wraps(ceiling, sweep(ceiling, step, n)) == ((n - 1) * step) / ceiling,
        SamplerState::started(ceiling, 0).feed(sweep(ceiling, step, n).drop_first()).cycles == ((n
            - 1) * step) / ceiling,
        forall|k: int|
            0 <= k < n - 1 ==> (wrapped(
                #[trigger] sweep(ceiling, step, n)[k],
                sweep(ceiling, step, n)[k + 1],
                ceiling,
            ) <==> ((k + 1) * step) / ceiling == (k * step) / ceiling + 1),
    decreases n,
{
    let s = sweep(ceiling, step, n);
    assert(s[0] == 0) by {
        assert(0 * step == 0);
    }
    sampler_counts_wraps(ceiling, s);
    assert forall|k: int| 0 <= k < n - 1 implies (wrapped(
        #[trigger] s[k],
        s[k + 1],
        ceiling,
    ) <==> ((k + 1) * step) / ceiling == (k * step) / ceiling + 1) by {
        assert((k + 1) * step == k * step + step) by (nonlinear_arith);
        assert(k * step >= 0) by (nonlinear_arith)
            requires
                k >= 0,
                step >= 1,
        ;
        lemma_step_wraps(ceiling, step, k * step);
    }
    if n >= 2 {
        let m = (n - 1) as nat;
        one_wrap_per_cycle(ceiling, step, m);
        assert(s.drop_last() =~= sweep(ceiling, step, m));
        let k = m - 1;
        assert((k + 1) * step == k * step + step) by (nonlinear_arith);
        assert(k * step >= 0) by (nonlinear_arith)
            requires
                k >= 0,
                step >= 1,
        ;
        lemma_step_wraps(ceiling, step, k * step);
        assert(n - 1 == k + 1);
        assert(s[n - 2] == (k * step) % ceiling);
        assert(s[n - 1] == ((k + 1) * step) % ceiling);
        assert(count_wraps(ceiling, s) == count_wraps(ceiling, s.drop_last()) + if wrapped(
            s[n - 2],
            s[n - 1],
            ceiling,
        ) {
            1nat
        } else {
            0nat
        });
    } else {
        assert(n - 1 == 0);
        assert((n - 1) * step == 0) by (nonlinear_arith)
            requires
                n - 1 == 0,
        ;
    }
}

} // verus!
