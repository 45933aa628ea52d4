//! Pass/fail bookkeeping for a linear sequence of checks.
//!
//! Each check compares an observed value with what was expected and counts a
//! pass or a failure; a failed check never stops the checks after it.
use vstd::prelude::*;

verus! {

/// Counts of passed and failed checks.
pub struct Tally {
    passed: u32,
    failed: u32,
}

impl Tally {
    /// Checks passed so far.
    pub closed spec fn passed_count(&self) -> nat {
        self.passed as nat
    }

    /// Checks failed so far.
    pub closed spec fn failed_count(&self) -> nat {
        self.failed as nat
    }

    /// No check recorded yet.
    pub fn new() -> (r: Tally)
        ensures
            r.passed_count() == 0,
            r.failed_count() == 0,
    {
        Tally { passed: 0, failed: 0 }
    }

    /// Records the result of one check and hands it back.
    pub fn record(&mut self, ok: bool) -> (r: bool)
        requires
            old(self).passed_count() < u32::MAX,
            old(self).failed_count() < u32::MAX,
        ensures
            r == ok,
            final(self).passed_count() == old(self).passed_count() + if ok {
                1nat
            } else {
                0nat
            },
            final(self).failed_count() == old(self).failed_count() + if ok {
                0nat
            } else {
                1nat
            },
    {
        if ok {
            self.passed = self.passed + 1;
        } else {
            self.failed = self.failed + 1;
        }
        ok
    }

    /// Records whether `observed` is `expected`.
    pub fn check_equal(&mut self, observed: u32, expected: u32) -> (r: bool)
        requires
            old(self).passed_count() < u32::MAX,
            old(self).failed_count() < u32::MAX,
        ensures
            r == (observed == expected),
            final(self).passed_count() == old(self).passed_count() + if r {
                1nat
            } else {
                0nat
            },
            final(self).failed_count() == old(self).failed_count() + if r {
                0nat
            } else {
                1nat
            },
    {
        self.record(observed == expected)
    }

    /// Records whether `observed` lies in `low..=high`.
    pub fn check_in_range(&mut self, observed: u32, low: u32, high: u32) -> (r: bool)
        requires
            old(self).passed_count() < u32::MAX,
            old(self).failed_count() < u32::MAX,
        ensures
            r == (low <= observed && observed <= high),
            final(self).passed_count() == old(self).passed_count() + if r {
                1nat
            } else {
                0nat
            },
            final(self).failed_count() == old(self).failed_count() + if r {
                0nat
            } else {
                1nat
            },
    {
        self.record(low <= observed && observed <= high)
    }

    /// Checks passed so far.
    pub fn passed(&self) -> (r: u32)
        ensures
            r == self.passed_count(),
    {
        self.passed
    }

    /// Checks failed so far.
    pub fn failed(&self) -> (r: u32)
        ensures
            r == self.failed_count(),
    {
        self.failed
    }

    /// Whether no check has failed.
    pub fn all_passed(&self) -> (r: bool)
        ensures
            r == (self.failed_count() == 0),
    {
        self.failed == 0
    }
}

} // verus!
