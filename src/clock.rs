//! A fixed-step animation clock.
//!
//! Time is counted in whole ticks and multiplied by the step only when read,
//! so the time after `n` ticks is exactly `n · step`, with no accumulated
//! rounding.
use vstd::prelude::*;

verus! {

/// Animation time that advances by a fixed step once per frame. The step is
/// an integer count of a caller-chosen time unit (hundredths of a second,
/// say); the clock never runs backwards.
#[derive(Debug, Clone, Copy)]
pub struct AnimationClock {
    ticks: u64,
    step: u32,
}

impl AnimationClock {
    /// Ticks taken so far.
    pub closed spec fn spec_ticks(self) -> nat {
        self.ticks as nat
    }

    /// Time units per tick.
    pub closed spec fn spec_step(self) -> nat {
        self.step as nat
    }

    /// Elapsed time, in the step's unit.
    pub open spec fn spec_time(self) -> nat {
        self.spec_ticks() * self.spec_step()
    }

    /// The clock after one more tick; it stays put once the tick count is
    /// at its largest value.
    pub open spec fn spec_advanced(self, next: Self) -> bool {
        &&& next.spec_step() == self.spec_step()
        &&& next.spec_ticks() == if self.spec_ticks() < u64::MAX {
            self.spec_ticks() + 1
        } else {
            self.spec_ticks()
        }
    }

    pub fn new(step: u32) -> (r: Self)
        ensures
            r.spec_ticks() == 0,
            r.spec_step() == step,
    {
        AnimationClock { ticks: 0, step }
    }

    pub fn ticks(&self) -> (r: u64)
        ensures
            r == self.spec_ticks(),
    {
        self.ticks
    }

    pub fn step(&self) -> (r: u32)
        ensures
            r == self.spec_step(),
    {
        self.step
    }

    /// Elapsed time, `ticks · step`, in the step's unit.
    pub fn time(&self) -> (r: u128)
        ensures
            r == self.spec_time(),
    {
        proof {
            assert(self.ticks as nat * self.step as nat <= u64::MAX as nat * u32::MAX as nat)
                by (nonlinear_arith)
                requires
                    self.ticks <= u64::MAX,
                    self.step <= u32::MAX,
            ;
        }
        self.ticks as u128 * self.step as u128
    }

    /// Moves the clock forward by one step.
    pub fn advance(&mut self)
        ensures
            old(self).spec_advanced(*final(self)),
    {
        if self.ticks < u64::MAX {
            self.ticks = self.ticks + 1;
        }
    }
}

/// The clock reached from `start` by `n` ticks.
pub open spec fn advanced_by(start: AnimationClock, n: nat, end: AnimationClock) -> bool
    decreases n,
{
    if n == 0 {
        end == start
    } else {
        exists|mid: AnimationClock| advanced_by(start, (n - 1) as nat, mid) && #[trigger] mid.spec_advanced(end)
    }
}

/// A clock that starts at zero and takes `n` ticks of step `s` reads
/// exactly `n · s`, for every `n` up to the largest tick count.
pub proof fn lemma_time_after_ticks(start: AnimationClock, n: nat, end: AnimationClock)
    requires
        start.spec_ticks() == 0,
        n <= u64::MAX,
        advanced_by(start, n, end),
    ensures
        end.spec_ticks() == n,
        end.spec_step() == start.spec_step(),
        end.spec_time() == n * start.spec_step(),
    decreases n,
{
    if n > 0 {
        let mid = choose|mid: AnimationClock|
            advanced_by(start, (n - 1) as nat, mid) && #[trigger] mid.spec_advanced(end);
        lemma_time_after_ticks(start, (n - 1) as nat, mid);
    }
}

} // verus!
