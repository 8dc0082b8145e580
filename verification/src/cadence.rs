//! The cadence of ticks: a driver that renders on every cycle lets the sand
//! move on every `n`th cycle only.

use vstd::prelude::*;

verus! {

/// The phase that follows `phase`: one more, and back to zero after
/// `divisor` cycles.
pub open spec fn next_phase(phase: int, divisor: int) -> int {
    (phase + 1) % divisor
}

/// The phase after `count` cycles, starting from zero.
pub open spec fn phase_after(count: nat, divisor: int) -> int
    decreases count,
{
    if count == 0 {
        0
    } else {
        next_phase(phase_after((count - 1) as nat, divisor), divisor)
    }
}

/// Counts cycles and says on which of them a tick is due: on the first, and
/// then on every `divisor`th.
pub struct Cadence {
    divisor: u32,
    phase: u32,
}

impl Cadence {
    #[verifier::type_invariant]
    spec fn well_formed(&self) -> bool {
        self.phase < self.divisor
    }

    /// The number of cycles from one tick to the next.
    pub closed spec fn spec_divisor(&self) -> u32 {
        self.divisor
    }

    /// The number of cycles since the last one on which a tick was due,
    /// that one included: `0` when a tick is due on the coming cycle.
    pub closed spec fn spec_phase(&self) -> u32 {
        self.phase
    }

    /// A cadence of one tick in `divisor` cycles, the first cycle being one
    /// of them; nothing if `divisor` is zero.
    pub fn new(divisor: u32) -> (made: Option<Cadence>)
        ensures
            made is Some <==> divisor > 0,
            made matches Some(cadence) ==> cadence.spec_divisor() == divisor
                && cadence.spec_phase() == 0,
    {
        if divisor == 0 {
            None
        } else {
            Some(Cadence { divisor, phase: 0 })
        }
    }

    /// The number of cycles from one tick to the next.
    #[verifier::when_used_as_spec(spec_divisor)]
    pub fn divisor(&self) -> (divisor: u32)
        ensures
            divisor == self.spec_divisor(),
            divisor > 0,
    {
        proof {
            use_type_invariant(self);
        }
        self.divisor
    }

    /// The number of cycles since the last one on which a tick was due.
    #[verifier::when_used_as_spec(spec_phase)]
    pub fn phase(&self) -> (phase: u32)
        ensures
            phase == self.spec_phase(),
            phase < self.spec_divisor(),
    {
        proof {
            use_type_invariant(self);
        }
        self.phase
    }

    /// Counts one cycle and says whether a tick is due on it.
    pub fn advance(&mut self) -> (due: bool)
        ensures
            final(self).spec_divisor() == old(self).spec_divisor(),
            due == (old(self).spec_phase() == 0),
            final(self).spec_phase() == next_phase(
                old(self).spec_phase() as int,
                old(self).spec_divisor() as int,
            ),
    {
        proof {
            use_type_invariant(&*self);
        }
        let due: bool = self.phase == 0;
        if self.phase + 1 == self.divisor {
            self.phase = 0;
        } else {
            proof {
                let next = self.phase as int + 1;
                let d = self.divisor as int;
                assert(next % d == next) by (nonlinear_arith)
                    requires
                        0 <= next < d,
                ;
            }
            self.phase = self.phase + 1;
        }
        proof {
            let d = self.divisor as int;
            assert(d % d == 0) by (nonlinear_arith)
                requires
                    d > 0,
            ;
        }
        due
    }
}

impl Default for Cadence {
    /// One tick in five cycles.
    fn default() -> (cadence: Cadence)
        ensures
            cadence.spec_divisor() == 5,
            cadence.spec_phase() == 0,
    {
        Cadence { divisor: 5, phase: 0 }
    }
}

/// A tick is due on every `divisor`th cycle: after `count` cycles the phase
/// is `count` modulo the divisor, so that it is zero, and a tick due on the
/// coming cycle, exactly when `count` is a multiple of the divisor.
pub proof fn lemma_phase_counts_cycles(count: nat, divisor: int)
    requires
        divisor > 0,
    ensures
        phase_after(count, divisor) == count as int % divisor,
        phase_after(count, divisor) == 0 <==> count as int % divisor == 0,
    decreases count,
{
    if count == 0 {
        vstd::arithmetic::div_mod::lemma_small_mod(0, divisor as nat);
    } else {
        lemma_phase_counts_cycles((count - 1) as nat, divisor);
        vstd::arithmetic::div_mod::lemma_add_mod_noop_right(1, count - 1, divisor);
    }
}

} // verus!
