//! Frame pacing: how many ticks of fixed length a stretch of wall-clock time
//! is worth.
//!
//! The caller reads the clock and says how much time has passed. The pacer
//! says how many ticks are due and keeps the rest for the next call, so that
//! no time is lost and none is counted twice.

use vstd::prelude::*;

verus! {

/// Microseconds per second.
pub const MICROS_PER_SECOND: u32 = 1_000_000;

/// The rate at which a match is meant to run.
pub const TICKS_PER_SECOND: u32 = 60;

/// A pacer as the contracts see it.
pub struct PacerModel {
    /// Length of a tick, in microseconds.
    pub tick: int,
    /// Time that has passed and is not yet worth a tick.
    pub pending: int,
}

/// Turns wall-clock time into ticks of a fixed length.
#[derive(Clone, Copy, PartialEq, Eq, Debug, Structural)]
pub struct FramePacer {
    tick: u32,
    pending: u32,
}

impl View for FramePacer {
    type V = PacerModel;

    closed spec fn view(&self) -> PacerModel {
        PacerModel { tick: self.tick as int, pending: self.pending as int }
    }
}

impl FramePacer {
    /// A tick has a length, and less than a tick is pending.
    pub open spec fn wf(&self) -> bool {
        0 <= self@.pending < self@.tick <= MICROS_PER_SECOND
    }

    /// A pacer for `ticks_per_second` ticks per second with nothing pending,
    /// or nothing where the rate is zero or above one tick per microsecond.
    pub fn new(ticks_per_second: u32) -> (pacer: Option<FramePacer>)
        ensures
            pacer is Some <==> 1 <= ticks_per_second <= MICROS_PER_SECOND,
            pacer is Some ==> pacer->0.wf() && pacer->0@ == (PacerModel {
                tick: MICROS_PER_SECOND as int / ticks_per_second as int,
                pending: 0,
            }),
    {
        if ticks_per_second == 0 || ticks_per_second > MICROS_PER_SECOND {
            None
        } else {
            let tick = MICROS_PER_SECOND / ticks_per_second;
            assert(1 <= tick <= MICROS_PER_SECOND) by {
                vstd::arithmetic::div_mod::lemma_div_is_ordered_by_denominator(
                    MICROS_PER_SECOND as int,
                    1,
                    ticks_per_second as int,
                );
                vstd::arithmetic::div_mod::lemma_div_is_ordered(
                    ticks_per_second as int,
                    MICROS_PER_SECOND as int,
                    ticks_per_second as int,
                );
                vstd::arithmetic::div_mod::lemma_div_by_self(ticks_per_second as int);
            }
            Some(FramePacer { tick, pending: 0 })
        }
    }

    /// Takes note that `elapsed` microseconds have passed and says how many
    /// ticks are now due.
    pub fn elapse(&mut self, elapsed: u32) -> (due: u32)
        requires
            old(self).wf(),
        ensures
            final(self).wf(),
            final(self)@.tick == old(self)@.tick,
            due == (old(self)@.pending + elapsed) / old(self)@.tick,
            final(self)@.pending == (old(self)@.pending + elapsed) % old(self)@.tick,
            due * old(self)@.tick + final(self)@.pending == old(self)@.pending + elapsed,
    {
        let total: u64 = self.pending as u64 + elapsed as u64;
        let tick: u64 = self.tick as u64;
        let due: u64 = total / tick;
        proof {
            vstd::arithmetic::div_mod::lemma_fundamental_div_mod(total as int, tick as int);
            vstd::arithmetic::div_mod::lemma_div_is_ordered_by_denominator(
                total as int,
                1,
                tick as int,
            );
            vstd::arithmetic::mul::lemma_mul_is_commutative(tick as int, due as int);
            if tick == 1 {
                assert(self.pending == 0);
                assert(due * tick == due) by (nonlinear_arith)
                    requires
                        tick == 1,
                ;
            } else {
                assert(2 * due <= total) by (nonlinear_arith)
                    requires
                        due * tick <= total,
                        tick >= 2,
                        due >= 0,
                ;
            }
        }
        self.pending = (total % tick) as u32;
        due as u32
    }

    /// The length of a tick in thousandths of a second, rounded down: what
    /// each tick advances the match by.
    pub fn delta_time(&self) -> (delta_time: i64)
        ensures
            delta_time == self@.tick / 1_000,
    {
        (self.tick / 1_000) as i64
    }
}

} // verus!
