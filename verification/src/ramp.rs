//! The per-device brightness ramp: a small state machine that steps a
//! current value toward a target value, one tick at a time.
//!
//! The transition rule is asymmetric by design: ramping down to zero moves in
//! fixed decrements of the step size, while ramping to any non-zero target
//! jumps straight to the target on the next tick. The sequence of values an
//! engine writes is pinned down by the spec function [`ramp_seq`], and every
//! law below is stated over it.

use vstd::prelude::*;
use crate::brightness::Brightness;

verus! {

/// The fixed amount a decreasing ramp moves per tick.
pub const STEP_SIZE: u64 = 4;

/// The fixed delay between ticks, in milliseconds.
pub const TICK_MILLIS: u64 = 10;

/// The value the next tick writes when `current` has not yet reached `target`.
///
/// Toward zero the value drops by `step`, clamped at zero; toward any
/// non-zero target the value becomes the target at once.
pub open spec fn next_value(current: u64, target: u64, step: u64) -> u64 {
    if target == 0 {
        if current < step {
            0
        } else {
            (current - step) as u64
        }
    } else {
        target
    }
}

/// A termination measure for the ramp: ticks left until convergence.
pub open spec fn ramp_rank(current: u64, target: u64) -> int {
    if current == target {
        0
    } else if target == 0 {
        current + 1
    } else {
        1
    }
}

/// The exact sequence of values an engine writes, in order, from `current`
/// until it converges on `target`. Empty when already converged.
pub open spec fn ramp_seq(current: u64, target: u64, step: u64) -> Seq<u64>
    decreases ramp_rank(current, target),
    when step >= 1
{
    if current == target {
        Seq::empty()
    } else {
        seq![next_value(current, target, step)] + ramp_seq(
            next_value(current, target, step),
            target,
            step,
        )
    }
}

/// The ramp state owned by one engine instance: current value, target value,
/// step size and tick interval.
pub struct RampEngine {
    pub current: u64,
    pub target: u64,
    pub step: u64,
    pub tick_millis: u64,
}

impl RampEngine {
    /// A usable engine steps by at least one unit, so a decreasing ramp
    /// always makes progress.
    pub open spec fn wf(&self) -> bool {
        self.step >= 1
    }

    /// The engine has reached its terminal state.
    pub open spec fn converged(&self) -> bool {
        self.current == self.target
    }

    /// The values this engine has still to write.
    pub open spec fn pending(&self) -> Seq<u64> {
        ramp_seq(self.current, self.target, self.step)
    }

    /// Creates an engine for one device, starting from the device's live
    /// brightness and bound for the computed target.
    pub fn new(start: Brightness, target: Brightness, step: u64, tick_millis: u64) -> (r:
        RampEngine)
        requires
            step >= 1,
        ensures
            r.wf(),
            r.current == start.0,
            r.target == target.0,
            r.step == step,
            r.tick_millis == tick_millis,
    {
        RampEngine { current: start.0, target: target.0, step, tick_millis }
    }

    /// The engine has nothing left to write.
    pub fn is_converged(&self) -> (r: bool)
        ensures
            r == self.converged(),
    {
        self.current == self.target
    }

    /// One evaluation of the transition rule: the value to write this tick,
    /// or `None` when the engine has converged and must stop.
    pub fn tick(&mut self) -> (r: Option<u64>)
        requires
            old(self).wf(),
        ensures
            final(self).wf(),
            final(self).target == old(self).target,
            final(self).step == old(self).step,
            final(self).tick_millis == old(self).tick_millis,
            old(self).converged() ==> r is None && final(self).current == old(self).current,
            !old(self).converged() ==> {
                &&& final(self).current == next_value(
                    old(self).current,
                    old(self).target,
                    old(self).step,
                )
                &&& r == Some(final(self).current)
            },
            old(self).pending() == (if old(self).converged() {
                Seq::<u64>::empty()
            } else {
                seq![final(self).current] + final(self).pending()
            }),
    {
        if self.current == self.target {
            return None;
        }
        if self.target == 0 {
            if self.current < self.step {
                self.current = 0;
            } else {
                self.current = self.current - self.step;
            }
        } else {
            self.current = self.target;
        }
        Some(self.current)
    }

    /// Runs the engine to convergence in memory and returns every value it
    /// writes, in order.
    pub fn drain(&mut self) -> (r: Vec<u64>)
        requires
            old(self).wf(),
        ensures
            final(self).wf(),
            final(self).converged(),
            final(self).target == old(self).target,
            final(self).step == old(self).step,
            final(self).tick_millis == old(self).tick_millis,
            r@ == old(self).pending(),
    {
        let mut out: Vec<u64> = Vec::new();
        let ghost orig = *self;
        loop
            invariant
                self.wf(),
                self.target == orig.target,
                self.step == orig.step,
                self.tick_millis == orig.tick_millis,
                orig.pending() == out@ + self.pending(),
            ensures
                self.wf(),
                self.converged(),
                self.target == orig.target,
                self.step == orig.step,
                self.tick_millis == orig.tick_millis,
                orig.pending() == out@ + self.pending(),
            decreases ramp_rank(self.current, self.target),
        {
            let ghost before = *self;
            match self.tick() {
                Some(v) => {
                    out.push(v);
                    proof {
                        assert(out@ + self.pending() =~= out@.drop_last() + (seq![v]
                            + self.pending()));
                    }
                },
                None => {
                    break;
                },
            }
        }
        proof {
            assert(orig.pending() =~= out@ + self.pending());
            assert(self.pending() =~= Seq::<u64>::empty());
            assert(orig.pending() =~= out@);
        }
        out
    }
}

/// Law: an engine whose starting value already equals its target performs
/// no writes at all.
pub proof fn lemma_converged_no_writes(start: u64, target: u64, step: u64)
    requires
        step >= 1,
        start == target,
    ensures
        ramp_seq(start, target, step) == Seq::<u64>::empty(),
{
}

/// Law: an engine that is not yet converged writes at least once, its last
/// write is exactly its target, and no write follows convergence (the
/// sequence ends there).
pub proof fn lemma_ramp_converges(start: u64, target: u64, step: u64)
    requires
        step >= 1,
        start != target,
    ensures
        ramp_seq(start, target, step).len() >= 1,
        ramp_seq(start, target, step).last() == target,
    decreases ramp_rank(start, target),
{
    let next = next_value(start, target, step);
    let s = ramp_seq(start, target, step);
    if next != target {
        lemma_ramp_converges(next, target, step);
        let rest = ramp_seq(next, target, step);
        assert(s.len() == 1 + rest.len());
        assert(s.last() == rest[rest.len() - 1]);
    } else {
        assert(ramp_seq(next, target, step) =~= Seq::<u64>::empty());
        assert(s =~= seq![next]);
    }
}

/// Law: a ramp toward a non-zero target does not step gradually: it is a
/// single immediate jump, one write of the target itself. Only ramps to
/// zero move in step-size decrements.
pub proof fn lemma_nonzero_target_single_jump(start: u64, target: u64, step: u64)
    requires
        step >= 1,
        target != 0,
        start != target,
    ensures
        ramp_seq(start, target, step) == seq![target],
{
    assert(ramp_seq(target, target, step) =~= Seq::<u64>::empty());
    assert(ramp_seq(start, target, step) =~= seq![target]);
}

/// Law: no written value ever exceeds a bound that both the starting value
/// and the target respect. In particular, when start and target lie at or
/// below the device maximum, every write does too.
pub proof fn lemma_ramp_bounded(start: u64, target: u64, step: u64, max: u64)
    requires
        step >= 1,
        start <= max,
        target <= max,
    ensures
        forall|i: int|
            0 <= i < ramp_seq(start, target, step).len() ==> #[trigger] ramp_seq(
                start,
                target,
                step,
            )[i] <= max,
    decreases ramp_rank(start, target),
{
    if start != target {
        let next = next_value(start, target, step);
        lemma_ramp_bounded(next, target, step, max);
        assert forall|i: int| 0 <= i < ramp_seq(start, target, step).len() implies #[trigger] ramp_seq(
            start,
            target,
            step,
        )[i] <= max by {
            if i > 0 {
                assert(ramp_seq(start, target, step)[i] == ramp_seq(next, target, step)[i - 1]);
            }
        }
    }
}

/// Law: a ramp toward zero is strictly decreasing: every written value is
/// below the value written before it, and below the starting value.
pub proof fn lemma_dim_strictly_decreasing(start: u64, step: u64)
    requires
        step >= 1,
    ensures
        ramp_seq(start, 0, step).len() > 0 ==> ramp_seq(start, 0, step)[0] < start,
        forall|i: int|
            0 <= i < ramp_seq(start, 0, step).len() - 1 ==> #[trigger] ramp_seq(start, 0, step)[i
                + 1] < ramp_seq(start, 0, step)[i],
    decreases ramp_rank(start, 0),
{
    if start != 0 {
        let next = next_value(start, 0, step);
        lemma_dim_strictly_decreasing(next, step);
        let s = ramp_seq(start, 0, step);
        let rest = ramp_seq(next, 0, step);
        assert(s.len() == 1 + rest.len());
        assert forall|i: int| 0 <= i < s.len() - 1 implies #[trigger] s[i + 1] < s[i] by {
            if i == 0 {
                assert(rest.len() > 0);
                assert(s[1] == rest[0]);
                assert(rest[0] < next);
            } else {
                assert(s[i] == rest[i - 1]);
                assert(s[i + 1] == rest[i]);
                assert(rest[(i - 1) + 1] < rest[i - 1]);
            }
        }
    }
}

/// Law: devices are independent. A device's written sequence is a function
/// of its own start and target alone — the spec function `ramp_seq` takes
/// nothing else — so two engines converge each to its own target whatever
/// the other's pair is.
pub proof fn lemma_independent_convergence(s1: u64, t1: u64, s2: u64, t2: u64, step: u64)
    requires
        step >= 1,
    ensures
        s1 != t1 ==> ramp_seq(s1, t1, step).last() == t1,
        s2 != t2 ==> ramp_seq(s2, t2, step).last() == t2,
        s1 == t1 ==> ramp_seq(s1, t1, step) == Seq::<u64>::empty(),
        s2 == t2 ==> ramp_seq(s2, t2, step) == Seq::<u64>::empty(),
{
    if s1 != t1 {
        lemma_ramp_converges(s1, t1, step);
    }
    if s2 != t2 {
        lemma_ramp_converges(s2, t2, step);
    }
}

/// The full sequence of values a fresh engine writes for the pair
/// `(start, target)`: the ramp simulated without any device.
pub fn ramp_writes(start: Brightness, target: Brightness, step: u64) -> (r: Vec<u64>)
    requires
        step >= 1,
    ensures
        r@ == ramp_seq(start.0, target.0, step),
{
    let mut engine = RampEngine::new(start, target, step, TICK_MILLIS);
    engine.drain()
}

} // verus!
