//! Frame timing: a clamped variable frame delta, and a fixed-timestep
//! accumulator for deterministic simulation.
use crate::clock::{
    duration_as_nanos, duration_from_nanos, duration_max_nanos, instant_now, instant_since,
    nanos_of,
};
use std::time::{Duration, Instant};
use vstd::prelude::*;

verus! {

/// Largest delta applied in a single frame, in nanoseconds (250 ms). Clamping
/// prevents the fixed-update "spiral of death" after a long stall.
pub const MAX_DELTA_NANOS: u128 = 250_000_000;

/// Upper bound on `FixedUpdate` runs per frame, a second guard against the
/// spiral of death (the first being delta clamping).
pub const MAX_FIXED_STEPS: u32 = 8;

/// How many times the frame loop runs `FixedUpdate` when `done` runs have
/// happened this frame and `acc` nanoseconds are banked in steps of `step`.
pub open spec fn fixed_runs(acc: nat, step: nat, done: nat) -> nat
    decreases MAX_FIXED_STEPS - done,
{
    if done < MAX_FIXED_STEPS && acc >= step {
        1 + fixed_runs((acc - step) as nat, step, done + 1)
    } else {
        0
    }
}

/// The smaller of `a` and `b`.
pub open spec fn min_nat(a: nat, b: nat) -> nat {
    if a < b {
        a
    } else {
        b
    }
}

/// How many times in a row `expend_fixed_step` returns true with `acc`
/// nanoseconds banked and a step of `step`: once per whole step banked.
pub open spec fn drain_count(acc: nat, step: nat) -> nat
    decreases acc,
{
    if step > 0 && acc >= step {
        1 + drain_count((acc - step) as nat, step)
    } else {
        0
    }
}

/// Default fixed timestep: 60 Hz, in whole nanoseconds.
pub const DEFAULT_FIXED_DELTA_NANOS: u128 = 16_666_666;

/// The delta a raw frame time of `raw` nanoseconds is clamped to.
pub open spec fn clamped(raw: nat) -> nat {
    if raw < MAX_DELTA_NANOS {
        raw
    } else {
        MAX_DELTA_NANOS as nat
    }
}

/// Frame timing resource, updated each frame.
pub struct Time {
    last_frame: Instant,
    delta: u128,
    elapsed: u128,
    frame_count: u64,
    fixed_delta: u128,
    accumulator: u128,
}

impl Time {
    pub closed spec fn delta_nanos(&self) -> nat {
        self.delta as nat
    }

    pub closed spec fn elapsed_nanos(&self) -> nat {
        self.elapsed as nat
    }

    pub closed spec fn frames(&self) -> nat {
        self.frame_count as nat
    }

    pub closed spec fn fixed_delta_nanos(&self) -> nat {
        self.fixed_delta as nat
    }

    pub closed spec fn accumulator_nanos(&self) -> nat {
        self.accumulator as nat
    }

    /// Every duration fits a `Duration`, the delta is clamped, and no more
    /// time is banked than has elapsed.
    #[verifier::type_invariant]
    closed spec fn wf(&self) -> bool {
        &&& self.delta_nanos() <= MAX_DELTA_NANOS
        &&& self.elapsed_nanos() <= duration_max_nanos()
        &&& self.fixed_delta_nanos() <= duration_max_nanos()
        &&& self.accumulator_nanos() <= self.elapsed_nanos()
    }

    /// Room for one more frame: the frame counter and the elapsed time can
    /// take one more (clamped) delta of `raw` nanoseconds without overflow.
    pub open spec fn can_tick(&self, raw: nat) -> bool {
        &&& self.frames() < u64::MAX
        &&& self.elapsed_nanos() + clamped(raw) <= duration_max_nanos()
    }

    /// The effect of one frame whose raw length is `raw` nanoseconds.
    pub open spec fn ticked(&self, old_time: &Time, raw: nat) -> bool {
        &&& self.delta_nanos() == clamped(raw)
        &&& self.elapsed_nanos() == old_time.elapsed_nanos() + clamped(raw)
        &&& self.frames() == old_time.frames() + 1
        &&& self.accumulator_nanos() == old_time.accumulator_nanos() + clamped(raw)
        &&& self.fixed_delta_nanos() == old_time.fixed_delta_nanos()
    }

    pub fn new() -> (t: Self)
        ensures
            t.delta_nanos() == 0,
            t.elapsed_nanos() == 0,
            t.frames() == 0,
            t.accumulator_nanos() == 0,
            t.fixed_delta_nanos() == DEFAULT_FIXED_DELTA_NANOS,
    {
        Time {
            last_frame: instant_now(),
            delta: 0,
            elapsed: 0,
            frame_count: 0,
            fixed_delta: DEFAULT_FIXED_DELTA_NANOS,
            accumulator: 0,
        }
    }

    /// Advance using the wall clock. Whatever time the clock reports since the
    /// previous frame, the frame counts once and at most 250 ms is applied.
    pub fn update(&mut self)
        requires
            old(self).can_tick(MAX_DELTA_NANOS as nat),
        ensures
            exists|raw: nat| final(self).ticked(old(self), raw),
            final(self).delta_nanos() <= MAX_DELTA_NANOS,
            final(self).frames() == old(self).frames() + 1,
    {
        proof {
            use_type_invariant(&*self);
        }
        let now = instant_now();
        let raw = instant_since(&now, &self.last_frame);
        self.last_frame = now;
        let n = duration_as_nanos(&raw);
        self.tick(n);
        proof {
            assert(self.ticked(old(self), n as nat));
        }
    }

    /// Advance the clock manually by `delta`, bypassing the wall clock.
    pub fn advance(&mut self, delta: Duration)
        requires
            old(self).can_tick(nanos_of(delta)),
        ensures
            final(self).ticked(old(self), nanos_of(delta)),
    {
        proof {
            use_type_invariant(&*self);
        }
        self.last_frame = instant_now();
        let n = duration_as_nanos(&delta);
        self.tick(n);
    }

    fn tick(&mut self, raw_delta: u128)
        requires
            old(self).can_tick(raw_delta as nat),
        ensures
            final(self).ticked(old(self), raw_delta as nat),
    {
        proof {
            use_type_invariant(&*self);
        }
        self.delta = if raw_delta < MAX_DELTA_NANOS {
            raw_delta
        } else {
            MAX_DELTA_NANOS
        };
        self.elapsed = self.elapsed + self.delta;
        self.frame_count = self.frame_count + 1;
        self.accumulator = self.accumulator + self.delta;
    }

    /// Consume one fixed step from the accumulator if enough time has built up.
    /// Returns `true` if a fixed step should run.
    pub fn expend_fixed_step(&mut self) -> (run: bool)
        ensures
            run == (old(self).accumulator_nanos() >= old(self).fixed_delta_nanos()),
            run ==> final(self).accumulator_nanos() == old(self).accumulator_nanos()
                - old(self).fixed_delta_nanos(),
            !run ==> final(self).accumulator_nanos() == old(self).accumulator_nanos(),
            old(self).fixed_delta_nanos() > 0 ==> (run <==> drain_count(
                old(self).accumulator_nanos(),
                old(self).fixed_delta_nanos(),
            ) > 0),
            run && old(self).fixed_delta_nanos() > 0 ==> drain_count(
                final(self).accumulator_nanos(),
                final(self).fixed_delta_nanos(),
            ) + 1 == drain_count(old(self).accumulator_nanos(), old(self).fixed_delta_nanos()),
            final(self).delta_nanos() == old(self).delta_nanos(),
            final(self).elapsed_nanos() == old(self).elapsed_nanos(),
            final(self).frames() == old(self).frames(),
            final(self).fixed_delta_nanos() == old(self).fixed_delta_nanos(),
    {
        proof {
            use_type_invariant(&*self);
        }
        if self.accumulator >= self.fixed_delta {
            self.accumulator = self.accumulator - self.fixed_delta;
            true
        } else {
            false
        }
    }

    /// The frame loop's decision whether to run `FixedUpdate` once more after
    /// `steps_done` runs this frame: only below `MAX_FIXED_STEPS`, and only
    /// when a whole fixed step is banked, which it then consumes.
    pub fn next_fixed_step(&mut self, steps_done: u32) -> (run: bool)
        ensures
            run == (steps_done < MAX_FIXED_STEPS && old(self).accumulator_nanos()
                >= old(self).fixed_delta_nanos()),
            run ==> final(self).accumulator_nanos() == old(self).accumulator_nanos()
                - old(self).fixed_delta_nanos(),
            !run ==> final(self).accumulator_nanos() == old(self).accumulator_nanos(),
            final(self).delta_nanos() == old(self).delta_nanos(),
            final(self).elapsed_nanos() == old(self).elapsed_nanos(),
            final(self).frames() == old(self).frames(),
            final(self).fixed_delta_nanos() == old(self).fixed_delta_nanos(),
    {
        if steps_done < MAX_FIXED_STEPS {
            self.expend_fixed_step()
        } else {
            false
        }
    }

    /// Set the fixed timestep.
    pub fn set_fixed_delta(&mut self, fixed_delta: Duration)
        ensures
            final(self).fixed_delta_nanos() == nanos_of(fixed_delta),
            final(self).delta_nanos() == old(self).delta_nanos(),
            final(self).elapsed_nanos() == old(self).elapsed_nanos(),
            final(self).frames() == old(self).frames(),
            final(self).accumulator_nanos() == old(self).accumulator_nanos(),
    {
        proof {
            use_type_invariant(&*self);
        }
        self.fixed_delta = duration_as_nanos(&fixed_delta);
    }

    /// Variable frame delta.
    pub fn delta(&self) -> (d: Duration)
        ensures
            nanos_of(d) == self.delta_nanos(),
    {
        proof {
            use_type_invariant(&*self);
        }
        duration_from_nanos(self.delta)
    }

    /// The fixed timestep, for `FixedUpdate` systems.
    pub fn fixed_delta(&self) -> (d: Duration)
        ensures
            nanos_of(d) == self.fixed_delta_nanos(),
    {
        proof {
            use_type_invariant(&*self);
        }
        duration_from_nanos(self.fixed_delta)
    }

    /// Time banked toward fixed steps.
    pub fn accumulated(&self) -> (d: Duration)
        ensures
            nanos_of(d) == self.accumulator_nanos(),
    {
        proof {
            use_type_invariant(&*self);
        }
        duration_from_nanos(self.accumulator)
    }

    pub fn elapsed(&self) -> (d: Duration)
        ensures
            nanos_of(d) == self.elapsed_nanos(),
    {
        proof {
            use_type_invariant(&*self);
        }
        duration_from_nanos(self.elapsed)
    }

    pub fn frame_count(&self) -> (n: u64)
        ensures
            n == self.frames(),
    {
        self.frame_count
    }

    /// Fixed steps drain the accumulator: with a nonzero step, one successful
    /// `expend_fixed_step` lowers the number of whole steps left by one and
    /// keeps the remainder, so the steps run from `acc` are `acc / step` and
    /// `acc % step` is left over.
    pub proof fn lemma_fixed_steps_drain(acc: nat, step: nat)
        requires
            step > 0,
            acc >= step,
        ensures
            ((acc - step) as nat) / step == acc / step - 1,
            ((acc - step) as nat) % step == acc % step,
    {
        vstd::arithmetic::div_mod::lemma_fundamental_div_mod(acc as int, step as int);
        vstd::arithmetic::div_mod::lemma_fundamental_div_mod((acc - step) as int, step as int);
        vstd::arithmetic::div_mod::lemma_sub_mod_noop_right(acc as int, step as int, step as int);
        vstd::arithmetic::div_mod::lemma_mod_self_0(step as int);
        assert(((acc - step) as nat) % step == acc % step);
        vstd::arithmetic::div_mod::lemma_div_plus_one(((acc - step) as nat) as int, step as int);
    }

    /// Draining the accumulator with `expend_fixed_step` succeeds once per
    /// whole step banked: `acc / step` times in a row.
    pub proof fn lemma_drain_count(acc: nat, step: nat)
        requires
            step > 0,
        ensures
            drain_count(acc, step) == acc / step,
        decreases acc,
    {
        if acc >= step {
            Time::lemma_fixed_steps_drain(acc, step);
            Time::lemma_drain_count((acc - step) as nat, step);
        } else {
            vstd::arithmetic::div_mod::lemma_basic_div(acc as int, step as int);
        }
    }

    /// After the first frame: a new `Time` (nothing banked) advanced once by a
    /// raw delta of `raw` nanoseconds drains `min(raw, 250 ms) / step` fixed
    /// steps, and no more.
    pub proof fn lemma_drain_after_first_frame(t0: Time, t1: Time, raw: nat)
        requires
            t0.accumulator_nanos() == 0,
            t0.fixed_delta_nanos() > 0,
            t1.ticked(&t0, raw),
        ensures
            drain_count(t1.accumulator_nanos(), t1.fixed_delta_nanos()) == clamped(raw)
                / t0.fixed_delta_nanos(),
    {
        Time::lemma_drain_count(t1.accumulator_nanos(), t1.fixed_delta_nanos());
    }

    /// Fixed updates per frame are capped: starting from `done` runs with
    /// `acc` banked, the frame loop runs `FixedUpdate` once per whole step
    /// banked, but no more than the runs left under `MAX_FIXED_STEPS`.
    pub proof fn lemma_fixed_runs_capped(acc: nat, step: nat, done: nat)
        requires
            step > 0,
            done <= MAX_FIXED_STEPS,
        ensures
            fixed_runs(acc, step, done) == min_nat(acc / step, (MAX_FIXED_STEPS - done) as nat),
        decreases MAX_FIXED_STEPS - done,
    {
        if done < MAX_FIXED_STEPS && acc >= step {
            Time::lemma_fixed_steps_drain(acc, step);
            Time::lemma_fixed_runs_capped((acc - step) as nat, step, done + 1);
        } else if acc < step {
            vstd::arithmetic::div_mod::lemma_basic_div(acc as int, step as int);
        }
    }
}

} // verus!
