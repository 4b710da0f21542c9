//! Frame pacing with thermal awareness.
use crate::clock::{duration_as_nanos, duration_from_nanos, instant_elapsed, instant_now, nanos_of};
use std::time::{Duration, Instant};
use vstd::prelude::*;

verus! {

/// Device thermal pressure. Higher pressure lowers the recommended frame rate.
#[derive(Debug, Clone, Copy, PartialEq, Eq, Structural)]
pub enum ThermalState {
    Nominal,
    Fair,
    Serious,
    Critical,
}

impl ThermalState {
    pub open spec fn spec_recommended_fps(self) -> u32 {
        match self {
            ThermalState::Nominal => 60,
            ThermalState::Fair => 45,
            ThermalState::Serious => 30,
            ThermalState::Critical => 20,
        }
    }

    /// How hot the device runs, from 0 (nominal) to 3 (critical).
    pub open spec fn pressure(self) -> int {
        match self {
            ThermalState::Nominal => 0,
            ThermalState::Fair => 1,
            ThermalState::Serious => 2,
            ThermalState::Critical => 3,
        }
    }

    /// Recommended target frame rate for this thermal state.
    pub fn recommended_fps(self) -> (fps: u32)
        ensures
            fps == self.spec_recommended_fps(),
    {
        match self {
            ThermalState::Nominal => 60,
            ThermalState::Fair => 45,
            ThermalState::Serious => 30,
            ThermalState::Critical => 20,
        }
    }

    /// Higher thermal pressure never raises the recommended frame rate.
    pub proof fn lemma_pressure_lowers_fps(a: ThermalState, b: ThermalState)
        requires
            a.pressure() <= b.pressure(),
        ensures
            b.spec_recommended_fps() <= a.spec_recommended_fps(),
            a.pressure() < b.pressure() ==> b.spec_recommended_fps() < a.spec_recommended_fps(),
    {
    }
}

/// The frame budget for a rate of `fps` frames per second: one second over
/// `fps`, rounded to the nearest nanosecond (a half rounds up).
pub open spec fn budget_for(fps: u32) -> nat {
    (1_000_000_000nat + (fps as nat) / 2) / (fps as nat)
}

/// The budget of one second over `fps` frames, in nanoseconds.
fn budget_nanos_for(fps: u32) -> (b: u128)
    requires
        fps >= 1,
    ensures
        b == budget_for(fps),
        b <= 1_000_000_000,
{
    let f = fps as u128;
    let b = (1_000_000_000u128 + f / 2) / f;
    proof {
        let n: int = 1_000_000_000int + (f as int) / 2;
        assert(n <= 1_000_000_000int * (f as int)) by (nonlinear_arith)
            requires
                f >= 1,
                n == 1_000_000_000int + (f as int) / 2,
        ;
        vstd::arithmetic::div_mod::lemma_div_is_ordered(n, 1_000_000_000int * (f as int), f as int);
        vstd::arithmetic::div_mod::lemma_div_multiples_vanish(1_000_000_000int, f as int);
    }
    b
}

/// What is left of `budget` after `spent`, or zero.
pub open spec fn saturating_gap(budget: nat, spent: nat) -> nat {
    if spent < budget {
        (budget - spent) as nat
    } else {
        0
    }
}

/// Adaptive frame pacing for consistent frame times, with thermal awareness.
pub struct FramePacer {
    target_fps: u32,
    frame_budget: u128,
    last_frame_start: Instant,
    thermal_state: ThermalState,
}

impl FramePacer {
    pub closed spec fn spec_target_fps(&self) -> u32 {
        self.target_fps
    }

    pub closed spec fn budget_nanos(&self) -> nat {
        self.frame_budget as nat
    }

    pub closed spec fn spec_thermal_state(&self) -> ThermalState {
        self.thermal_state
    }

    /// The budget is one second over the target rate.
    #[verifier::type_invariant]
    closed spec fn wf(&self) -> bool {
        &&& self.spec_target_fps() >= 1
        &&& self.budget_nanos() == budget_for(self.spec_target_fps())
        &&& self.budget_nanos() <= 1_000_000_000
    }

    pub fn new(target_fps: u32) -> (p: Self)
        requires
            target_fps >= 1,
        ensures
            p.budget_nanos() == budget_for(target_fps),
            p.spec_target_fps() == target_fps,
            p.spec_thermal_state() == ThermalState::Nominal,
    {
        FramePacer {
            target_fps,
            frame_budget: budget_nanos_for(target_fps),
            last_frame_start: instant_now(),
            thermal_state: ThermalState::Nominal,
        }
    }

    /// Call at the start of each frame.
    pub fn begin_frame(&mut self)
        ensures
            final(self).spec_target_fps() == old(self).spec_target_fps(),
            final(self).budget_nanos() == old(self).budget_nanos(),
            final(self).spec_thermal_state() == old(self).spec_thermal_state(),
    {
        proof {
            use_type_invariant(&*self);
        }
        self.last_frame_start = instant_now();
    }

    /// How long to wait before the next frame when `spent` has passed since
    /// the frame began: the budget less `spent`, or zero once the budget is
    /// used up.
    pub fn wait_for(&self, spent: Duration) -> (wait: Duration)
        ensures
            nanos_of(wait) == saturating_gap(self.budget_nanos(), nanos_of(spent)),
    {
        proof {
            use_type_invariant(self);
        }
        let spent = duration_as_nanos(&spent);
        let wait = if spent < self.frame_budget {
            self.frame_budget - spent
        } else {
            0
        };
        duration_from_nanos(wait)
    }

    /// Call at the end of each frame. Returns how long until the next frame
    /// should start: the budget less the time since `begin_frame`, or zero.
    pub fn end_frame(&self) -> (wait: Duration)
        ensures
            nanos_of(wait) <= self.budget_nanos(),
            exists|spent: nat| nanos_of(wait) == #[trigger] saturating_gap(self.budget_nanos(), spent),
    {
        let spent = instant_elapsed(&self.last_frame_start);
        self.wait_for(spent)
    }

    pub fn target_fps(&self) -> (fps: u32)
        ensures
            fps == self.spec_target_fps(),
    {
        self.target_fps
    }

    /// Set the target rate, at least one frame per second.
    pub fn set_target_fps(&mut self, fps: u32)
        ensures
            final(self).budget_nanos() == budget_for(final(self).spec_target_fps()),
            final(self).spec_target_fps() == if fps >= 1 {
                fps
            } else {
                1
            },
            final(self).spec_thermal_state() == old(self).spec_thermal_state(),
    {
        let target_fps = if fps >= 1 {
            fps
        } else {
            1
        };
        *self = FramePacer {
            target_fps,
            frame_budget: budget_nanos_for(target_fps),
            last_frame_start: self.last_frame_start,
            thermal_state: self.thermal_state,
        };
    }

    pub fn thermal_state(&self) -> (s: ThermalState)
        ensures
            s == self.spec_thermal_state(),
    {
        self.thermal_state
    }

    /// Update thermal pressure and adapt the target frame rate accordingly.
    pub fn set_thermal_state(&mut self, state: ThermalState)
        ensures
            final(self).budget_nanos() == budget_for(state.spec_recommended_fps()),
            final(self).spec_thermal_state() == state,
            final(self).spec_target_fps() == state.spec_recommended_fps(),
    {
        proof {
            use_type_invariant(&*self);
        }
        self.thermal_state = state;
        self.set_target_fps(state.recommended_fps());
    }
}

} // verus!
