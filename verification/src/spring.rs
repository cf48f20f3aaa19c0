//! The time steps of the spring integrator.
//!
//! The spring that animates the gesture strip is integrated in steps of at
//! most a sixtieth of a second, and never over more than one second at a
//! time, however long the last frame took. The integration itself is
//! arithmetic on real numbers and is the embedding's; how the elapsed time
//! is cut into steps is decided here, in whole numbers.
//!
//! A sixtieth of a second is no whole number of nanoseconds. Time is
//! therefore counted in ticks of a sixtieth of a nanosecond, in which both a
//! nanosecond and a full step are whole.

use vstd::prelude::*;

verus! {

/// The ticks in a nanosecond.
pub const TICKS_PER_NANO: u64 = 60;

/// The ticks in a full step, a sixtieth of a second.
pub const TICKS_PER_STEP: u64 = 1_000_000_000;

/// The longest time one update integrates over: one second, in
/// nanoseconds.
pub const MAX_UPDATE_NANOS: u64 = 1_000_000_000;

/// How one update is cut into steps: `full_steps` steps of a sixtieth of a
/// second, then, if `last_step` is not zero, one step of `last_step` ticks.
#[derive(Clone, Copy, Debug, PartialEq, Eq, Structural)]
pub struct StepPlan {
    pub full_steps: u32,
    pub last_step: u32,
}

/// The time an update integrates over, in nanoseconds: the elapsed time,
/// but one second at most.
pub open spec fn clamped(elapsed_nanos: u64) -> int {
    if elapsed_nanos > MAX_UPDATE_NANOS {
        MAX_UPDATE_NANOS as int
    } else {
        elapsed_nanos as int
    }
}

impl StepPlan {
    /// The time the plan covers, in ticks.
    pub open spec fn ticks(self) -> int {
        self.full_steps * TICKS_PER_STEP + self.last_step
    }

    /// The number of steps: the time in sixtieths of a second, rounded up.
    pub open spec fn count(self) -> int {
        if self.last_step > 0 {
            self.full_steps + 1
        } else {
            self.full_steps as int
        }
    }

    /// Cuts the time since the last update into steps.
    ///
    /// The steps cover the elapsed time exactly, or one second if more has
    /// elapsed. All but the last are full steps, and the last is shorter
    /// than a full step.
    pub fn for_elapsed(elapsed_nanos: u64) -> (plan: StepPlan)
        ensures
            plan.ticks() == clamped(elapsed_nanos) * TICKS_PER_NANO,
            plan.last_step < TICKS_PER_STEP,
            plan.full_steps <= 60,
            plan.full_steps == clamped(elapsed_nanos) * TICKS_PER_NANO / (TICKS_PER_STEP as int),
            plan.last_step == clamped(elapsed_nanos) * TICKS_PER_NANO % (TICKS_PER_STEP as int),
    {
        let nanos: u64 = if elapsed_nanos > MAX_UPDATE_NANOS {
            MAX_UPDATE_NANOS
        } else {
            elapsed_nanos
        };
        let ticks: u64 = nanos * TICKS_PER_NANO;
        StepPlan {
            full_steps: (ticks / TICKS_PER_STEP) as u32,
            last_step: (ticks % TICKS_PER_STEP) as u32,
        }
    }

    /// The number of steps to take.
    pub fn steps(&self) -> (count: u64)
        ensures
            count == self.count(),
    {
        if self.last_step > 0 {
            self.full_steps as u64 + 1
        } else {
            self.full_steps as u64
        }
    }

    /// The length of the step at `index`, in ticks; zero past the last
    /// step.
    pub fn step_ticks(&self, index: u32) -> (ticks: u64)
        ensures
            ticks == (if index < self.full_steps {
                TICKS_PER_STEP
            } else if index == self.full_steps {
                self.last_step as u64
            } else {
                0
            }),
    {
        if index < self.full_steps {
            TICKS_PER_STEP
        } else if index == self.full_steps {
            self.last_step as u64
        } else {
            0
        }
    }
}

/// The steps of a plan are as many as the elapsed time in sixtieths of a
/// second, rounded up, and no more than 60. An update over no time takes no
/// step, and one over no more than a sixtieth of a second takes one at
/// most.
pub proof fn steps_round_up(elapsed_nanos: u64, plan: StepPlan)
    requires
        plan.ticks() == clamped(elapsed_nanos) * TICKS_PER_NANO,
        plan.last_step < TICKS_PER_STEP,
    ensures
        (plan.count() - 1) * TICKS_PER_STEP < clamped(elapsed_nanos) * TICKS_PER_NANO
            <= plan.count() * TICKS_PER_STEP,
        plan.count() <= 60,
        elapsed_nanos == 0 <==> plan.count() == 0,
        elapsed_nanos * TICKS_PER_NANO <= TICKS_PER_STEP ==> plan.count() <= 1,
{
}

} // verus!
