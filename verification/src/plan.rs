//! The application task's fixed periodic plan.
//!
//! The application is deliberately simple — it exists as the scheduler's
//! client. After bring-up it configures power saving once, then alternates
//! forever between driving companion-chip pin 0 high and low, with a
//! one-unit timed wait after each drive. The plan is a pure function of the
//! task's step counter, so the caller's loop body reduces to "do what step
//! `k` says, then wait where told".

use vstd::prelude::*;
use crate::link::PowerMode;

verus! {

/// What the application task does at one step of its loop.
#[derive(Clone, Copy, PartialEq, Eq, Structural, Debug)]
pub enum AppAction {
    /// Submit "switch to this power mode" through the facade.
    Configure { mode: PowerMode },
    /// Submit "drive this pin to this level" through the facade and await
    /// the acknowledgment before moving on.
    Drive { index: u8, level: bool },
    /// Suspend on the timer for this many time units.
    Pause { units: u64 },
}

/// The fixed plan: power saving once, then drive-high, wait, drive-low,
/// wait, forever.
pub open spec fn plan_spec(step: u64) -> AppAction {
    if step == 0 {
        AppAction::Configure { mode: PowerMode::PowerSave }
    } else if (step - 1) % 4 == 0 {
        AppAction::Drive { index: 0, level: true }
    } else if (step - 1) % 4 == 2 {
        AppAction::Drive { index: 0, level: false }
    } else {
        AppAction::Pause { units: 1 }
    }
}

/// The action the application task takes at step `step` of its loop.
pub fn next_action(step: u64) -> (a: AppAction)
    ensures
        a == plan_spec(step),
{
    if step == 0 {
        AppAction::Configure { mode: PowerMode::PowerSave }
    } else {
        let phase = (step - 1) % 4;
        if phase == 0 {
            AppAction::Drive { index: 0, level: true }
        } else if phase == 2 {
            AppAction::Drive { index: 0, level: false }
        } else {
            AppAction::Pause { units: 1 }
        }
    }
}

/// Each drive is followed by a one-unit pause and, two steps later, the
/// opposite drive of the same pin: the plan never drives the same level
/// twice in a row and never drives without pausing in between.
pub proof fn lemma_plan_alternates(step: u64)
    requires
        step >= 1,
        (step - 1) % 4 == 0 || (step - 1) % 4 == 2,
        step + 2 <= u64::MAX,
    ensures
        plan_spec((step + 1) as u64) == (AppAction::Pause { units: 1 }),
        (plan_spec(step) matches AppAction::Drive { index, level }
            ==> plan_spec((step + 2) as u64) == (AppAction::Drive { index, level: !level })),
{
    assert((step + 2 - 1) % 4 == ((step - 1) % 4 + 2) % 4) by (nonlinear_arith);
    assert((step + 1 - 1) % 4 == ((step - 1) % 4 + 1) % 4) by (nonlinear_arith);
}

} // verus!
