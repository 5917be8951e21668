//! Generic three-phase ordering for one-time setup systems:
//! `PreSetup` → `Setup` → `PostSetup`.

use vstd::prelude::*;

verus! {

/// Execution phase during one-time setup, before the run loop begins.
#[derive(Debug, Clone, Copy, PartialEq, Eq, Structural)]
pub enum ScheduleSetupSet {
    /// Runs before the main setup phase (early resource initialization).
    PreSetup,
    /// Main setup phase.
    Setup,
    /// Runs after setup (initial force computation, diagnostics).
    PostSetup,
}

/// The schedule position of a setup phase.
pub open spec fn setup_set_index(s: ScheduleSetupSet) -> u32 {
    match s {
        ScheduleSetupSet::PreSetup => 0,
        ScheduleSetupSet::Setup => 1,
        ScheduleSetupSet::PostSetup => 2,
    }
}

/// The name of a setup phase.
pub open spec fn setup_set_name(s: ScheduleSetupSet) -> Seq<char> {
    match s {
        ScheduleSetupSet::PreSetup => "PreSetup"@,
        ScheduleSetupSet::Setup => "Setup"@,
        ScheduleSetupSet::PostSetup => "PostSetup"@,
    }
}

impl ScheduleSetupSet {
    /// Position of this phase in the schedule.
    pub fn to_index(&self) -> (i: u32)
        ensures
            i == setup_set_index(*self),
    {
        match self {
            ScheduleSetupSet::PreSetup => 0,
            ScheduleSetupSet::Setup => 1,
            ScheduleSetupSet::PostSetup => 2,
        }
    }

    /// Stable name of this phase.
    pub fn name(&self) -> (s: &'static str)
        ensures
            s@ == setup_set_name(*self),
    {
        match self {
            ScheduleSetupSet::PreSetup => "PreSetup",
            ScheduleSetupSet::Setup => "Setup",
            ScheduleSetupSet::PostSetup => "PostSetup",
        }
    }
}

} // verus!
