//! A physics subsystem driven by a parent orchestrator, and the outcome of
//! one of its steps.

use vstd::prelude::*;

verus! {

/// Outcome of one step of a physics subsystem.
#[derive(Debug, Clone, Copy, PartialEq, Eq, Structural)]
pub struct StepResult {
    /// Whether this substep finished a full timestep. Every step reports
    /// `true` today; nothing reads the field yet.
    pub completed_full_step: bool,
}

impl Default for StepResult {
    fn default() -> (r: Self)
        ensures
            r.completed_full_step,
    {
        StepResult { completed_full_step: true }
    }
}

/// A subsystem (a sub-App, a remote peer mirror, ...) that a parent drives
/// through its lifecycle: `prepare` once, `step` repeatedly, `cleanup` at
/// the end. Implemented by the users of the library.
pub trait Physics {
    /// Stable identifier (e.g. `"cfd"`, `"dem"`) used for lookups.
    fn name(&self) -> &str;

    /// One-shot setup before the first step.
    fn prepare(&mut self);

    /// Advance one internal substep.
    fn step(&mut self) -> StepResult;

    /// Whether this subsystem has signalled that it is done.
    fn is_done(&self) -> bool;

    /// Run the subsystem's cleanup hooks.
    fn cleanup(&mut self);
}

/// A boxed subsystem drives like the subsystem inside.
impl<T: Physics + ?Sized> Physics for Box<T> {
    fn name(&self) -> &str {
        (**self).name()
    }

    fn prepare(&mut self) {
        (**self).prepare()
    }

    fn step(&mut self) -> StepResult {
        (**self).step()
    }

    fn is_done(&self) -> bool {
        (**self).is_done()
    }

    fn cleanup(&mut self) {
        (**self).cleanup()
    }
}

} // verus!
