//! Outer-iteration termination: count loop iterations and stop once the
//! configured target is reached.

use vstd::prelude::*;

verus! {

/// Number of outer iterations counted so far.
#[derive(Debug, Default)]
pub struct OuterIter(pub u32);

/// Target iteration count: the run ends once [`OuterIter`] reaches it.
#[derive(Debug, Clone, Copy)]
pub struct NIters(pub u32);

/// Count one outer iteration; the result says whether the run ends now.
pub fn check_done_outer_iter(iter: &mut OuterIter, n: NIters) -> (end: bool)
    requires
        old(iter).0 < u32::MAX,
    ensures
        final(iter).0 == old(iter).0 + 1,
        end == (final(iter).0 >= n.0),
{
    iter.0 = iter.0 + 1;
    iter.0 >= n.0
}

/// Whether a step-gated action fires at `step` when gated every `n` steps:
/// at every multiple of `n`, and never for `n == 0`.
pub fn every_n_steps(n: u64, step: u64) -> (fires: bool)
    ensures
        fires == (n > 0 && step % n == 0),
{
    n > 0 && step % n == 0
}

/// Starting from zero, a run limited to `n > 0` iterations ends exactly at
/// its `n`-th iteration.
pub proof fn law_run_ends_at_its_target(count: u32, n: u32)
    requires
        count < n,
    ensures
        (count + 1 >= n) <==> (count + 1 == n),
{
}

} // verus!
