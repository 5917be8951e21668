//! The single-process communication backend: every rank query answers for
//! the one and only rank, and the process grid is whatever was recorded.

use vstd::prelude::*;

verus! {

/// Mathematical model of a [`SingleProcessComm`]: the recorded process-grid
/// shape and this rank's position in it.
pub struct ProcessGrid {
    pub decomposition: Seq<i32>,
    pub position: Seq<i32>,
}

/// No-op communication backend for single-process simulations.
pub struct SingleProcessComm {
    processor_decomposition: [i32; 3],
    processor_position: [i32; 3],
}

impl View for SingleProcessComm {
    type V = ProcessGrid;

    closed spec fn view(&self) -> ProcessGrid {
        ProcessGrid {
            decomposition: self.processor_decomposition@,
            position: self.processor_position@,
        }
    }
}

impl Default for SingleProcessComm {
    fn default() -> (c: Self)
        ensures
            c@.decomposition == seq![1i32, 1, 1],
            c@.position == seq![0i32, 0, 0],
    {
        Self::new()
    }
}

impl SingleProcessComm {
    /// A single-process backend with a 1×1×1 decomposition at position 0.
    pub fn new() -> (c: Self)
        ensures
            c@.decomposition == seq![1i32, 1, 1],
            c@.position == seq![0i32, 0, 0],
    {
        let c = SingleProcessComm { processor_decomposition: [1, 1, 1], processor_position: [0, 0, 0] };
        assert(c@.decomposition =~= seq![1i32, 1, 1]);
        assert(c@.position =~= seq![0i32, 0, 0]);
        c
    }

    /// This process's rank: always 0.
    pub fn rank(&self) -> (r: i32)
        ensures
            r == 0,
    {
        0
    }

    /// Number of ranks: always 1.
    pub fn size(&self) -> (n: i32)
        ensures
            n == 1,
    {
        1
    }

    /// The recorded process-grid dimensions `[nx, ny, nz]`.
    pub fn processor_decomposition(&self) -> (d: [i32; 3])
        ensures
            d@ == self@.decomposition,
    {
        self.processor_decomposition
    }

    /// The recorded `[ix, iy, iz]` position of this rank in the grid.
    pub fn processor_position(&self) -> (p: [i32; 3])
        ensures
            p@ == self@.position,
    {
        self.processor_position
    }

    /// Record the process-grid shape and this rank's position in it.
    pub fn set_processor_grid(&mut self, decomp: [i32; 3], position: [i32; 3])
        ensures
            final(self)@.decomposition == decomp@,
            final(self)@.position == position@,
    {
        self.processor_decomposition = decomp;
        self.processor_position = position;
    }
}

} // verus!
