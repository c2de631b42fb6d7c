//! A unit of work: a task with an immutable instruction count.

use vstd::prelude::*;
use crate::ids::IdGenerator;

verus! {

/// Largest instruction count (in millions of instructions) of a single task
/// that the exact integer cost model accepts without overflow.
pub const MAX_TASK_MI: u32 = 1_000_000;

#[derive(Clone, Copy, PartialEq, Eq, Hash, Structural)]
pub struct Task {
    pub id: usize,
    pub workload_id: usize,
    pub millions_of_instructions: u32,
}

impl Task {
    /// A task carries a positive, bounded instruction count.
    pub open spec fn wf(self) -> bool {
        1 <= self.millions_of_instructions <= MAX_TASK_MI
    }

    pub fn new(gen: &mut IdGenerator, millions_of_instructions: u32) -> (t: Task)
        requires
            old(gen).next_id < usize::MAX,
            1 <= millions_of_instructions <= MAX_TASK_MI,
        ensures
            t.id == old(gen).next_id,
            final(gen).next_id == old(gen).next_id + 1,
            t.workload_id == 0,
            t.millions_of_instructions == millions_of_instructions,
            t.wf(),
    {
        Task { id: gen.next(), workload_id: 0, millions_of_instructions }
    }
}

} // verus!
