//! A virtual machine: throughput plus active and idle energy coefficients.

use vstd::prelude::*;
use crate::ids::IdGenerator;

verus! {

/// Largest throughput (millions of instructions per second) the exact
/// integer cost model accepts without overflow.
pub const MAX_VM_MIPS: u32 = 1_000_000;

/// Largest energy coefficient (joules per million instructions) the exact
/// integer cost model accepts without overflow.
pub const MAX_ENERGY_COEFFICIENT: u32 = 1_000_000;

#[derive(Clone, Copy, PartialEq, Eq, Hash, Structural)]
pub struct VirtualMachine {
    pub id: usize,
    pub data_center_id: usize,
    pub millions_of_instructions_per_second: u32,
    pub active_state_joules_per_million_instructions: u32,
    pub idle_state_joules_per_million_instructions: u32,
}

impl VirtualMachine {
    /// Throughput and the active coefficient are positive and bounded; the
    /// idle coefficient is a configured fraction of the active one.
    pub open spec fn wf(self) -> bool {
        &&& 1 <= self.millions_of_instructions_per_second <= MAX_VM_MIPS
        &&& 1 <= self.active_state_joules_per_million_instructions <= MAX_ENERGY_COEFFICIENT
        &&& self.idle_state_joules_per_million_instructions
            <= self.active_state_joules_per_million_instructions
    }

    pub fn new(
        gen: &mut IdGenerator,
        millions_of_instructions_per_second: u32,
        active_state_joules_per_million_instructions: u32,
        idle_state_joules_per_million_instructions: u32,
    ) -> (vm: VirtualMachine)
        requires
            old(gen).next_id < usize::MAX,
            1 <= millions_of_instructions_per_second <= MAX_VM_MIPS,
            1 <= active_state_joules_per_million_instructions <= MAX_ENERGY_COEFFICIENT,
            idle_state_joules_per_million_instructions
                <= active_state_joules_per_million_instructions,
        ensures
            vm.id == old(gen).next_id,
            final(gen).next_id == old(gen).next_id + 1,
            vm.data_center_id == 0,
            vm.millions_of_instructions_per_second == millions_of_instructions_per_second,
            vm.active_state_joules_per_million_instructions
                == active_state_joules_per_million_instructions,
            vm.idle_state_joules_per_million_instructions
                == idle_state_joules_per_million_instructions,
            vm.wf(),
    {
        VirtualMachine {
            id: gen.next(),
            data_center_id: 0,
            millions_of_instructions_per_second,
            active_state_joules_per_million_instructions,
            idle_state_joules_per_million_instructions,
        }
    }

    /// The configured idle-state coefficient.
    pub fn get_idle_state_joules_per_million_instructions(&self) -> (r: u32)
        ensures
            r == self.idle_state_joules_per_million_instructions,
    {
        self.idle_state_joules_per_million_instructions
    }
}

} // verus!
