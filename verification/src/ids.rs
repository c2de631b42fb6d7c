//! Dense, explicitly owned id generation.
//!
//! Every entity of a simulation run (task, virtual machine, workload, data
//! center, particle) draws its id from a generator that the scenario builder
//! owns and passes into constructors, so ids are dense within one run and can
//! be reset between independent runs.

use vstd::prelude::*;

verus! {

pub struct IdGenerator {
    pub next_id: usize,
}

impl IdGenerator {
    pub fn new() -> (g: IdGenerator)
        ensures
            g.next_id == 0,
    {
        IdGenerator { next_id: 0 }
    }

    /// Hands out the next dense id.
    pub fn next(&mut self) -> (id: usize)
        requires
            old(self).next_id < usize::MAX,
        ensures
            id == old(self).next_id,
            final(self).next_id == old(self).next_id + 1,
    {
        let id = self.next_id;
        self.next_id = self.next_id + 1;
        id
    }

    /// Starts a fresh run: ids are handed out from zero again.
    pub fn reset(&mut self)
        ensures
            final(self).next_id == 0,
    {
        self.next_id = 0;
    }
}

} // verus!
