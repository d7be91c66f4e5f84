use vstd::prelude::*;

verus! {

/// Counters of one execution: how many routines there are, how many have
/// been started (or, in a parallel run, completed), and how many succeeded.
#[derive(Clone, Copy, Debug, PartialEq, Eq, Structural)]
pub struct ExecutionSummary {
    pub success_count: usize,
    pub running_count: usize,
    pub total_commands: usize,
}

impl ExecutionSummary {
    pub open spec fn wf(self) -> bool {
        &&& self.success_count <= self.total_commands
        &&& self.running_count <= self.total_commands
    }

    pub fn new(total_commands: usize) -> (r: Self)
        ensures
            r.success_count == 0,
            r.running_count == 0,
            r.total_commands == total_commands,
            r.wf(),
    {
        ExecutionSummary { success_count: 0, running_count: 0, total_commands }
    }

    /// Records that one more routine succeeded.
    pub fn increment_success(&mut self)
        requires
            old(self).success_count < usize::MAX,
        ensures
            final(self).success_count == old(self).success_count + 1,
            final(self).running_count == old(self).running_count,
            final(self).total_commands == old(self).total_commands,
    {
        self.success_count = self.success_count + 1;
    }

    /// Marks one more routine as started and returns its place, from 1.
    pub fn start_next(&mut self) -> (k: usize)
        requires
            old(self).running_count < usize::MAX,
        ensures
            final(self).running_count == old(self).running_count + 1,
            final(self).success_count == old(self).success_count,
            final(self).total_commands == old(self).total_commands,
            k == final(self).running_count,
    {
        self.running_count = self.running_count + 1;
        self.running_count
    }

    /// The routines that started and did not succeed.
    pub fn failed_count(&self) -> (r: usize)
        requires
            self.success_count <= self.running_count,
        ensures
            r == self.running_count - self.success_count,
    {
        self.running_count - self.success_count
    }

    /// The routines that never started.
    pub fn skipped_count(&self) -> (r: usize)
        requires
            self.running_count <= self.total_commands,
        ensures
            r == self.total_commands - self.running_count,
    {
        self.total_commands - self.running_count
    }

    pub fn all_succeeded(&self) -> (r: bool)
        ensures
            r == (self.success_count == self.total_commands),
    {
        self.success_count == self.total_commands
    }
}

} // verus!
