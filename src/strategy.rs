use vstd::prelude::*;

use crate::process::ExecutionSummary;

verus! {

/// The most workers a parallel run uses.
pub const MAX_THREADS: usize = 8;

/// How the routines of one invocation relate to each other.
#[derive(Clone, Copy, Debug, PartialEq, Eq, Structural)]
pub enum Strategy {
    /// Every routine runs, whatever the others did.
    Independent,
    /// Routines run in order and the first failure stops the run.
    Dependent,
    /// Each routine would feed its output to the next; not supported.
    Pipe,
}

/// Why an execution did not succeed.
#[derive(Clone, Copy, Debug, PartialEq, Eq, Structural)]
pub enum ExecError {
    /// The routine at `index` could not be started.
    SpawnFailed { index: usize },
    /// In a dependent run, the routine at `index` exited with failure.
    CommandFailed { index: usize },
    /// Parallel execution was asked for routines that are not independent.
    ParallelRequiresIndependent,
    /// The pipe strategy was selected.
    PipeUnsupported,
}

/// What running one routine came to.
#[derive(Clone, Copy, Debug, PartialEq, Eq, Structural)]
pub enum Outcome {
    /// The program ran and exited with success.
    Success,
    /// The program ran and exited with failure.
    Failure,
    /// The program could not be started.
    SpawnError,
}

/// Where an execution stands.
#[derive(Clone, Copy, Debug, PartialEq, Eq, Structural)]
pub enum RunState {
    Running,
    Succeeded,
    Failed(ExecError),
}

/// The number of workers for a parallel run of `desired` routines.
pub open spec fn worker_count(desired: nat) -> nat {
    if desired == 0 {
        1
    } else if desired < MAX_THREADS {
        desired
    } else {
        MAX_THREADS as nat
    }
}

pub fn pool_size(desired: usize) -> (r: usize)
    ensures
        r == worker_count(desired as nat),
        1 <= r <= MAX_THREADS,
{
    if desired == 0 {
        1
    } else if desired < MAX_THREADS {
        desired
    } else {
        MAX_THREADS
    }
}

/// The decisions of one execution. The caller runs the routines and reports
/// what each came to; the run says which routine comes next and when it is
/// over.
///
/// A sequential run starts routines one at a time, in order, with
/// `start_next`, and hears of each with `report`. A parallel run hands every
/// routine out at once and hears of each with `complete`, in the order in
/// which they finish.
pub struct Run {
    pub strategy: Strategy,
    pub parallel: bool,
    pub summary: ExecutionSummary,
    /// The routine that was started and has not been reported yet.
    pub current: Option<usize>,
    pub failure: Option<ExecError>,
}

impl Run {
    pub open spec fn wf(self) -> bool {
        &&& self.strategy != Strategy::Pipe
        &&& self.parallel ==> self.strategy == Strategy::Independent
        &&& self.summary.wf()
        &&& self.summary.success_count + (if self.current is Some { 1int } else { 0 })
            <= self.summary.running_count
        &&& self.parallel ==> self.current is None
        &&& self.current matches Some(i) ==> i + 1 == self.summary.running_count
        &&& self.failure is Some ==> self.current is None
        &&& self.failure matches Some(ExecError::SpawnFailed { index }) ==> if self.parallel {
            index < self.summary.total_commands
        } else {
            index + 1 == self.summary.running_count
        }
        &&& self.failure matches Some(ExecError::CommandFailed { index }) ==> index + 1
            == self.summary.running_count && self.strategy == Strategy::Dependent
        &&& !(self.failure matches Some(ExecError::ParallelRequiresIndependent))
        &&& !(self.failure matches Some(ExecError::PipeUnsupported))
    }

    /// A run of `total` routines before anything has happened.
    pub open spec fn initial(strategy: Strategy, parallel: bool, total: nat) -> Run {
        Run {
            strategy,
            parallel,
            summary: ExecutionSummary {
                success_count: 0,
                running_count: 0,
                total_commands: total as usize,
            },
            current: None,
            failure: None,
        }
    }

    /// A parallel run is running until every routine has finished; it then
    /// fails with the first routine that could not be started, if any.
    pub open spec fn run_state(self) -> RunState {
        if self.parallel && self.summary.running_count < self.summary.total_commands {
            RunState::Running
        } else {
            self.settled_state()
        }
    }

    pub open spec fn settled_state(self) -> RunState {
        match self.failure {
            Some(e) => RunState::Failed(e),
            None => if self.current is None && self.summary.running_count
                == self.summary.total_commands {
                RunState::Succeeded
            } else {
                RunState::Running
            },
        }
    }

    /// Whether a sequential run starts another routine now.
    pub open spec fn can_start(self) -> bool {
        &&& !self.parallel
        &&& self.current is None
        &&& self.failure is None
        &&& self.summary.running_count < self.summary.total_commands
    }

    /// The run once the next routine has started.
    pub open spec fn started(self) -> Run {
        Run {
            summary: ExecutionSummary {
                running_count: (self.summary.running_count + 1) as usize,
                ..self.summary
            },
            current: Some(self.summary.running_count),
            ..self
        }
    }

    /// The run once the routine in flight has reported `o`.
    pub open spec fn reported(self, o: Outcome) -> Run {
        let index = self.current->0;
        Run {
            summary: ExecutionSummary {
                success_count: if o == Outcome::Success {
                    (self.summary.success_count + 1) as usize
                } else {
                    self.summary.success_count
                },
                ..self.summary
            },
            current: None,
            failure: match o {
                Outcome::Success => None,
                Outcome::SpawnError => Some(ExecError::SpawnFailed { index }),
                Outcome::Failure => if self.strategy == Strategy::Dependent {
                    Some(ExecError::CommandFailed { index })
                } else {
                    None
                },
            },
            ..self
        }
    }

    /// The parallel run once the routine at `index` has finished with `o`.
    /// The first routine that could not be started is kept as the failure.
    pub open spec fn completed(self, index: usize, o: Outcome) -> Run {
        Run {
            failure: if o == Outcome::SpawnError && self.failure is None {
                Some(ExecError::SpawnFailed { index })
            } else {
                self.failure
            },
            summary: ExecutionSummary {
                running_count: (self.summary.running_count + 1) as usize,
                success_count: if o == Outcome::Success {
                    (self.summary.success_count + 1) as usize
                } else {
                    self.summary.success_count
                },
                ..self.summary
            },
            ..self
        }
    }

    /// Starts the next routine of a sequential run, if one is due, and
    /// returns its index. Nothing is due once the run has failed or every
    /// routine has started.
    pub fn start_next(&mut self) -> (r: Option<usize>)
        requires
            old(self).wf(),
        ensures
            old(self).can_start() ==> r == Some(old(self).summary.running_count) && *final(self)
                == old(self).started(),
            !old(self).can_start() ==> r is None && *final(self) == *old(self),
            final(self).wf(),
    {
        if !self.parallel && self.current.is_none() && self.failure.is_none()
            && self.summary.running_count < self.summary.total_commands {
            let i = self.summary.running_count;
            self.summary.start_next();
            self.current = Some(i);
            Some(i)
        } else {
            None
        }
    }

    /// Takes in what the routine in flight came to.
    pub fn report(&mut self, o: Outcome)
        requires
            old(self).wf(),
            old(self).current is Some,
        ensures
            *final(self) == old(self).reported(o),
            final(self).wf(),
    {
        let index = match self.current {
            Some(i) => i,
            None => 0,
        };
        self.current = None;
        match o {
            Outcome::Success => {
                self.summary.increment_success();
            },
            Outcome::Failure => {
                if self.strategy == Strategy::Dependent {
                    self.failure = Some(ExecError::CommandFailed { index });
                }
            },
            Outcome::SpawnError => {
                self.failure = Some(ExecError::SpawnFailed { index });
            },
        }
    }

    /// Takes in that the routine at `index` of a parallel run finished with
    /// `o`, and returns its place in the order of completion, from 1.
    pub fn complete(&mut self, index: usize, o: Outcome) -> (k: usize)
        requires
            old(self).wf(),
            old(self).parallel,
            old(self).summary.running_count < old(self).summary.total_commands,
            index < old(self).summary.total_commands,
        ensures
            *final(self) == old(self).completed(index, o),
            final(self).wf(),
            k == final(self).summary.running_count,
    {
        let k = self.summary.start_next();
        if o == Outcome::Success {
            self.summary.increment_success();
        } else if o == Outcome::SpawnError && self.failure.is_none() {
            self.failure = Some(ExecError::SpawnFailed { index });
        }
        k
    }

    pub fn state(&self) -> (r: RunState)
        ensures
            r == self.run_state(),
    {
        if self.parallel && self.summary.running_count < self.summary.total_commands {
            return RunState::Running;
        }
        match self.failure {
            Some(e) => RunState::Failed(e),
            None => if self.current.is_none() && self.summary.running_count
                == self.summary.total_commands {
                RunState::Succeeded
            } else {
                RunState::Running
            },
        }
    }
}

} // verus!

verus! {

/// How many of `outs` are successes.
pub open spec fn count_success(outs: Seq<Outcome>) -> nat
    decreases outs.len(),
{
    if outs.len() == 0 {
        0
    } else {
        (if outs[0] == Outcome::Success { 1nat } else { 0nat }) + count_success(outs.drop_first())
    }
}

/// A sequential run driven to its end: while a routine is due it starts, and
/// the next of `outs` is what it came to.
pub open spec fn run_sequence(r: Run, outs: Seq<Outcome>) -> Run
    decreases outs.len(),
{
    if outs.len() == 0 || !r.can_start() {
        r
    } else {
        run_sequence(r.started().reported(outs[0]), outs.drop_first())
    }
}

/// A parallel run once routines have finished as `done` says, in turn: each
/// entry is the index of the routine and what it came to.
pub open spec fn complete_all(r: Run, done: Seq<(usize, Outcome)>) -> Run
    decreases done.len(),
{
    if done.len() == 0 {
        r
    } else {
        complete_all(r.completed(done[0].0, done[0].1), done.drop_first())
    }
}

/// What each completion of `done` came to.
pub open spec fn outcomes_of(done: Seq<(usize, Outcome)>) -> Seq<Outcome> {
    done.map_values(|p: (usize, Outcome)| p.1)
}

/// The index of the first routine in `done` that could not be started.
pub open spec fn first_spawn_error(done: Seq<(usize, Outcome)>) -> Option<usize>
    decreases done.len(),
{
    if done.len() == 0 {
        None
    } else if done[0].1 == Outcome::SpawnError {
        Some(done[0].0)
    } else {
        first_spawn_error(done.drop_first())
    }
}

proof fn lemma_dependent_from(r: Run, outs: Seq<Outcome>, j: int)
    requires
        r.wf(),
        !r.parallel,
        r.strategy == Strategy::Dependent,
        r.current is None,
        r.failure is None,
        r.summary.running_count + outs.len() == r.summary.total_commands,
        0 <= j < outs.len(),
        outs[j] != Outcome::Success,
        forall|k: int| 0 <= k < j ==> outs[k] == Outcome::Success,
    ensures
        run_sequence(r, outs).summary.running_count == r.summary.running_count + j + 1,
        run_sequence(r, outs).summary.success_count == r.summary.success_count + j,
        run_sequence(r, outs).failure == Some(
            if outs[j] == Outcome::Failure {
                ExecError::CommandFailed { index: (r.summary.running_count + j) as usize }
            } else {
                ExecError::SpawnFailed { index: (r.summary.running_count + j) as usize }
            },
        ),
        run_sequence(r, outs).current is None,
        !run_sequence(r, outs).parallel,
    decreases outs.len(),
{
    let r1 = r.started().reported(outs[0]);
    assert(r.can_start());
    assert(run_sequence(r, outs) == run_sequence(r1, outs.drop_first()));
    if j > 0 {
        assert(r1.can_start());
        lemma_dependent_from(r1, outs.drop_first(), j - 1);
    } else {
        assert(!r1.can_start());
    }
}

/// In a dependent run, the first routine that fails or cannot be started ends
/// the run: no later routine starts, and the run has failed naming that
/// routine.
pub proof fn lemma_dependent_stops_at_first_failure(n: usize, outs: Seq<Outcome>, j: int)
    requires
        outs.len() == n,
        0 <= j < n,
        outs[j] != Outcome::Success,
        forall|k: int| 0 <= k < j ==> outs[k] == Outcome::Success,
    ensures
        ({
            let f = run_sequence(Run::initial(Strategy::Dependent, false, n as nat), outs);
            &&& f.summary.running_count == j + 1
            &&& f.summary.success_count == j
            &&& f.run_state() == RunState::Failed(
                if outs[j] == Outcome::Failure {
                    ExecError::CommandFailed { index: j as usize }
                } else {
                    ExecError::SpawnFailed { index: j as usize }
                },
            )
            &&& !f.can_start()
        }),
{
    lemma_dependent_from(Run::initial(Strategy::Dependent, false, n as nat), outs, j);
}

proof fn lemma_independent_from(r: Run, outs: Seq<Outcome>)
    requires
        r.wf(),
        !r.parallel,
        r.strategy == Strategy::Independent,
        r.current is None,
        r.failure is None,
        r.summary.running_count + outs.len() == r.summary.total_commands,
        forall|k: int| 0 <= k < outs.len() ==> outs[k] != Outcome::SpawnError,
    ensures
        run_sequence(r, outs).summary.running_count == r.summary.total_commands,
        run_sequence(r, outs).summary.success_count == r.summary.success_count + count_success(
            outs,
        ),
        run_sequence(r, outs).summary.total_commands == r.summary.total_commands,
        run_sequence(r, outs).failure is None,
        run_sequence(r, outs).current is None,
        !run_sequence(r, outs).parallel,
    decreases outs.len(),
{
    if outs.len() > 0 {
        let r1 = r.started().reported(outs[0]);
        let rest = outs.drop_first();
        assert forall|k: int| 0 <= k < rest.len() implies rest[k] != Outcome::SpawnError by {
            assert(rest[k] == outs[k + 1]);
        }
        lemma_independent_from(r1, rest);
    }
}

/// In a sequential run of independent routines where every routine can be
/// started, every routine runs, whatever the others came to, and the run
/// succeeds; the summary counts the successes.
pub proof fn lemma_independent_runs_all(n: usize, outs: Seq<Outcome>)
    requires
        outs.len() == n,
        forall|k: int| 0 <= k < n ==> outs[k] != Outcome::SpawnError,
    ensures
        ({
            let f = run_sequence(Run::initial(Strategy::Independent, false, n as nat), outs);
            &&& f.summary.running_count == n
            &&& f.summary.success_count == count_success(outs)
            &&& f.run_state() == RunState::Succeeded
        }),
{
    lemma_independent_from(Run::initial(Strategy::Independent, false, n as nat), outs);
}

proof fn lemma_parallel_from(r: Run, done: Seq<(usize, Outcome)>)
    requires
        r.wf(),
        r.parallel,
        r.summary.running_count + done.len() == r.summary.total_commands,
        forall|k: int| 0 <= k < done.len() ==> #[trigger] done[k].0 < r.summary.total_commands,
    ensures
        complete_all(r, done).summary.running_count == r.summary.total_commands,
        complete_all(r, done).summary.success_count == r.summary.success_count + count_success(
            outcomes_of(done),
        ),
        complete_all(r, done).summary.total_commands == r.summary.total_commands,
        complete_all(r, done).parallel,
        complete_all(r, done).current is None,
        complete_all(r, done).failure == (if r.failure is Some {
            r.failure
        } else {
            match first_spawn_error(done) {
                Some(index) => Some(ExecError::SpawnFailed { index }),
                None => None,
            }
        }),
        forall|k: int|
            0 <= k < done.len() ==> #[trigger] complete_all(r, done.take(k)).run_state()
                == RunState::Running,
    decreases done.len(),
{
    if done.len() > 0 {
        let r1 = r.completed(done[0].0, done[0].1);
        let rest = done.drop_first();
        assert forall|k: int| 0 <= k < rest.len() implies #[trigger] rest[k].0
            < r1.summary.total_commands by {
            assert(rest[k] == done[k + 1]);
        }
        lemma_parallel_from(r1, rest);
        assert(outcomes_of(done).drop_first() =~= outcomes_of(rest));
        assert forall|k: int| 0 <= k < done.len() implies #[trigger] complete_all(
            r,
            done.take(k),
        ).run_state() == RunState::Running by {
            if k > 0 {
                assert(done.take(k).drop_first() =~= rest.take(k - 1));
                assert(done.take(k)[0] == done[0]);
                assert(complete_all(r, done.take(k)) == complete_all(r1, rest.take(k - 1)));
            } else {
                assert(done.take(k) =~= Seq::<(usize, Outcome)>::empty());
            }
        }
    }
}

/// A parallel run of `n` routines stays running until all `n` have finished,
/// whatever each came to, with one completion counted for each routine. It
/// then fails, naming the first routine that could not be started, if there
/// was one, and succeeds otherwise; the summary counts the successes.
pub proof fn lemma_parallel_completes_all(n: usize, done: Seq<(usize, Outcome)>)
    requires
        done.len() == n,
        forall|k: int| 0 <= k < n ==> #[trigger] done[k].0 < n,
    ensures
        ({
            let start = Run::initial(Strategy::Independent, true, n as nat);
            let f = complete_all(start, done);
            &&& f.summary.running_count == n
            &&& f.summary.success_count == count_success(outcomes_of(done))
            &&& f.run_state() == match first_spawn_error(done) {
                Some(index) => RunState::Failed(ExecError::SpawnFailed { index }),
                None => RunState::Succeeded,
            }
            &&& forall|k: int|
                0 <= k < n ==> #[trigger] complete_all(start, done.take(k)).run_state()
                    == RunState::Running
        }),
{
    lemma_parallel_from(Run::initial(Strategy::Independent, true, n as nat), done);
}

} // verus!
