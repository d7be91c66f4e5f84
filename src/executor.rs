use vstd::prelude::*;
use vstd::string::*;

use crate::routine::{command_text, Routine};
use crate::text::views;
use crate::strategy::{ExecError, Run, Strategy};

verus! {

/// The routines of one invocation, how they relate, and how to run them.
pub struct Executor {
    pub parallel: bool,
    pub verbose: bool,
    pub routines: Vec<Routine>,
    pub strategy: Strategy,
}

/// What `execute` answers for a configuration: the error that refuses it, or
/// none where it can run.
pub open spec fn config_error(strategy: Strategy, parallel: bool) -> Option<ExecError> {
    if parallel && strategy != Strategy::Independent {
        Some(ExecError::ParallelRequiresIndependent)
    } else if strategy == Strategy::Pipe {
        Some(ExecError::PipeUnsupported)
    } else {
        None
    }
}

/// Whether the routine that `e` names, if any, is one of `n` routines.
pub open spec fn names_routine_of(e: ExecError, n: nat) -> bool {
    match e {
        ExecError::SpawnFailed { index } => index < n,
        ExecError::CommandFailed { index } => index < n,
        _ => true,
    }
}

/// The message that reports `e`; a routine that it names is shown by its
/// command line.
pub open spec fn error_text(e: ExecError, routines: Seq<Routine>) -> Seq<char> {
    match e {
        ExecError::SpawnFailed { index } => "error: "@ + routine_text(routines[index as int])
            + " Failed to execute command"@,
        ExecError::CommandFailed { index } => "Command failed: "@ + routine_text(
            routines[index as int],
        ),
        ExecError::ParallelRequiresIndependent => "parallel execution requires independent commands"@,
        ExecError::PipeUnsupported => "the pipe strategy is not supported"@,
    }
}

pub open spec fn routine_text(r: Routine) -> Seq<char> {
    command_text(r.name@, views(r.args@))
}

impl Executor {
    /// An executor for routines that do not depend on each other.
    pub fn new(parallel: bool, verbose: bool, routines: Vec<Routine>) -> (r: Self)
        ensures
            r.parallel == parallel,
            r.verbose == verbose,
            r.routines == routines,
            r.strategy == Strategy::Independent,
    {
        Executor { parallel, verbose, routines, strategy: Strategy::Independent }
    }

    pub fn with_strategy(
        parallel: bool,
        verbose: bool,
        routines: Vec<Routine>,
        strategy: Strategy,
    ) -> (r: Self)
        ensures
            r.parallel == parallel,
            r.verbose == verbose,
            r.routines == routines,
            r.strategy == strategy,
    {
        Executor { parallel, verbose, routines, strategy }
    }

    /// Begins the execution: refuses a configuration that cannot run, before
    /// any routine has started, and otherwise hands back the run that decides
    /// what happens next.
    pub fn execute(&self) -> (r: Result<Run, ExecError>)
        ensures
            config_error(self.strategy, self.parallel) matches Some(e) ==> r == Err::<Run, ExecError>(e),
            config_error(self.strategy, self.parallel) is None ==> (r matches Ok(run) && run
                == Run::initial(self.strategy, self.parallel, self.routines@.len()) && run.wf()),
    {
        if self.parallel && self.strategy != Strategy::Independent {
            Err(ExecError::ParallelRequiresIndependent)
        } else if self.strategy == Strategy::Pipe {
            Err(ExecError::PipeUnsupported)
        } else {
            Ok(
                Run {
                    strategy: self.strategy,
                    parallel: self.parallel,
                    summary: crate::process::ExecutionSummary::new(self.routines.len()),
                    current: None,
                    failure: None,
                },
            )
        }
    }

    /// The message that reports `e` for these routines.
    pub fn error_message(&self, e: ExecError) -> (r: String)
        requires
            names_routine_of(e, self.routines@.len()),
        ensures
            r@ == error_text(e, self.routines@),
    {
        match e {
            ExecError::SpawnFailed { index } => {
                let mut m = "error: ".to_owned();
                let cmd = self.routines[index].command_line();
                m.append(cmd.as_str());
                m.append(" Failed to execute command");
                m
            },
            ExecError::CommandFailed { index } => {
                let mut m = "Command failed: ".to_owned();
                let cmd = self.routines[index].command_line();
                m.append(cmd.as_str());
                m
            },
            ExecError::ParallelRequiresIndependent => {
                "parallel execution requires independent commands".to_owned()
            },
            ExecError::PipeUnsupported => "the pipe strategy is not supported".to_owned(),
        }
    }
}

} // verus!
