use cargo_q::executor::Executor;
use cargo_q::parser::Parser;
use cargo_q::routine::Routine;
use cargo_q::strategy::{pool_size, ExecError, Outcome, RunState, Strategy};

fn routines(n: usize) -> Vec<Routine> {
    (0..n)
        .map(|i| Routine { name: format!("cmd{}", i), args: Vec::new() })
        .collect()
}

#[test]
fn dependent_run_stops_after_a_failure() {
    let executor = Parser.parse_line("check & test & run", false, false);
    assert_eq!(executor.routines.len(), 3);
    let mut run = executor.execute().unwrap();
    let mut started = Vec::new();
    let outcomes = [Outcome::Success, Outcome::Failure, Outcome::Success];
    while let Some(i) = run.start_next() {
        started.push(i);
        run.report(outcomes[i]);
    }
    assert_eq!(started, vec![0, 1]);
    assert_eq!(run.state(), RunState::Failed(ExecError::CommandFailed { index: 1 }));
    assert_eq!(run.summary.success_count, 1);
    assert_eq!(run.summary.skipped_count(), 1);
}

#[test]
fn dependent_run_stops_on_spawn_error() {
    let executor = Executor::with_strategy(false, false, routines(3), Strategy::Dependent);
    let mut run = executor.execute().unwrap();
    assert_eq!(run.start_next(), Some(0));
    run.report(Outcome::SpawnError);
    assert_eq!(run.start_next(), None);
    assert_eq!(run.state(), RunState::Failed(ExecError::SpawnFailed { index: 0 }));
}

#[test]
fn independent_run_continues_past_failures() {
    let executor = Executor::new(false, false, routines(3));
    let mut run = executor.execute().unwrap();
    let outcomes = [Outcome::Failure, Outcome::Success, Outcome::Failure];
    let mut started = Vec::new();
    while let Some(i) = run.start_next() {
        assert_eq!(run.state(), RunState::Running);
        started.push(i);
        run.report(outcomes[i]);
    }
    assert_eq!(started, vec![0, 1, 2]);
    assert_eq!(run.state(), RunState::Succeeded);
    assert_eq!(run.summary.success_count, 1);
    assert_eq!(run.summary.failed_count(), 2);
}

#[test]
fn independent_run_aborts_on_spawn_error() {
    let executor = Executor::new(false, false, routines(3));
    let mut run = executor.execute().unwrap();
    assert_eq!(run.start_next(), Some(0));
    run.report(Outcome::Success);
    assert_eq!(run.start_next(), Some(1));
    run.report(Outcome::SpawnError);
    assert_eq!(run.start_next(), None);
    assert_eq!(run.state(), RunState::Failed(ExecError::SpawnFailed { index: 1 }));
}

#[test]
fn empty_run_succeeds_at_once() {
    let executor = Executor::new(false, false, Vec::new());
    let mut run = executor.execute().unwrap();
    assert_eq!(run.state(), RunState::Succeeded);
    assert_eq!(run.start_next(), None);
}

#[test]
fn parallel_dependent_is_refused() {
    let executor = Parser.parse_line("check & test", true, false);
    assert_eq!(executor.execute().err(), Some(ExecError::ParallelRequiresIndependent));
}

#[test]
fn pipe_is_refused() {
    let executor = Executor::with_strategy(false, false, routines(2), Strategy::Pipe);
    assert_eq!(executor.execute().err(), Some(ExecError::PipeUnsupported));
    let executor = Executor::with_strategy(true, false, routines(2), Strategy::Pipe);
    assert_eq!(executor.execute().err(), Some(ExecError::ParallelRequiresIndependent));
}

#[test]
fn parallel_run_finishes_after_every_completion() {
    let executor = Executor::new(true, false, routines(10));
    let mut run = executor.execute().unwrap();
    assert_eq!(run.start_next(), None);
    for k in 1..=10 {
        assert_eq!(run.state(), RunState::Running);
        let o = if k % 3 == 0 { Outcome::Failure } else { Outcome::Success };
        assert_eq!(run.complete(10 - k, o), k);
    }
    assert_eq!(run.state(), RunState::Succeeded);
    assert_eq!(run.summary.running_count, 10);
    assert_eq!(run.summary.success_count, 7);
}

#[test]
fn parallel_run_with_spawn_error_fails_after_all_complete() {
    let executor = Executor::new(true, false, routines(10));
    let mut run = executor.execute().unwrap();
    for k in 1..=10 {
        assert_eq!(run.state(), RunState::Running);
        let o = if k % 3 == 0 { Outcome::SpawnError } else { Outcome::Success };
        assert_eq!(run.complete(10 - k, o), k);
    }
    assert_eq!(run.state(), RunState::Failed(ExecError::SpawnFailed { index: 7 }));
    assert_eq!(run.summary.running_count, 10);
    assert_eq!(run.summary.success_count, 7);
    assert_eq!(executor.error_message(ExecError::SpawnFailed { index: 7 }), "error: cmd7 Failed to execute command");
}

#[test]
fn error_messages_name_the_command() {
    let executor = Parser.parse_line("check & test --all", false, false);
    assert_eq!(
        executor.error_message(ExecError::CommandFailed { index: 1 }),
        "Command failed: test --all"
    );
    assert_eq!(
        executor.error_message(ExecError::ParallelRequiresIndependent),
        "parallel execution requires independent commands"
    );
    assert_eq!(
        executor.error_message(ExecError::PipeUnsupported),
        "the pipe strategy is not supported"
    );
}

#[test]
fn pool_size_is_bounded() {
    assert_eq!(pool_size(0), 1);
    assert_eq!(pool_size(3), 3);
    assert_eq!(pool_size(8), 8);
    assert_eq!(pool_size(10), 8);
}
