use cargo_q::cli::Cli;
use cargo_q::process::ExecutionSummary;
use cargo_q::routine::Routine;

#[test]
fn test_execution_summary() {
    let mut summary = ExecutionSummary::new(3);
    assert_eq!(summary.success_count, 0);
    assert_eq!(summary.total_commands, 3);

    summary.increment_success();
    assert_eq!(summary.success_count, 1);

    summary.increment_success();
    assert_eq!(summary.success_count, 2);

    summary.increment_success();
    assert_eq!(summary.success_count, 3);
}

#[test]
fn summary_counts_failed_and_skipped() {
    let mut summary = ExecutionSummary::new(5);
    assert_eq!(summary.start_next(), 1);
    summary.increment_success();
    assert_eq!(summary.start_next(), 2);
    assert_eq!(summary.start_next(), 3);
    assert_eq!(summary.failed_count(), 2);
    assert_eq!(summary.skipped_count(), 2);
    assert!(!summary.all_succeeded());
}

#[test]
fn summary_of_nothing_has_succeeded() {
    let summary = ExecutionSummary::new(0);
    assert!(summary.all_succeeded());
    assert_eq!(summary.failed_count(), 0);
    assert_eq!(summary.skipped_count(), 0);
}

#[test]
fn command_line_joins_name_and_arguments() {
    let r = Routine {
        name: "test".to_string(),
        args: vec!["--features".to_string(), "feature1".to_string()],
    };
    assert_eq!(r.command_line(), "test --features feature1");
    let bare = Routine { name: "check".to_string(), args: Vec::new() };
    assert_eq!(bare.command_line(), "check");
}

#[test]
fn subcommand_word_is_removed() {
    let args: Vec<String> = vec!["cargo-q", "q", "check", "-p", "qq", "q"]
        .into_iter()
        .map(String::from)
        .collect();
    assert_eq!(Cli::strip_subcommand(&args), vec!["cargo-q", "check", "-p", "qq"]);
}

#[test]
fn counters_are_not_bounded_by_the_total() {
    let mut summary = ExecutionSummary::new(1);
    assert_eq!(summary.start_next(), 1);
    assert_eq!(summary.start_next(), 2);
    summary.increment_success();
    summary.increment_success();
    assert_eq!(summary.success_count, 2);
    assert_eq!(summary.running_count, 2);
    assert_eq!(summary.total_commands, 1);
}
