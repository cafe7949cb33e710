use nca_core::experiment::{after_wait, RunStep, WaitOutcome};
use nca_core::experiment::{
    join_output, stderr_line, ExperimentConfig, ExperimentRunner, ExperimentStatus,
};
use nca_core::metric_parser::MetricParser;

#[test]
fn test_config_defaults() {
    let config = ExperimentConfig::default();
    assert_eq!(config.time_budget_seconds, 300);
    assert_eq!(config.command, "python");
}

#[test]
fn default_config_fields() {
    let config = ExperimentConfig::default();
    assert_eq!(config.working_dir, ".");
    assert_eq!(config.args, vec!["train.py".to_string()]);
    assert_eq!(config.log_file, None);
    assert_eq!(config.kill_timeout_factor, 2);
}

#[test]
fn training_script_splits_path() {
    let config = ExperimentConfig::training_script("/work/nano/train_gpt.py", 120);
    assert_eq!(config.working_dir, "/work/nano");
    assert_eq!(config.args, vec!["train_gpt.py".to_string()]);
    assert_eq!(config.command, "python");
    assert_eq!(config.time_budget_seconds, 120);
    assert_eq!(config.log_file.as_deref(), Some("run.log"));
    assert_eq!(config.kill_timeout_factor, 2);

    let bare = ExperimentConfig::training_script("train.py", 5);
    assert_eq!(bare.working_dir, "");
    assert_eq!(bare.args, vec!["train.py".to_string()]);

    let up = ExperimentConfig::training_script("..", 5);
    assert_eq!(up.args, vec!["train.py".to_string()]);
}

#[test]
fn log_path_resolution() {
    let mut config = ExperimentConfig::default();
    assert_eq!(config.log_path(), None);
    config.working_dir = "/tmp/exp".to_string();
    config.log_file = Some("run.log".to_string());
    assert_eq!(config.log_path().as_deref(), Some("/tmp/exp/run.log"));
    config.log_file = Some("/var/log/run.log".to_string());
    assert_eq!(config.log_path().as_deref(), Some("/var/log/run.log"));
    assert_eq!(config.log_dir("/var/log/run.log"), "/var/log");
    assert_eq!(config.log_dir("/"), "/tmp/exp");
}

#[test]
fn kill_timeout_is_budget_times_factor() {
    let mut config = ExperimentConfig::default();
    assert_eq!(config.kill_timeout_seconds(), 600);
    config.time_budget_seconds = 1;
    config.kill_timeout_factor = 1;
    assert_eq!(config.kill_timeout_seconds(), 1);
}

#[test]
fn assess_keeps_only_exit_zero() {
    let runner = ExperimentRunner::new(ExperimentConfig::default());
    let output = "val_bpb: 1.234\npeak_vram_mb: 4096.0";
    let (status, metrics) = runner.assess(Some(0), output);
    assert_eq!(status, ExperimentStatus::Keep);
    let metrics = metrics.unwrap();
    assert_eq!(metrics.val_bpb.as_deref(), Some("1.234"));
    assert_eq!(metrics.peak_vram_mb.as_deref(), Some("4096.0"));

    let (status, metrics) = runner.assess(Some(1), output);
    assert_eq!(status, ExperimentStatus::Crash);
    assert!(metrics.is_none());

    let (status, metrics) = runner.assess(None, output);
    assert_eq!(status, ExperimentStatus::Crash);
    assert!(metrics.is_none());

    let (status, metrics) = runner.assess(Some(0), "no metrics");
    assert_eq!(status, ExperimentStatus::Keep);
    assert!(metrics.is_none());
}

#[test]
fn runner_uses_its_parser() {
    let mut parser = MetricParser::new();
    parser.add_pattern("score", r"score=([\d.]+)").unwrap();
    let runner = ExperimentRunner::new(ExperimentConfig::default()).with_metric_parser(parser);
    let (_, metrics) = runner.assess(Some(0), "score=9.5");
    let metrics = metrics.unwrap();
    assert_eq!(metrics.extra.len(), 1);
    assert_eq!(metrics.extra[0].name, "score");
    assert_eq!(metrics.extra[0].value, "9.5");
    assert_eq!(runner.config().command, "python");
    assert_eq!(
        runner.metric_from_output("12 passed", r"(\d+)\s+passed").as_deref(),
        Some("12")
    );
}

#[test]
fn stderr_lines_are_marked_and_trimmed() {
    assert_eq!(stderr_line("  oops\n"), "[stderr] oops");
    assert_eq!(stderr_line("\t\n"), "[stderr] ");
}

#[test]
fn output_lines_joined_with_newlines() {
    assert_eq!(join_output(&vec![]), "");
    assert_eq!(join_output(&vec!["a\n".to_string()]), "a\n");
    assert_eq!(
        join_output(&vec!["a\n".to_string(), "[stderr] b".to_string(), "c".to_string()]),
        "a\n\n[stderr] b\nc"
    );
}

#[test]
fn wait_outcomes_lead_to_steps() {
    assert!(matches!(after_wait(WaitOutcome::Exited(Some(3))), RunStep::Judge(Some(3))));
    assert!(matches!(after_wait(WaitOutcome::Exited(None)), RunStep::Judge(None)));
    match after_wait(WaitOutcome::Failed("boom".to_string())) {
        RunStep::Fail(m) => assert_eq!(m, "boom"),
        other => panic!("unexpected {:?}", other),
    }
    assert!(matches!(after_wait(WaitOutcome::TimedOut), RunStep::Kill { grace_seconds: 5 }));
}
