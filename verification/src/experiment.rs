//! The decisions around an experiment run: its configuration, where its log
//! goes, how long it may run, how its output is assembled, and how its exit
//! is judged and its metrics read.

use vstd::prelude::*;
use crate::metric_parser::{
    MetricParser, ParsedMetrics, default_patterns, extract_spec, float_capture, has_primary,
};
use crate::paths::{
    file_name, is_relative, join_path, parent, path_file_name, path_is_relative, path_join, path_parent,
};
use crate::text::{opt_text, trim, trim_spec};

verus! {

/// Configuration for experiment execution.
#[derive(Debug, Clone)]
pub struct ExperimentConfig {
    /// Working directory for the experiment
    pub working_dir: String,
    /// Command to run
    pub command: String,
    /// Arguments for the command
    pub args: Vec<String>,
    /// Time budget in seconds
    pub time_budget_seconds: u64,
    /// Log file path
    pub log_file: Option<String>,
    /// How many times the budget the process may run before it is killed
    pub kill_timeout_factor: u64,
}

/// The characters of each text of a list.
pub open spec fn texts(v: Seq<String>) -> Seq<Seq<char>> {
    v.map_values(|s: String| s@)
}

impl Default for ExperimentConfig {
    /// `python train.py` in the current directory, with a 300-second budget,
    /// no log file, and a kill after twice the budget.
    fn default() -> (r: Self)
        ensures
            r.working_dir@ == "."@,
            r.command@ == "python"@,
            texts(r.args@) == seq!["train.py"@],
            r.time_budget_seconds == 300,
            r.log_file is None,
            r.kill_timeout_factor == 2,
    {
        let r = ExperimentConfig {
            working_dir: String::from_str("."),
            command: String::from_str("python"),
            args: vec![String::from_str("train.py")],
            time_budget_seconds: 300,
            log_file: None,
            kill_timeout_factor: 2,
        };
        assert(texts(r.args@) =~= seq!["train.py"@]);
        r
    }
}

/// Where the log of `config` goes: a relative log path lies in the working
/// directory.
pub open spec fn log_path_spec(config: ExperimentConfig) -> Option<Seq<char>> {
    match config.log_file {
        Some(p) => Some(
            if path_is_relative(p@) {
                path_join(config.working_dir@, p@)
            } else {
                p@
            },
        ),
        None => None,
    }
}

/// Where the log goes: no log file means no log; a relative log file lies
/// in the working directory, whatever that directory is; an absolute log
/// file is used as it stands.
pub proof fn lemma_log_path_resolution(config: ExperimentConfig)
    ensures
        config.log_file is None ==> log_path_spec(config) is None,
        config.log_file is Some && path_is_relative(config.log_file.unwrap()@) ==> log_path_spec(
            config,
        ) == Some(path_join(config.working_dir@, config.log_file.unwrap()@)),
        config.log_file is Some && !path_is_relative(config.log_file.unwrap()@) ==> log_path_spec(
            config,
        ) == Some(config.log_file.unwrap()@),
{
}

impl ExperimentConfig {
    /// Runs the training script at `script` with `python`, from the script's
    /// directory, logging to `run.log` there.
    pub fn training_script(script: &str, time_budget_seconds: u64) -> (r: Self)
        ensures
            r.working_dir@ == (match path_parent(script@) {
                Some(p) => p,
                None => "."@,
            }),
            r.command@ == "python"@,
            texts(r.args@) == seq![
                match path_file_name(script@) {
                    Some(n) => n,
                    None => "train.py"@,
                },
            ],
            r.time_budget_seconds == time_budget_seconds,
            opt_text(r.log_file) == Some("run.log"@),
            r.kill_timeout_factor == 2,
    {
        let script_name = match file_name(script) {
            Some(n) => n,
            None => String::from_str("train.py"),
        };
        let working_dir = match parent(script) {
            Some(p) => p,
            None => String::from_str("."),
        };
        let r = ExperimentConfig {
            working_dir,
            command: String::from_str("python"),
            args: vec![script_name],
            time_budget_seconds,
            log_file: Some(String::from_str("run.log")),
            kill_timeout_factor: 2,
        };
        assert(texts(r.args@) =~= seq![
            match path_file_name(script@) {
                Some(n) => n,
                None => "train.py"@,
            },
        ]);
        r
    }

    /// The log file's path, resolved against the working directory.
    pub fn log_path(&self) -> (r: Option<String>)
        ensures
            opt_text(r) == log_path_spec(*self),
    {
        match &self.log_file {
            Some(p) => if is_relative(p.as_str()) {
                Some(join_path(self.working_dir.as_str(), p.as_str()))
            } else {
                Some(p.clone())
            },
            None => None,
        }
    }

    /// The directory to create for the log at `log_path`: its parent, or the
    /// working directory when it has none.
    pub fn log_dir(&self, log_path: &str) -> (r: String)
        ensures
            r@ == (match path_parent(log_path@) {
                Some(p) => p,
                None => self.working_dir@,
            }),
    {
        match parent(log_path) {
            Some(p) => p,
            None => self.working_dir.clone(),
        }
    }

    /// How many seconds the process may run before it is killed: the budget
    /// times the kill factor.
    pub fn kill_timeout_seconds(&self) -> (r: u64)
        requires
            self.time_budget_seconds * self.kill_timeout_factor <= u64::MAX,
        ensures
            r == self.time_budget_seconds * self.kill_timeout_factor,
    {
        self.time_budget_seconds * self.kill_timeout_factor
    }
}

/// How an experiment ended.
#[derive(Debug, Clone, Copy, PartialEq, Eq, Structural)]
pub enum ExperimentStatus {
    /// The run finished with exit code 0; its result is kept.
    Keep,
    /// The run failed, was killed, or timed out.
    Crash,
}

/// How waiting for the experiment process ended.
#[derive(Debug, Clone)]
pub enum WaitOutcome {
    /// The process exited within the kill timeout, with this exit code
    /// (`None` when a signal ended it).
    Exited(Option<i32>),
    /// Waiting for the process failed, with this message.
    Failed(String),
    /// The kill timeout passed first.
    TimedOut,
}

/// What the runner does once waiting has ended.
#[derive(Debug, Clone)]
pub enum RunStep {
    /// Judge the run with this exit code.
    Judge(Option<i32>),
    /// Give up on the run with this error message.
    Fail(String),
    /// Kill the process, wait for it at most `grace_seconds`, then judge the
    /// run with no exit code.
    Kill { grace_seconds: u64 },
}

/// The step after waiting: an exit is judged by its code, a failed wait is
/// an error, and a timeout kills the process, allows it 5 seconds, and is
/// judged as having no exit code.
pub fn after_wait(outcome: WaitOutcome) -> (r: RunStep)
    ensures
        match outcome {
            WaitOutcome::Exited(code) => r == RunStep::Judge(code),
            WaitOutcome::Failed(message) => r == RunStep::Fail(message),
            WaitOutcome::TimedOut => r == RunStep::Kill { grace_seconds: 5 },
        },
{
    match outcome {
        WaitOutcome::Exited(code) => RunStep::Judge(code),
        WaitOutcome::Failed(message) => RunStep::Fail(message),
        WaitOutcome::TimedOut => RunStep::Kill { grace_seconds: 5 },
    }
}

/// Runs experiments under a configuration and reads their metrics.
#[derive(Debug, Clone)]
pub struct ExperimentRunner {
    config: ExperimentConfig,
    metric_parser: MetricParser,
}

impl ExperimentRunner {
    /// The runner's configuration.
    pub closed spec fn config_spec(&self) -> ExperimentConfig {
        self.config
    }

    /// The runner's metric parser.
    pub closed spec fn parser_spec(&self) -> MetricParser {
        self.metric_parser
    }

    /// A runner for `config` with the default metric parser.
    pub fn new(config: ExperimentConfig) -> (r: Self)
        ensures
            r.config_spec() == config,
            r.parser_spec().patterns() == default_patterns(),
            r.parser_spec().wf(),
    {
        ExperimentRunner { config, metric_parser: MetricParser::new() }
    }

    /// The same runner with `parser` as its metric parser.
    pub fn with_metric_parser(self, parser: MetricParser) -> (r: Self)
        ensures
            r.config_spec() == self.config_spec(),
            r.parser_spec() == parser,
    {
        ExperimentRunner { config: self.config, metric_parser: parser }
    }

    /// The runner's configuration.
    pub fn config(&self) -> (r: &ExperimentConfig)
        ensures
            *r == self.config_spec(),
    {
        &self.config
    }

    /// The runner's metric parser.
    pub fn metric_parser(&self) -> (r: &MetricParser)
        ensures
            *r == self.parser_spec(),
    {
        &self.metric_parser
    }

    /// Judges a finished run from its exit code (`None` when it timed out
    /// or ended without one) and its captured output: exit code 0 keeps the
    /// result and reads its metrics; anything else is a crash with none.
    pub fn assess(&self, exit_code: Option<i32>, output: &str) -> (r: (
        ExperimentStatus,
        Option<ParsedMetrics>,
    ))
        ensures
            exit_code == Some(0i32) ==> r.0 == ExperimentStatus::Keep && match r.1 {
                Some(m) => m@ == extract_spec(self.parser_spec().patterns(), output@) && has_primary(
                    m@,
                ),
                None => !has_primary(extract_spec(self.parser_spec().patterns(), output@)),
            },
            exit_code != Some(0i32) ==> r.0 == ExperimentStatus::Crash && r.1 is None,
    {
        match exit_code {
            Some(code) => if code == 0 {
                (ExperimentStatus::Keep, self.metric_parser.extract_all(output))
            } else {
                (ExperimentStatus::Crash, None)
            },
            None => (ExperimentStatus::Crash, None),
        }
    }

    /// Reads a metric from a run's output with the regular expression
    /// `regex`: its first capture group, when that is a floating-point
    /// literal.
    pub fn metric_from_output(&self, output: &str, regex: &str) -> (r: Option<String>)
        ensures
            opt_text(r) == float_capture(regex@, output@),
    {
        self.metric_parser.extract_with_regex(output, regex)
    }
}

/// A line the process wrote to its standard error, as it goes into the
/// captured output: marked, and without surrounding white space.
pub fn stderr_line(line: &str) -> (r: String)
    ensures
        r@ == "[stderr] "@ + trim_spec(line@),
{
    let t = trim(line);
    String::from_str("[stderr] ").concat(t.as_str())
}

/// The lines joined with a newline between each two.
pub open spec fn join_lines_spec(lines: Seq<Seq<char>>) -> Seq<char>
    decreases lines.len(),
{
    if lines.len() == 0 {
        Seq::empty()
    } else if lines.len() == 1 {
        lines[0]
    } else {
        join_lines_spec(lines.drop_last()) + seq!['\n'] + lines.last()
    }
}

/// Joining lines puts every line in, in order, with one newline between
/// each two: nothing for no lines, the line itself for one, and one more
/// line adds a newline and that line, whatever it holds.
pub proof fn lemma_join_lines_push(lines: Seq<Seq<char>>, x: Seq<char>)
    ensures
        join_lines_spec(Seq::<Seq<char>>::empty()) == Seq::<char>::empty(),
        join_lines_spec(seq![x]) == x,
        lines.len() >= 1 ==> join_lines_spec(lines.push(x)) == join_lines_spec(lines) + seq!['\n']
            + x,
{
    assert(lines.push(x).drop_last() =~= lines);
}

/// The sum of the lengths of the lines.
pub open spec fn total_len(lines: Seq<Seq<char>>) -> nat
    decreases lines.len(),
{
    if lines.len() == 0 {
        0
    } else {
        total_len(lines.drop_last()) + lines.last().len()
    }
}

/// The joined output is as long as all the lines together plus one newline
/// between each two.
pub proof fn lemma_join_lines_len(lines: Seq<Seq<char>>)
    ensures
        lines.len() >= 1 ==> join_lines_spec(lines).len() == total_len(lines) + lines.len() - 1,
        lines.len() == 0 ==> join_lines_spec(lines).len() == 0,
    decreases lines.len(),
{
    if lines.len() > 1 {
        lemma_join_lines_len(lines.drop_last());
    } else if lines.len() == 1 {
        assert(total_len(lines.drop_last()) == 0);
    }
}

/// The captured output of a run: its lines joined with newlines.
pub fn join_output(lines: &Vec<String>) -> (r: String)
    ensures
        r@ == join_lines_spec(texts(lines@)),
{
    let ghost ls = texts(lines@);
    let mut r = String::new();
    let mut i: usize = 0;
    while i < lines.len()
        invariant
            ls == texts(lines@),
            i <= lines.len(),
            r@ == join_lines_spec(ls.take(i as int)),
        decreases lines.len() - i,
    {
        assert(ls.take(i + 1).drop_last() =~= ls.take(i as int));
        if i > 0 {
            r.append("\n");
            proof {
                reveal_strlit("\n");
            }
        } else {
            assert(ls.take(1) =~= seq![ls[0]]);
        }
        r.append(lines[i].as_str());
        i = i + 1;
    }
    assert(ls.take(i as int) =~= ls);
    r
}

} // verus!
