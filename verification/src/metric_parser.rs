//! Metric extraction from experiment output.
//!
//! A parser holds named regular expressions; each one's first capture group
//! is read out of the output and recorded under its name. Integer metrics
//! are kept as numbers; floating-point metrics are kept as the literal text
//! that was captured, once it is known to be a valid floating-point literal.

use vstd::prelude::*;
use crate::named::{
    NamedValue, named_view, insert_spec, insert_named, names_distinct, lookup,
    lemma_insert_distinct, lemma_lookup_insert, lemma_lookup_push, lemma_distinct_drop_last,
    lemma_name_index, lemma_push_new_name, lemma_name_index_shape, lemma_lookup_distinct,
};
use crate::text::opt_text;
use crate::numbers::{parse_u64_spec, parse_u64, is_float_literal, float_literal};

verus! {

/// `regex::Error`, the error of compiling a regular expression.
#[verifier::external_type_specification]
#[verifier::external_body]
pub struct ExRegexError(regex::Error);

/// Whether `regex::Regex::new` compiles `pattern` (it can also refuse a
/// valid pattern whose compiled form exceeds the crate's size limit).
pub uninterp spec fn regex_compiles(pattern: Seq<char>) -> bool;

/// The text of capture group 1 in the leftmost-first match of the regular
/// expression `pattern` in `text`, as the `regex` crate finds it; `None`
/// when the pattern does not compile, nothing matches, or group 1 took no
/// part in the match.
pub uninterp spec fn regex_first_group(pattern: Seq<char>, text: Seq<char>) -> Option<Seq<char>>;

/// Calls `regex::Regex::new(pattern)`; claims that it succeeds exactly when
/// `regex_compiles` holds of the pattern. The compiled regex is dropped.
#[verifier::external_body]
fn compile_pattern(pattern: &str) -> (r: Result<(), regex::Error>)
    ensures
        r is Ok <==> regex_compiles(pattern@),
{
    match regex::Regex::new(pattern) {
        Ok(_) => Ok(()),
        Err(e) => Err(e),
    }
}

/// Calls `regex::Error`'s `Display` implementation (through `to_string`) to
/// obtain the error's message; nothing is claimed of the message.
#[verifier::external_body]
fn regex_error_message(e: &regex::Error) -> String {
    e.to_string()
}

/// Calls `regex::Regex::new(pattern)`, then `Regex::captures(text)`,
/// `Captures::get(1)` and `Match::as_str`. Claims that the result is the
/// named `regex_first_group` of the pattern and text, that it is `None` when
/// the pattern does not compile, and that a captured text is a piece of
/// `text` (as `Match::as_str` documents).
#[verifier::external_body]
fn first_group(pattern: &str, text: &str) -> (r: Option<String>)
    ensures
        match r {
            Some(g) => regex_first_group(pattern@, text@) == Some(g@),
            None => regex_first_group(pattern@, text@) is None,
        },
        !regex_compiles(pattern@) ==> r is None,
        r matches Some(g) ==> exists|i: int, j: int|
            0 <= i <= j <= text@.len() && g@ == text@.subrange(i, j),
{
    let re = match regex::Regex::new(pattern) {
        Ok(re) => re,
        Err(_) => return None,
    };
    let caps = re.captures(text)?;
    let m = caps.get(1)?;
    Some(m.as_str().to_string())
}

/// Why a metric pattern was refused.
#[derive(Debug, Clone)]
pub enum MetricError {
    /// The pattern is not a regular expression that compiles; the text is
    /// the compiler's message.
    InvalidPattern(String),
}

/// The abstract contents of `ParsedMetrics`: floating-point metrics as the
/// literal text captured, integer metrics as numbers, and the additional
/// metrics as a list of (name, literal) pairs without repeated names.
pub struct MetricsView {
    pub val_bpb: Option<Seq<char>>,
    pub peak_vram_mb: Option<Seq<char>>,
    pub training_seconds: Option<Seq<char>>,
    pub total_seconds: Option<Seq<char>>,
    pub mfu_percent: Option<Seq<char>>,
    pub total_tokens_m: Option<Seq<char>>,
    pub num_steps: Option<u64>,
    pub num_params_m: Option<Seq<char>>,
    pub depth: Option<u32>,
    pub batch_size: Option<u64>,
    pub learning_rate: Option<Seq<char>>,
    pub extra: Seq<(Seq<char>, Seq<char>)>,
}

/// Metrics parsed from experiment output. Floating-point metrics hold the
/// literal that was captured (text that `str::parse::<f64>` accepts).
#[derive(Debug, Clone)]
pub struct ParsedMetrics {
    /// Validation bits per byte
    pub val_bpb: Option<String>,
    /// Peak VRAM in MB
    pub peak_vram_mb: Option<String>,
    /// Training time in seconds
    pub training_seconds: Option<String>,
    /// Total experiment time
    pub total_seconds: Option<String>,
    /// Model FLOPs utilization percentage
    pub mfu_percent: Option<String>,
    /// Total tokens in millions
    pub total_tokens_m: Option<String>,
    /// Number of training steps
    pub num_steps: Option<u64>,
    /// Number of parameters in millions
    pub num_params_m: Option<String>,
    /// Depth (for transformer models)
    pub depth: Option<u32>,
    /// Batch size
    pub batch_size: Option<u64>,
    /// Learning rate
    pub learning_rate: Option<String>,
    /// Additional metrics, by name
    pub extra: Vec<NamedValue>,
}

impl View for ParsedMetrics {
    type V = MetricsView;

    open spec fn view(&self) -> MetricsView {
        MetricsView {
            val_bpb: opt_text(self.val_bpb),
            peak_vram_mb: opt_text(self.peak_vram_mb),
            training_seconds: opt_text(self.training_seconds),
            total_seconds: opt_text(self.total_seconds),
            mfu_percent: opt_text(self.mfu_percent),
            total_tokens_m: opt_text(self.total_tokens_m),
            num_steps: self.num_steps,
            num_params_m: opt_text(self.num_params_m),
            depth: self.depth,
            batch_size: self.batch_size,
            learning_rate: opt_text(self.learning_rate),
            extra: named_view(self.extra@),
        }
    }
}

/// No metric recorded.
pub open spec fn empty_metrics() -> MetricsView {
    MetricsView {
        val_bpb: None,
        peak_vram_mb: None,
        training_seconds: None,
        total_seconds: None,
        mfu_percent: None,
        total_tokens_m: None,
        num_steps: None,
        num_params_m: None,
        depth: None,
        batch_size: None,
        learning_rate: None,
        extra: Seq::empty(),
    }
}

/// Metrics whose value is an integer.
pub open spec fn is_integer_metric(name: Seq<char>) -> bool {
    name == "num_steps"@ || name == "depth"@ || name == "batch_size"@
}

/// The effect of reading `value` for the metric `name`: integer metrics take
/// the value when it is a `u64` numeral (`depth` keeps its low 32 bits);
/// every other metric takes it when it is a floating-point literal, the known
/// ones in their own field and the rest among the additional metrics.
pub open spec fn record_spec(m: MetricsView, name: Seq<char>, value: Seq<char>) -> MetricsView {
    if is_integer_metric(name) {
        match parse_u64_spec(value) {
            Some(n) => if name == "num_steps"@ {
                MetricsView { num_steps: Some(n), ..m }
            } else if name == "depth"@ {
                MetricsView { depth: Some(n as u32), ..m }
            } else {
                MetricsView { batch_size: Some(n), ..m }
            },
            None => m,
        }
    } else if is_float_literal(value) {
        if name == "val_bpb"@ {
            MetricsView { val_bpb: Some(value), ..m }
        } else if name == "peak_vram_mb"@ {
            MetricsView { peak_vram_mb: Some(value), ..m }
        } else if name == "training_seconds"@ {
            MetricsView { training_seconds: Some(value), ..m }
        } else if name == "total_seconds"@ {
            MetricsView { total_seconds: Some(value), ..m }
        } else if name == "mfu_percent"@ {
            MetricsView { mfu_percent: Some(value), ..m }
        } else if name == "total_tokens_m"@ {
            MetricsView { total_tokens_m: Some(value), ..m }
        } else if name == "num_params_m"@ {
            MetricsView { num_params_m: Some(value), ..m }
        } else if name == "learning_rate"@ {
            MetricsView { learning_rate: Some(value), ..m }
        } else {
            MetricsView { extra: insert_spec(m.extra, name, value), ..m }
        }
    } else {
        m
    }
}

/// Whether any of the metrics that make a parse count was found: `val_bpb`,
/// `peak_vram_mb`, `training_seconds`, or an additional metric.
pub open spec fn has_primary(m: MetricsView) -> bool {
    m.val_bpb is Some || m.peak_vram_mb is Some || m.training_seconds is Some || m.extra.len() > 0
}

impl ParsedMetrics {
    /// Metrics with nothing recorded.
    /// No additional metric name occurs twice.
    pub open spec fn wf(&self) -> bool {
        names_distinct(self@.extra)
    }

    pub fn empty() -> (r: Self)
        ensures
            r@ == empty_metrics(),
            r.wf(),
    {
        let r = ParsedMetrics {
            val_bpb: None,
            peak_vram_mb: None,
            training_seconds: None,
            total_seconds: None,
            mfu_percent: None,
            total_tokens_m: None,
            num_steps: None,
            num_params_m: None,
            depth: None,
            batch_size: None,
            learning_rate: None,
            extra: Vec::new(),
        };
        assert(r@.extra =~= Seq::<(Seq<char>, Seq<char>)>::empty());
        r
    }

    /// Records `value`, captured for the metric `name`.
    pub fn record(&mut self, name: &str, value: &str)
        ensures
            final(self)@ == record_spec(old(self)@, name@, value@),
            old(self).wf() ==> final(self).wf(),
    {
        let ghost before = self@;
        proof {
            lemma_record_fields(before, name@, value@);
            if names_distinct(before.extra) {
                lemma_insert_distinct(before.extra, name@, value@);
            }
        }
        let is_steps = crate::text::same_text(name, "num_steps");
        let is_depth = crate::text::same_text(name, "depth");
        let is_batch = crate::text::same_text(name, "batch_size");
        if is_steps || is_depth || is_batch {
            match parse_u64(value) {
                Some(n) => {
                    if is_steps {
                        self.num_steps = Some(n);
                    } else if is_depth {
                        self.depth = Some(n as u32);
                    } else {
                        self.batch_size = Some(n);
                    }
                },
                None => {},
            }
        } else if float_literal(value) {
            let v = String::from_str(value);
            if crate::text::same_text(name, "val_bpb") {
                self.val_bpb = Some(v);
            } else if crate::text::same_text(name, "peak_vram_mb") {
                self.peak_vram_mb = Some(v);
            } else if crate::text::same_text(name, "training_seconds") {
                self.training_seconds = Some(v);
            } else if crate::text::same_text(name, "total_seconds") {
                self.total_seconds = Some(v);
            } else if crate::text::same_text(name, "mfu_percent") {
                self.mfu_percent = Some(v);
            } else if crate::text::same_text(name, "total_tokens_m") {
                self.total_tokens_m = Some(v);
            } else if crate::text::same_text(name, "num_params_m") {
                self.num_params_m = Some(v);
            } else if crate::text::same_text(name, "learning_rate") {
                self.learning_rate = Some(v);
            } else {
                insert_named(&mut self.extra, name, value);
            }
        }
    }

    /// Whether a parse that produced these metrics counts as having found
    /// any.
    pub fn has_primary(&self) -> (r: bool)
        ensures
            r == has_primary(self@),
    {
        self.val_bpb.is_some() || self.peak_vram_mb.is_some() || self.training_seconds.is_some()
            || self.extra.len() > 0
    }
}

impl Default for ParsedMetrics {
    fn default() -> (r: Self)
        ensures
            r@ == empty_metrics(),
    {
        ParsedMetrics::empty()
    }
}

/// The patterns a parser starts with, in this order: the nanoGPT-style
/// training metrics, then generic loss, accuracy, memory and timing metrics.
pub open spec fn default_patterns() -> Seq<(Seq<char>, Seq<char>)> {
    seq![
        ("val_bpb"@, r"val_bpb:\s*([\d.]+)"@),
        ("peak_vram_mb"@, r"peak_vram_mb:\s*([\d.]+)"@),
        ("training_seconds"@, r"training_seconds:\s*([\d.]+)"@),
        ("total_seconds"@, r"total_seconds:\s*([\d.]+)"@),
        ("mfu_percent"@, r"mfu_percent:\s*([\d.]+)"@),
        ("total_tokens_m"@, r"total_tokens_M:\s*([\d.]+)"@),
        ("num_steps"@, r"num_steps:\s*(\d+)"@),
        ("num_params_m"@, r"num_params_M:\s*([\d.]+)"@),
        ("depth"@, r"depth:\s*(\d+)"@),
        ("batch_size"@, r"batch_size:\s*(\d+)"@),
        ("learning_rate"@, r"(?:learning_rate|lr):\s*([\d.e-]+)"@),
        ("val_loss"@, r"(?:val_loss|validation_loss|validation error):\s*([\d.]+)"@),
        ("train_loss"@, r"(?:train_loss|training_loss|training error):\s*([\d.]+)"@),
        ("accuracy"@, r"(?:accuracy|acc):\s*([\d.]+)"@),
        ("perplexity"@, r"perplexity:\s*([\d.]+)"@),
        ("memory_mb"@, r"(?:peak_)?memory(?:_mb)?:\s*([\d.]+)"@),
        ("peak_memory"@, r"peak_memory:\s*([\d.]+)"@),
        ("elapsed"@, r"(?:elapsed|wall.?clock|time):\s*([\d.]+)"@),
    ]
}

/// What `extract_all` finds in `output` with the patterns `patterns`: each
/// pattern in turn whose first capture group matches records the captured
/// text under its name.
pub open spec fn extract_spec(patterns: Seq<(Seq<char>, Seq<char>)>, output: Seq<char>) -> MetricsView
    decreases patterns.len(),
{
    if patterns.len() == 0 {
        empty_metrics()
    } else {
        let prev = extract_spec(patterns.drop_last(), output);
        match regex_first_group(patterns.last().1, output) {
            Some(g) => record_spec(prev, patterns.last().0, g),
            None => prev,
        }
    }
}

/// The value `extract_with_regex` reads with `pattern` from `output`: the
/// first capture group, when it is a floating-point literal.
pub open spec fn float_capture(pattern: Seq<char>, output: Seq<char>) -> Option<Seq<char>> {
    match regex_first_group(pattern, output) {
        Some(g) => if is_float_literal(g) {
            Some(g)
        } else {
            None
        },
        None => None,
    }
}

/// The default patterns carry distinct names: each name, told apart from
/// the earlier ones by its length or first letter, joins a list that is
/// still distinct.
proof fn lemma_default_names_distinct()
    ensures
        names_distinct(default_patterns()),
{
    reveal_strlit("val_bpb");
    reveal_strlit("peak_vram_mb");
    reveal_strlit("training_seconds");
    reveal_strlit("total_seconds");
    reveal_strlit("mfu_percent");
    reveal_strlit("total_tokens_m");
    reveal_strlit("num_steps");
    reveal_strlit("num_params_m");
    reveal_strlit("depth");
    reveal_strlit("batch_size");
    reveal_strlit("learning_rate");
    reveal_strlit("val_loss");
    reveal_strlit("train_loss");
    reveal_strlit("accuracy");
    reveal_strlit("perplexity");
    reveal_strlit("memory_mb");
    reveal_strlit("peak_memory");
    reveal_strlit("elapsed");
    assert("val_bpb"@.len() == 7 && "val_bpb"@[0] == 'v');
    assert("peak_vram_mb"@.len() == 12 && "peak_vram_mb"@[0] == 'p');
    assert("training_seconds"@.len() == 16 && "training_seconds"@[0] == 't');
    assert("total_seconds"@.len() == 13 && "total_seconds"@[0] == 't');
    assert("mfu_percent"@.len() == 11 && "mfu_percent"@[0] == 'm');
    assert("total_tokens_m"@.len() == 14 && "total_tokens_m"@[0] == 't');
    assert("num_steps"@.len() == 9 && "num_steps"@[0] == 'n');
    assert("num_params_m"@.len() == 12 && "num_params_m"@[0] == 'n');
    assert("depth"@.len() == 5 && "depth"@[0] == 'd');
    assert("batch_size"@.len() == 10 && "batch_size"@[0] == 'b');
    assert("learning_rate"@.len() == 13 && "learning_rate"@[0] == 'l');
    assert("val_loss"@.len() == 8 && "val_loss"@[0] == 'v');
    assert("train_loss"@.len() == 10 && "train_loss"@[0] == 't');
    assert("accuracy"@.len() == 8 && "accuracy"@[0] == 'a');
    assert("perplexity"@.len() == 10 && "perplexity"@[0] == 'p');
    assert("memory_mb"@.len() == 9 && "memory_mb"@[0] == 'm');
    assert("peak_memory"@.len() == 11 && "peak_memory"@[0] == 'p');
    assert("elapsed"@.len() == 7 && "elapsed"@[0] == 'e');
    let ds = default_patterns();
    let mut s: Seq<(Seq<char>, Seq<char>)> = Seq::empty();
    let mut seen: Set<Seq<char>> = Set::empty();
    lemma_push_new_name(s, seen, ds[0]);
    s = s.push(ds[0]);
    seen = seen.insert(ds[0].0);
    lemma_push_new_name(s, seen, ds[1]);
    s = s.push(ds[1]);
    seen = seen.insert(ds[1].0);
    lemma_push_new_name(s, seen, ds[2]);
    s = s.push(ds[2]);
    seen = seen.insert(ds[2].0);
    lemma_push_new_name(s, seen, ds[3]);
    s = s.push(ds[3]);
    seen = seen.insert(ds[3].0);
    lemma_push_new_name(s, seen, ds[4]);
    s = s.push(ds[4]);
    seen = seen.insert(ds[4].0);
    lemma_push_new_name(s, seen, ds[5]);
    s = s.push(ds[5]);
    seen = seen.insert(ds[5].0);
    lemma_push_new_name(s, seen, ds[6]);
    s = s.push(ds[6]);
    seen = seen.insert(ds[6].0);
    lemma_push_new_name(s, seen, ds[7]);
    s = s.push(ds[7]);
    seen = seen.insert(ds[7].0);
    lemma_push_new_name(s, seen, ds[8]);
    s = s.push(ds[8]);
    seen = seen.insert(ds[8].0);
    lemma_push_new_name(s, seen, ds[9]);
    s = s.push(ds[9]);
    seen = seen.insert(ds[9].0);
    lemma_push_new_name(s, seen, ds[10]);
    s = s.push(ds[10]);
    seen = seen.insert(ds[10].0);
    lemma_push_new_name(s, seen, ds[11]);
    s = s.push(ds[11]);
    seen = seen.insert(ds[11].0);
    lemma_push_new_name(s, seen, ds[12]);
    s = s.push(ds[12]);
    seen = seen.insert(ds[12].0);
    lemma_push_new_name(s, seen, ds[13]);
    s = s.push(ds[13]);
    seen = seen.insert(ds[13].0);
    lemma_push_new_name(s, seen, ds[14]);
    s = s.push(ds[14]);
    seen = seen.insert(ds[14].0);
    lemma_push_new_name(s, seen, ds[15]);
    s = s.push(ds[15]);
    seen = seen.insert(ds[15].0);
    lemma_push_new_name(s, seen, ds[16]);
    s = s.push(ds[16]);
    seen = seen.insert(ds[16].0);
    lemma_push_new_name(s, seen, ds[17]);
    s = s.push(ds[17]);
    seen = seen.insert(ds[17].0);
    assert(s =~= ds);
}

/// The value that the pattern stored under `name` in `patterns` reads from
/// `output` as a floating-point metric.
pub open spec fn float_metric_of(
    patterns: Seq<(Seq<char>, Seq<char>)>,
    name: Seq<char>,
    output: Seq<char>,
) -> Option<Seq<char>> {
    match lookup(patterns, name) {
        Some(p) => float_capture(p, output),
        None => None,
    }
}

/// The value that the pattern stored under `name` in `patterns` reads from
/// `output` as an integer metric.
pub open spec fn int_metric_of(
    patterns: Seq<(Seq<char>, Seq<char>)>,
    name: Seq<char>,
    output: Seq<char>,
) -> Option<u64> {
    match lookup(patterns, name) {
        Some(p) => match regex_first_group(p, output) {
            Some(g) => parse_u64_spec(g),
            None => None,
        },
        None => None,
    }
}

/// The metrics that have a field of their own.
pub open spec fn is_known_metric(name: Seq<char>) -> bool {
    is_integer_metric(name) || name == "val_bpb"@ || name == "peak_vram_mb"@ || name
        == "training_seconds"@ || name == "total_seconds"@ || name == "mfu_percent"@ || name
        == "total_tokens_m"@ || name == "num_params_m"@ || name == "learning_rate"@
}

/// Recording a value changes at most the field of the metric's own name:
/// a floating-point metric takes a valid literal, an integer metric takes a
/// `u64` numeral (`depth` its low 32 bits), and any other name takes a valid
/// literal among the additional metrics; nothing else changes.
pub proof fn lemma_record_fields(m: MetricsView, name: Seq<char>, value: Seq<char>)
    ensures
        record_spec(m, name, value).val_bpb == (if name == "val_bpb"@ && is_float_literal(value) {
            Some(value)
        } else {
            m.val_bpb
        }),
        record_spec(m, name, value).peak_vram_mb == (if name == "peak_vram_mb"@ && is_float_literal(value) {
            Some(value)
        } else {
            m.peak_vram_mb
        }),
        record_spec(m, name, value).training_seconds == (if name == "training_seconds"@ && is_float_literal(value) {
            Some(value)
        } else {
            m.training_seconds
        }),
        record_spec(m, name, value).total_seconds == (if name == "total_seconds"@ && is_float_literal(value) {
            Some(value)
        } else {
            m.total_seconds
        }),
        record_spec(m, name, value).mfu_percent == (if name == "mfu_percent"@ && is_float_literal(value) {
            Some(value)
        } else {
            m.mfu_percent
        }),
        record_spec(m, name, value).total_tokens_m == (if name == "total_tokens_m"@ && is_float_literal(value) {
            Some(value)
        } else {
            m.total_tokens_m
        }),
        record_spec(m, name, value).num_params_m == (if name == "num_params_m"@ && is_float_literal(value) {
            Some(value)
        } else {
            m.num_params_m
        }),
        record_spec(m, name, value).learning_rate == (if name == "learning_rate"@ && is_float_literal(value) {
            Some(value)
        } else {
            m.learning_rate
        }),
        record_spec(m, name, value).num_steps == (if name == "num_steps"@ && parse_u64_spec(
            value,
        ) is Some {
            parse_u64_spec(value)
        } else {
            m.num_steps
        }),
        record_spec(m, name, value).batch_size == (if name == "batch_size"@ && parse_u64_spec(
            value,
        ) is Some {
            parse_u64_spec(value)
        } else {
            m.batch_size
        }),
        record_spec(m, name, value).depth == (if name == "depth"@ && parse_u64_spec(value) is Some {
            Some(parse_u64_spec(value).unwrap() as u32)
        } else {
            m.depth
        }),
        record_spec(m, name, value).extra == (if !is_known_metric(name) && is_float_literal(value) {
            insert_spec(m.extra, name, value)
        } else {
            m.extra
        }),
{
    reveal_strlit("val_bpb");
    reveal_strlit("peak_vram_mb");
    reveal_strlit("training_seconds");
    reveal_strlit("total_seconds");
    reveal_strlit("mfu_percent");
    reveal_strlit("total_tokens_m");
    reveal_strlit("num_params_m");
    reveal_strlit("learning_rate");
    reveal_strlit("num_steps");
    reveal_strlit("depth");
    reveal_strlit("batch_size");
    assert("val_bpb"@.len() == 7 && "val_bpb"@[0] == 'v');
    assert("peak_vram_mb"@.len() == 12 && "peak_vram_mb"@[0] == 'p');
    assert("training_seconds"@.len() == 16 && "training_seconds"@[0] == 't');
    assert("total_seconds"@.len() == 13 && "total_seconds"@[0] == 't');
    assert("mfu_percent"@.len() == 11 && "mfu_percent"@[0] == 'm');
    assert("total_tokens_m"@.len() == 14 && "total_tokens_m"@[0] == 't');
    assert("num_params_m"@.len() == 12 && "num_params_m"@[0] == 'n');
    assert("learning_rate"@.len() == 13 && "learning_rate"@[0] == 'l');
    assert("num_steps"@.len() == 9 && "num_steps"@[0] == 'n');
    assert("depth"@.len() == 5 && "depth"@[0] == 'd');
    assert("batch_size"@.len() == 10 && "batch_size"@[0] == 'b');
}

/// With distinct pattern names, every metric that `extract_all` reports is
/// read by the pattern stored under the metric's own name: a floating-point
/// metric is exactly what `extract_with_regex` reads with that pattern, an
/// integer metric is that pattern's capture read as a `u64` (`depth` keeping
/// its low 32 bits), and each additional metric is found under its name.
pub proof fn lemma_extract_by_name(patterns: Seq<(Seq<char>, Seq<char>)>, output: Seq<char>)
    requires
        names_distinct(patterns),
    ensures
        extract_spec(patterns, output).val_bpb == float_metric_of(patterns, "val_bpb"@, output),
        extract_spec(patterns, output).peak_vram_mb == float_metric_of(patterns, "peak_vram_mb"@, output),
        extract_spec(patterns, output).training_seconds == float_metric_of(patterns, "training_seconds"@, output),
        extract_spec(patterns, output).total_seconds == float_metric_of(patterns, "total_seconds"@, output),
        extract_spec(patterns, output).mfu_percent == float_metric_of(patterns, "mfu_percent"@, output),
        extract_spec(patterns, output).total_tokens_m == float_metric_of(patterns, "total_tokens_m"@, output),
        extract_spec(patterns, output).num_params_m == float_metric_of(patterns, "num_params_m"@, output),
        extract_spec(patterns, output).learning_rate == float_metric_of(patterns, "learning_rate"@, output),
        extract_spec(patterns, output).num_steps == int_metric_of(patterns, "num_steps"@, output),
        extract_spec(patterns, output).batch_size == int_metric_of(patterns, "batch_size"@, output),
        extract_spec(patterns, output).depth == (match int_metric_of(patterns, "depth"@, output) {
            Some(n) => Some(n as u32),
            None => None,
        }),
        forall|name: Seq<char>|
            !is_known_metric(name) ==> #[trigger] lookup(extract_spec(patterns, output).extra, name)
                == float_metric_of(patterns, name, output),
    decreases patterns.len(),
{
    reveal_strlit("val_bpb");
    reveal_strlit("peak_vram_mb");
    reveal_strlit("training_seconds");
    reveal_strlit("total_seconds");
    reveal_strlit("mfu_percent");
    reveal_strlit("total_tokens_m");
    reveal_strlit("num_params_m");
    reveal_strlit("learning_rate");
    reveal_strlit("num_steps");
    reveal_strlit("depth");
    reveal_strlit("batch_size");
    if patterns.len() > 0 {
        let d = patterns.drop_last();
        let x = patterns.last();
        assert(patterns =~= d.push(x));
        lemma_distinct_drop_last(patterns);
        lemma_extract_by_name(d, output);
        let prev = extract_spec(d, output);
        let m = extract_spec(patterns, output);
        if let Some(g) = regex_first_group(x.1, output) {
            lemma_record_fields(prev, x.0, g);
        }
        assert forall|name: Seq<char>| true implies #[trigger] lookup(patterns, name) == (match lookup(d, name) {
            Some(v) => Some(v),
            None => if x.0 == name {
                Some(x.1)
            } else {
                None
            },
        }) by {
            lemma_lookup_push(d, x, name);
        }
        assert forall|name: Seq<char>|
            !is_known_metric(name) implies #[trigger] lookup(m.extra, name) == float_metric_of(
                patterns,
                name,
                output,
            ) by {
            match regex_first_group(x.1, output) {
                Some(g) => {
                    if !is_known_metric(x.0) && is_float_literal(g) {
                        lemma_lookup_insert(prev.extra, x.0, g, name);
                    }
                },
                None => {},
            }
        }
    }
}

/// The metrics `m` are what the patterns read by name: each field holds what
/// the pattern stored under the field's name reads, and each name without a
/// field of its own holds, among the additional metrics, what its pattern
/// reads as a floating-point metric.
pub open spec fn reads_by_name(
    m: MetricsView,
    patterns: Seq<(Seq<char>, Seq<char>)>,
    output: Seq<char>,
) -> bool {
    &&& m.val_bpb == float_metric_of(patterns, "val_bpb"@, output)
    &&& m.peak_vram_mb == float_metric_of(patterns, "peak_vram_mb"@, output)
    &&& m.training_seconds == float_metric_of(patterns, "training_seconds"@, output)
    &&& m.total_seconds == float_metric_of(patterns, "total_seconds"@, output)
    &&& m.mfu_percent == float_metric_of(patterns, "mfu_percent"@, output)
    &&& m.total_tokens_m == float_metric_of(patterns, "total_tokens_m"@, output)
    &&& m.num_params_m == float_metric_of(patterns, "num_params_m"@, output)
    &&& m.learning_rate == float_metric_of(patterns, "learning_rate"@, output)
    &&& m.num_steps == int_metric_of(patterns, "num_steps"@, output)
    &&& m.batch_size == int_metric_of(patterns, "batch_size"@, output)
    &&& m.depth == (match int_metric_of(patterns, "depth"@, output) {
        Some(n) => Some(n as u32),
        None => None,
    })
    &&& forall|name: Seq<char>|
        #[trigger] lookup(m.extra, name) == if is_known_metric(name) {
            None
        } else {
            float_metric_of(patterns, name, output)
        }
}

/// Whether the patterns, taken by name, find any of `val_bpb`,
/// `peak_vram_mb`, `training_seconds`, or a floating-point metric under a
/// name without a field of its own.
pub open spec fn primary_found(patterns: Seq<(Seq<char>, Seq<char>)>, output: Seq<char>) -> bool {
    ||| float_metric_of(patterns, "val_bpb"@, output) is Some
    ||| float_metric_of(patterns, "peak_vram_mb"@, output) is Some
    ||| float_metric_of(patterns, "training_seconds"@, output) is Some
    ||| exists|name: Seq<char>|
        !is_known_metric(name) && (#[trigger] float_metric_of(patterns, name, output)) is Some
}

/// The additional metrics only ever carry names without a field of their own.
proof fn lemma_extra_names_unknown(patterns: Seq<(Seq<char>, Seq<char>)>, output: Seq<char>)
    ensures
        forall|j: int|
            0 <= j < extract_spec(patterns, output).extra.len() ==> !is_known_metric(
                #[trigger] extract_spec(patterns, output).extra[j].0,
            ),
    decreases patterns.len(),
{
    if patterns.len() > 0 {
        let d = patterns.drop_last();
        let x = patterns.last();
        lemma_extra_names_unknown(d, output);
        let prev = extract_spec(d, output);
        if let Some(g) = regex_first_group(x.1, output) {
            lemma_record_fields(prev, x.0, g);
            if !is_known_metric(x.0) && is_float_literal(g) {
                lemma_name_index_shape(prev.extra, x.0);
                let e = insert_spec(prev.extra, x.0, g);
                assert forall|j: int| 0 <= j < e.len() implies !is_known_metric(#[trigger] e[j].0) by {
                    if j < prev.extra.len() && e[j] != (x.0, g) {
                        assert(e[j] == prev.extra[j]);
                    }
                }
            }
        }
    }
}

/// The additional metrics that `extract_all` finds never repeat a name.
proof fn lemma_extract_extra_distinct(patterns: Seq<(Seq<char>, Seq<char>)>, output: Seq<char>)
    ensures
        names_distinct(extract_spec(patterns, output).extra),
    decreases patterns.len(),
{
    if patterns.len() > 0 {
        let d = patterns.drop_last();
        let x = patterns.last();
        lemma_extract_extra_distinct(d, output);
        let prev = extract_spec(d, output);
        if let Some(g) = regex_first_group(x.1, output) {
            lemma_record_fields(prev, x.0, g);
            lemma_insert_distinct(prev.extra, x.0, g);
        }
    } else {
        assert(extract_spec(patterns, output).extra =~= Seq::<(Seq<char>, Seq<char>)>::empty());
    }
}

/// With distinct names, what `extract_all` finds reads by name, and whether
/// it finds anything is `primary_found`.
proof fn lemma_primary_found(patterns: Seq<(Seq<char>, Seq<char>)>, output: Seq<char>)
    requires
        names_distinct(patterns),
    ensures
        reads_by_name(extract_spec(patterns, output), patterns, output),
        has_primary(extract_spec(patterns, output)) == primary_found(patterns, output),
{
    let m = extract_spec(patterns, output);
    lemma_extract_by_name(patterns, output);
    lemma_extra_names_unknown(patterns, output);
    assert forall|name: Seq<char>|
        #[trigger] lookup(m.extra, name) == if is_known_metric(name) {
            None
        } else {
            float_metric_of(patterns, name, output)
        } by {
        if is_known_metric(name) {
            lemma_name_index_shape(m.extra, name);
        }
    }
    if m.extra.len() > 0 {
        let n = m.extra[0].0;
        lemma_name_index(m.extra, n, 0);
        assert(!is_known_metric(n));
        assert(lookup(m.extra, n) is Some);
        assert(float_metric_of(patterns, n, output) is Some);
    }
    if exists|name: Seq<char>|
        !is_known_metric(name) && (#[trigger] float_metric_of(patterns, name, output)) is Some {
        let n = choose|name: Seq<char>|
            !is_known_metric(name) && (#[trigger] float_metric_of(patterns, name, output)) is Some;
        assert(lookup(m.extra, n) is Some);
        lemma_name_index_shape(m.extra, n);
    }
}

/// What `extract_all` finds does not depend on the order of the pattern
/// table: two tables with distinct names that store the same pattern under
/// every name give the same metrics field by field, the same additional
/// metric under every name, and the same found / not-found decision.
pub proof fn lemma_extract_order_independent(
    patterns1: Seq<(Seq<char>, Seq<char>)>,
    patterns2: Seq<(Seq<char>, Seq<char>)>,
    output: Seq<char>,
)
    requires
        names_distinct(patterns1),
        names_distinct(patterns2),
        forall|name: Seq<char>| #[trigger] lookup(patterns1, name) == lookup(patterns2, name),
    ensures
        ({
            let m1 = extract_spec(patterns1, output);
            let m2 = extract_spec(patterns2, output);
            &&& m1.val_bpb == m2.val_bpb
            &&& m1.peak_vram_mb == m2.peak_vram_mb
            &&& m1.training_seconds == m2.training_seconds
            &&& m1.total_seconds == m2.total_seconds
            &&& m1.mfu_percent == m2.mfu_percent
            &&& m1.total_tokens_m == m2.total_tokens_m
            &&& m1.num_steps == m2.num_steps
            &&& m1.num_params_m == m2.num_params_m
            &&& m1.depth == m2.depth
            &&& m1.batch_size == m2.batch_size
            &&& m1.learning_rate == m2.learning_rate
            &&& forall|name: Seq<char>| #[trigger] lookup(m1.extra, name) == lookup(m2.extra, name)
            &&& has_primary(m1) == has_primary(m2)
        }),
{
    lemma_primary_found(patterns1, output);
    lemma_primary_found(patterns2, output);
    assert forall|name: Seq<char>|
        #[trigger] float_metric_of(patterns1, name, output) == float_metric_of(patterns2, name, output) by {
        assert(lookup(patterns1, name) == lookup(patterns2, name));
    }
    assert(lookup(patterns1, "num_steps"@) == lookup(patterns2, "num_steps"@));
    assert(lookup(patterns1, "batch_size"@) == lookup(patterns2, "batch_size"@));
    assert(lookup(patterns1, "depth"@) == lookup(patterns2, "depth"@));
    let m1 = extract_spec(patterns1, output);
    let m2 = extract_spec(patterns2, output);
    assert forall|name: Seq<char>| #[trigger] lookup(m1.extra, name) == lookup(m2.extra, name) by {
        assert(lookup(m1.extra, name) == if is_known_metric(name) {
            None
        } else {
            float_metric_of(patterns1, name, output)
        });
        assert(lookup(m2.extra, name) == if is_known_metric(name) {
            None
        } else {
            float_metric_of(patterns2, name, output)
        });
        assert(float_metric_of(patterns1, name, output) == float_metric_of(patterns2, name, output));
    }
    assert(primary_found(patterns1, output) == primary_found(patterns2, output)) by {
        if primary_found(patterns1, output) && float_metric_of(patterns1, "val_bpb"@, output) is None
            && float_metric_of(patterns1, "peak_vram_mb"@, output) is None
            && float_metric_of(patterns1, "training_seconds"@, output) is None {
            let n = choose|name: Seq<char>|
                !is_known_metric(name) && (#[trigger] float_metric_of(patterns1, name, output)) is Some;
            assert(float_metric_of(patterns1, n, output) == float_metric_of(patterns2, n, output));
        }
        if primary_found(patterns2, output) && float_metric_of(patterns2, "val_bpb"@, output) is None
            && float_metric_of(patterns2, "peak_vram_mb"@, output) is None
            && float_metric_of(patterns2, "training_seconds"@, output) is None {
            let n = choose|name: Seq<char>|
                !is_known_metric(name) && (#[trigger] float_metric_of(patterns2, name, output)) is Some;
            assert(float_metric_of(patterns1, n, output) == float_metric_of(patterns2, n, output));
        }
    }
}

/// The default table stores, under each default metric name, the regular
/// expression that reads that metric from nanoGPT-style output.
pub proof fn lemma_default_lookup()
    ensures
        lookup(default_patterns(), "val_bpb"@) == Some(r"val_bpb:\s*([\d.]+)"@),
        lookup(default_patterns(), "peak_vram_mb"@) == Some(r"peak_vram_mb:\s*([\d.]+)"@),
        lookup(default_patterns(), "training_seconds"@) == Some(r"training_seconds:\s*([\d.]+)"@),
        lookup(default_patterns(), "total_seconds"@) == Some(r"total_seconds:\s*([\d.]+)"@),
        lookup(default_patterns(), "mfu_percent"@) == Some(r"mfu_percent:\s*([\d.]+)"@),
        lookup(default_patterns(), "total_tokens_m"@) == Some(r"total_tokens_M:\s*([\d.]+)"@),
        lookup(default_patterns(), "num_steps"@) == Some(r"num_steps:\s*(\d+)"@),
        lookup(default_patterns(), "num_params_m"@) == Some(r"num_params_M:\s*([\d.]+)"@),
        lookup(default_patterns(), "depth"@) == Some(r"depth:\s*(\d+)"@),
        lookup(default_patterns(), "batch_size"@) == Some(r"batch_size:\s*(\d+)"@),
        lookup(default_patterns(), "learning_rate"@) == Some(r"(?:learning_rate|lr):\s*([\d.e-]+)"@),
        lookup(default_patterns(), "val_loss"@) == Some(r"(?:val_loss|validation_loss|validation error):\s*([\d.]+)"@),
        lookup(default_patterns(), "train_loss"@) == Some(r"(?:train_loss|training_loss|training error):\s*([\d.]+)"@),
        lookup(default_patterns(), "accuracy"@) == Some(r"(?:accuracy|acc):\s*([\d.]+)"@),
        lookup(default_patterns(), "perplexity"@) == Some(r"perplexity:\s*([\d.]+)"@),
        lookup(default_patterns(), "memory_mb"@) == Some(r"(?:peak_)?memory(?:_mb)?:\s*([\d.]+)"@),
        lookup(default_patterns(), "peak_memory"@) == Some(r"peak_memory:\s*([\d.]+)"@),
        lookup(default_patterns(), "elapsed"@) == Some(r"(?:elapsed|wall.?clock|time):\s*([\d.]+)"@),
{
    let ds = default_patterns();
    lemma_default_names_distinct();
    lemma_lookup_distinct(ds, 0);
    lemma_lookup_distinct(ds, 1);
    lemma_lookup_distinct(ds, 2);
    lemma_lookup_distinct(ds, 3);
    lemma_lookup_distinct(ds, 4);
    lemma_lookup_distinct(ds, 5);
    lemma_lookup_distinct(ds, 6);
    lemma_lookup_distinct(ds, 7);
    lemma_lookup_distinct(ds, 8);
    lemma_lookup_distinct(ds, 9);
    lemma_lookup_distinct(ds, 10);
    lemma_lookup_distinct(ds, 11);
    lemma_lookup_distinct(ds, 12);
    lemma_lookup_distinct(ds, 13);
    lemma_lookup_distinct(ds, 14);
    lemma_lookup_distinct(ds, 15);
    lemma_lookup_distinct(ds, 16);
    lemma_lookup_distinct(ds, 17);
}

/// With the default patterns, every metric that `extract_all` reports is what
/// its own default regular expression reads from the output: each
/// floating-point field is the floating-point capture of its pattern, each
/// integer field is its pattern's capture read as a `u64` (`depth` keeping
/// its low 32 bits), and each other default metric appears among the
/// additional metrics exactly as its pattern reads it.
pub proof fn lemma_default_metrics(output: Seq<char>)
    ensures
        extract_spec(default_patterns(), output).val_bpb == float_capture(r"val_bpb:\s*([\d.]+)"@, output),
        extract_spec(default_patterns(), output).peak_vram_mb == float_capture(r"peak_vram_mb:\s*([\d.]+)"@, output),
        extract_spec(default_patterns(), output).training_seconds == float_capture(r"training_seconds:\s*([\d.]+)"@, output),
        extract_spec(default_patterns(), output).total_seconds == float_capture(r"total_seconds:\s*([\d.]+)"@, output),
        extract_spec(default_patterns(), output).mfu_percent == float_capture(r"mfu_percent:\s*([\d.]+)"@, output),
        extract_spec(default_patterns(), output).total_tokens_m == float_capture(r"total_tokens_M:\s*([\d.]+)"@, output),
        extract_spec(default_patterns(), output).num_params_m == float_capture(r"num_params_M:\s*([\d.]+)"@, output),
        extract_spec(default_patterns(), output).learning_rate == float_capture(r"(?:learning_rate|lr):\s*([\d.e-]+)"@, output),
        extract_spec(default_patterns(), output).num_steps == (match regex_first_group(r"num_steps:\s*(\d+)"@, output) {
            Some(g) => parse_u64_spec(g),
            None => None,
        }),
        extract_spec(default_patterns(), output).batch_size == (match regex_first_group(r"batch_size:\s*(\d+)"@, output) {
            Some(g) => parse_u64_spec(g),
            None => None,
        }),
        extract_spec(default_patterns(), output).depth == (match (match regex_first_group(r"depth:\s*(\d+)"@, output) {
            Some(g) => parse_u64_spec(g),
            None => None,
        }) {
            Some(n) => Some(n as u32),
            None => None,
        }),
        lookup(extract_spec(default_patterns(), output).extra, "val_loss"@) == float_capture(r"(?:val_loss|validation_loss|validation error):\s*([\d.]+)"@, output),
        lookup(extract_spec(default_patterns(), output).extra, "train_loss"@) == float_capture(r"(?:train_loss|training_loss|training error):\s*([\d.]+)"@, output),
        lookup(extract_spec(default_patterns(), output).extra, "accuracy"@) == float_capture(r"(?:accuracy|acc):\s*([\d.]+)"@, output),
        lookup(extract_spec(default_patterns(), output).extra, "perplexity"@) == float_capture(r"perplexity:\s*([\d.]+)"@, output),
        lookup(extract_spec(default_patterns(), output).extra, "memory_mb"@) == float_capture(r"(?:peak_)?memory(?:_mb)?:\s*([\d.]+)"@, output),
        lookup(extract_spec(default_patterns(), output).extra, "peak_memory"@) == float_capture(r"peak_memory:\s*([\d.]+)"@, output),
        lookup(extract_spec(default_patterns(), output).extra, "elapsed"@) == float_capture(r"(?:elapsed|wall.?clock|time):\s*([\d.]+)"@, output),
{
    lemma_default_lookup();
    lemma_default_names_distinct();
    lemma_extract_by_name(default_patterns(), output);
    reveal_strlit("val_bpb");
    reveal_strlit("peak_vram_mb");
    reveal_strlit("training_seconds");
    reveal_strlit("total_seconds");
    reveal_strlit("mfu_percent");
    reveal_strlit("total_tokens_m");
    reveal_strlit("num_steps");
    reveal_strlit("num_params_m");
    reveal_strlit("depth");
    reveal_strlit("batch_size");
    reveal_strlit("learning_rate");
    reveal_strlit("val_loss");
    reveal_strlit("train_loss");
    reveal_strlit("accuracy");
    reveal_strlit("perplexity");
    reveal_strlit("memory_mb");
    reveal_strlit("peak_memory");
    reveal_strlit("elapsed");
    assert("val_bpb"@.len() == 7 && "val_bpb"@[0] == 'v');
    assert("peak_vram_mb"@.len() == 12 && "peak_vram_mb"@[0] == 'p');
    assert("training_seconds"@.len() == 16 && "training_seconds"@[0] == 't');
    assert("total_seconds"@.len() == 13 && "total_seconds"@[0] == 't');
    assert("mfu_percent"@.len() == 11 && "mfu_percent"@[0] == 'm');
    assert("total_tokens_m"@.len() == 14 && "total_tokens_m"@[0] == 't');
    assert("num_steps"@.len() == 9 && "num_steps"@[0] == 'n');
    assert("num_params_m"@.len() == 12 && "num_params_m"@[0] == 'n');
    assert("depth"@.len() == 5 && "depth"@[0] == 'd');
    assert("batch_size"@.len() == 10 && "batch_size"@[0] == 'b');
    assert("learning_rate"@.len() == 13 && "learning_rate"@[0] == 'l');
    assert("val_loss"@.len() == 8 && "val_loss"@[0] == 'v');
    assert("train_loss"@.len() == 10 && "train_loss"@[0] == 't');
    assert("accuracy"@.len() == 8 && "accuracy"@[0] == 'a');
    assert("perplexity"@.len() == 10 && "perplexity"@[0] == 'p');
    assert("memory_mb"@.len() == 9 && "memory_mb"@[0] == 'm');
    assert("peak_memory"@.len() == 11 && "peak_memory"@[0] == 'p');
    assert("elapsed"@.len() == 7 && "elapsed"@[0] == 'e');
}

/// Nothing recorded counts as nothing found; recording a value makes the
/// metrics count as found exactly when they already did, or the value is a
/// floating-point literal for `val_bpb`, `peak_vram_mb`, `training_seconds`
/// or a name without a field of its own.
pub proof fn lemma_record_found(m: MetricsView, name: Seq<char>, value: Seq<char>)
    ensures
        !has_primary(empty_metrics()),
        has_primary(record_spec(m, name, value)) == (has_primary(m) || (is_float_literal(value) && (
        name == "val_bpb"@ || name == "peak_vram_mb"@ || name == "training_seconds"@
            || !is_known_metric(name)))),
{
    lemma_record_fields(m, name, value);
    if !is_known_metric(name) && is_float_literal(value) {
        lemma_name_index_shape(m.extra, name);
    }
}

/// What `extract_with_regex` reads is the pattern's first capture group when,
/// and only when, that group is a floating-point literal.
pub proof fn lemma_float_capture(pattern: Seq<char>, output: Seq<char>)
    ensures
        float_capture(pattern, output) matches Some(v) ==> regex_first_group(pattern, output)
            == Some(v) && is_float_literal(v),
        regex_first_group(pattern, output) is Some && is_float_literal(
            regex_first_group(pattern, output).unwrap(),
        ) ==> float_capture(pattern, output) == regex_first_group(pattern, output),
        regex_first_group(pattern, output) is None ==> float_capture(pattern, output) is None,
{
}

/// Extending the pattern table by one pattern records, on top of what the
/// shorter table finds, that pattern's capture under its name, when it
/// captures anything; the empty table finds nothing.
pub proof fn lemma_extract_push(
    patterns: Seq<(Seq<char>, Seq<char>)>,
    x: (Seq<char>, Seq<char>),
    output: Seq<char>,
)
    ensures
        extract_spec(Seq::empty(), output) == empty_metrics(),
        extract_spec(patterns.push(x), output) == match regex_first_group(x.1, output) {
            Some(g) => record_spec(extract_spec(patterns, output), x.0, g),
            None => extract_spec(patterns, output),
        },
{
    assert(patterns.push(x).drop_last() =~= patterns);
}

/// A pattern added under a name without a field of its own is what
/// `extract_all` reads that name with: the additional metric it reports
/// under the name is exactly what `extract_with_regex` reads with the
/// pattern.
pub proof fn lemma_added_pattern_extracted(
    patterns: Seq<(Seq<char>, Seq<char>)>,
    name: Seq<char>,
    pattern: Seq<char>,
    output: Seq<char>,
)
    requires
        names_distinct(patterns),
        !is_known_metric(name),
    ensures
        lookup(extract_spec(insert_spec(patterns, name, pattern), output).extra, name)
            == float_capture(pattern, output),
{
    lemma_insert_distinct(patterns, name, pattern);
    lemma_extract_by_name(insert_spec(patterns, name, pattern), output);
    lemma_lookup_insert(patterns, name, pattern, name);
}

/// With the default patterns, the `val_bpb`, `peak_vram_mb` and
/// `training_seconds` that `extract_all` reports are exactly what
/// `extract_val_bpb`, the megabyte reading of `extract_memory_gb` and the
/// first choice of `extract_training_time` read from the same output.
pub proof fn lemma_default_primary_metrics(output: Seq<char>)
    ensures
        extract_spec(default_patterns(), output).val_bpb == float_capture(
            r"val_bpb:\s*([\d.]+)"@,
            output,
        ),
        extract_spec(default_patterns(), output).peak_vram_mb == float_capture(
            r"peak_vram_mb:\s*([\d.]+)"@,
            output,
        ),
        extract_spec(default_patterns(), output).training_seconds == float_capture(
            r"training_seconds:\s*([\d.]+)"@,
            output,
        ),
{
    let ds = default_patterns();
    lemma_default_names_distinct();
    lemma_extract_by_name(ds, output);
    reveal_strlit("val_bpb");
    reveal_strlit("peak_vram_mb");
    reveal_strlit("training_seconds");
    assert(ds[0].0 == "val_bpb"@ && ds[1].0 == "peak_vram_mb"@ && ds[2].0 == "training_seconds"@);
    assert("val_bpb"@.len() == 7 && "peak_vram_mb"@.len() == 12 && "training_seconds"@.len() == 16);
    lemma_name_index(ds, "val_bpb"@, 0);
    lemma_name_index(ds, "peak_vram_mb"@, 1);
    lemma_name_index(ds, "training_seconds"@, 2);
}

/// Extracts metrics from text output with a table of named regular
/// expressions; each name occurs once.
#[derive(Debug)]
pub struct MetricParser {
    entries: Vec<NamedValue>,
}

impl MetricParser {
    /// The (name, pattern source) table, in order.
    pub closed spec fn patterns(&self) -> Seq<(Seq<char>, Seq<char>)> {
        named_view(self.entries@)
    }

    /// No two patterns share a name.
    pub open spec fn wf(&self) -> bool {
        names_distinct(self.patterns())
    }

    /// Every parser keeps its pattern names distinct.
    #[verifier::type_invariant]
    spec fn names_unique(self) -> bool {
        names_distinct(named_view(self.entries@))
    }

    /// A parser with the default patterns.
    pub fn new() -> (r: Self)
        ensures
            r.patterns() == default_patterns(),
            r.wf(),
    {
        let mut entries: Vec<NamedValue> = Vec::new();
        entries.push(NamedValue { name: String::from_str("val_bpb"), value: String::from_str(r"val_bpb:\s*([\d.]+)") });
        entries.push(NamedValue { name: String::from_str("peak_vram_mb"), value: String::from_str(r"peak_vram_mb:\s*([\d.]+)") });
        entries.push(NamedValue { name: String::from_str("training_seconds"), value: String::from_str(r"training_seconds:\s*([\d.]+)") });
        entries.push(NamedValue { name: String::from_str("total_seconds"), value: String::from_str(r"total_seconds:\s*([\d.]+)") });
        entries.push(NamedValue { name: String::from_str("mfu_percent"), value: String::from_str(r"mfu_percent:\s*([\d.]+)") });
        entries.push(NamedValue { name: String::from_str("total_tokens_m"), value: String::from_str(r"total_tokens_M:\s*([\d.]+)") });
        entries.push(NamedValue { name: String::from_str("num_steps"), value: String::from_str(r"num_steps:\s*(\d+)") });
        entries.push(NamedValue { name: String::from_str("num_params_m"), value: String::from_str(r"num_params_M:\s*([\d.]+)") });
        entries.push(NamedValue { name: String::from_str("depth"), value: String::from_str(r"depth:\s*(\d+)") });
        entries.push(NamedValue { name: String::from_str("batch_size"), value: String::from_str(r"batch_size:\s*(\d+)") });
        entries.push(NamedValue { name: String::from_str("learning_rate"), value: String::from_str(r"(?:learning_rate|lr):\s*([\d.e-]+)") });
        entries.push(NamedValue { name: String::from_str("val_loss"), value: String::from_str(r"(?:val_loss|validation_loss|validation error):\s*([\d.]+)") });
        entries.push(NamedValue { name: String::from_str("train_loss"), value: String::from_str(r"(?:train_loss|training_loss|training error):\s*([\d.]+)") });
        entries.push(NamedValue { name: String::from_str("accuracy"), value: String::from_str(r"(?:accuracy|acc):\s*([\d.]+)") });
        entries.push(NamedValue { name: String::from_str("perplexity"), value: String::from_str(r"perplexity:\s*([\d.]+)") });
        entries.push(NamedValue { name: String::from_str("memory_mb"), value: String::from_str(r"(?:peak_)?memory(?:_mb)?:\s*([\d.]+)") });
        entries.push(NamedValue { name: String::from_str("peak_memory"), value: String::from_str(r"peak_memory:\s*([\d.]+)") });
        entries.push(NamedValue { name: String::from_str("elapsed"), value: String::from_str(r"(?:elapsed|wall.?clock|time):\s*([\d.]+)") });
        proof {
            lemma_default_names_distinct();
            assert(named_view(entries@) =~= default_patterns());
        }
        MetricParser { entries }
    }

    /// A copy of the (name, pattern source) table, in order.
    pub fn pattern_table(&self) -> (r: Vec<NamedValue>)
        ensures
            named_view(r@) == self.patterns(),
    {
        let mut entries: Vec<NamedValue> = Vec::new();
        let mut i: usize = 0;
        while i < self.entries.len()
            invariant
                i <= self.entries.len(),
                entries@.len() == i,
                named_view(entries@) =~= named_view(self.entries@).take(i as int),
            decreases self.entries.len() - i,
        {
            let e = &self.entries[i];
            let ghost before = entries@;
            entries.push(NamedValue { name: e.name.clone(), value: e.value.clone() });
            assert(entries@ =~= before.push(entries@[i as int]));
            assert(named_view(self.entries@).take(i + 1) =~= named_view(self.entries@).take(
                i as int,
            ).push(named_view(self.entries@)[i as int]));
            i = i + 1;
        }
        proof {
            assert(named_view(self.entries@).take(i as int) =~= named_view(self.entries@));
        }
        entries
    }

    /// Adds (or replaces) the pattern stored under `name`, once the regular
    /// expression has compiled.
    pub fn add_pattern(&mut self, name: &str, pattern: &str) -> (r: Result<(), MetricError>)
        ensures
            r is Ok <==> regex_compiles(pattern@),
            r is Ok ==> final(self).patterns() == insert_spec(old(self).patterns(), name@, pattern@),
            r is Err ==> final(self).patterns() == old(self).patterns(),
            final(self).wf(),
    {
        proof {
            use_type_invariant(&*self);
        }
        match compile_pattern(pattern) {
            Ok(()) => {
                let ghost before = self.patterns();
                proof {
                    lemma_insert_distinct(before, name@, pattern@);
                }
                let mut entries: Vec<NamedValue> = Vec::new();
                std::mem::swap(&mut entries, &mut self.entries);
                insert_named(&mut entries, name, pattern);
                self.entries = entries;
                Ok(())
            },
            Err(e) => Err(MetricError::InvalidPattern(regex_error_message(&e))),
        }
    }

    /// Extracts every metric that the patterns find in `output`; `None` when
    /// none of `val_bpb`, `peak_vram_mb`, `training_seconds` or an additional
    /// metric was found.
    pub fn extract_all(&self, output: &str) -> (r: Option<ParsedMetrics>)
        ensures
            match r {
                Some(m) => m@ == extract_spec(self.patterns(), output@) && has_primary(m@),
                None => !has_primary(extract_spec(self.patterns(), output@)),
            },
            self.wf(),
            r is Some <==> primary_found(self.patterns(), output@),
            r matches Some(m) ==> reads_by_name(m@, self.patterns(), output@),
            r matches Some(m) ==> m.wf(),
    {
        proof {
            use_type_invariant(self);
            lemma_extract_extra_distinct(self.patterns(), output@);
            lemma_extract_by_name(self.patterns(), output@);
            lemma_primary_found(self.patterns(), output@);
        }
        let mut m = ParsedMetrics::empty();
        let ghost ps = self.patterns();
        let mut i: usize = 0;
        while i < self.entries.len()
            invariant
                ps == self.patterns(),
                ps == named_view(self.entries@),
                i <= self.entries.len(),
                m@ == extract_spec(ps.take(i as int), output@),
            decreases self.entries.len() - i,
        {
            let e = &self.entries[i];
            assert(ps.take(i + 1).drop_last() =~= ps.take(i as int));
            assert(ps[i as int] == (e.name@, e.value@));
            match first_group(e.value.as_str(), output) {
                Some(g) => m.record(e.name.as_str(), g.as_str()),
                None => {},
            }
            i = i + 1;
        }
        assert(ps.take(i as int) =~= ps);
        if m.has_primary() {
            Some(m)
        } else {
            None
        }
    }

    /// Reads the first capture group of `regex_pattern` from `output`, when
    /// it is a floating-point literal.
    pub fn extract_with_regex(&self, output: &str, regex_pattern: &str) -> (r: Option<String>)
        ensures
            opt_text(r) == float_capture(regex_pattern@, output@),
    {
        match first_group(regex_pattern, output) {
            Some(g) => if float_literal(g.as_str()) {
                Some(g)
            } else {
                None
            },
            None => None,
        }
    }

    /// Reads `val_bpb` from `output`.
    pub fn extract_val_bpb(&self, output: &str) -> (r: Option<String>)
        ensures
            opt_text(r) == float_capture(r"val_bpb:\s*([\d.]+)"@, output@),
    {
        self.extract_with_regex(output, r"val_bpb:\s*([\d.]+)")
    }

    /// Reads the peak memory from `output`: `peak_vram_mb` (in megabytes)
    /// if present, else `peak_memory` (taken as gigabytes as it stands).
    pub fn extract_memory_gb(&self, output: &str) -> (r: Option<MemoryReading>)
        ensures
            match r {
                Some(MemoryReading::VramMegabytes(mb)) => float_capture(
                    r"peak_vram_mb:\s*([\d.]+)"@,
                    output@,
                ) == Some(mb@),
                Some(MemoryReading::PeakMemory(gb)) => float_capture(
                    r"peak_vram_mb:\s*([\d.]+)"@,
                    output@,
                ) is None && float_capture(r"peak_memory:\s*([\d.]+)"@, output@) == Some(gb@),
                None => float_capture(r"peak_vram_mb:\s*([\d.]+)"@, output@) is None
                    && float_capture(r"peak_memory:\s*([\d.]+)"@, output@) is None,
            },
    {
        match self.extract_with_regex(output, r"peak_vram_mb:\s*([\d.]+)") {
            Some(mb) => Some(MemoryReading::VramMegabytes(mb)),
            None => match self.extract_with_regex(output, r"peak_memory:\s*([\d.]+)") {
                Some(gb) => Some(MemoryReading::PeakMemory(gb)),
                None => None,
            },
        }
    }

    /// Reads the training time in seconds from `output`: `training_seconds`
    /// if present, else `train_time`.
    pub fn extract_training_time(&self, output: &str) -> (r: Option<String>)
        ensures
            opt_text(r) == (match float_capture(r"training_seconds:\s*([\d.]+)"@, output@) {
                Some(t) => Some(t),
                None => float_capture(r"train_time:\s*([\d.]+)"@, output@),
            }),
    {
        match self.extract_with_regex(output, r"training_seconds:\s*([\d.]+)") {
            Some(t) => Some(t),
            None => self.extract_with_regex(output, r"train_time:\s*([\d.]+)"),
        }
    }
}

impl Clone for MetricParser {
    /// A parser with the same pattern table.
    fn clone(&self) -> (r: Self)
        ensures
            r.patterns() == self.patterns(),
    {
        proof {
            use_type_invariant(self);
        }
        let entries = self.pattern_table();
        MetricParser { entries }
    }
}

impl Default for MetricParser {
    fn default() -> (r: Self)
        ensures
            r.patterns() == default_patterns(),
            r.wf(),
    {
        MetricParser::new()
    }
}

/// A peak-memory reading and the unit it comes in.
#[derive(Debug, Clone)]
pub enum MemoryReading {
    /// `peak_vram_mb`, in megabytes.
    VramMegabytes(String),
    /// `peak_memory`, used as a number of gigabytes.
    PeakMemory(String),
}

} // verus!
