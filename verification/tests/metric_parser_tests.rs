use nca_core::metric_parser::{MemoryReading, MetricError, MetricParser, ParsedMetrics};

fn as_f64(s: &str) -> f64 {
    s.parse::<f64>().unwrap()
}

#[test]
fn test_parse_val_bpb() {
    let parser = MetricParser::default();
    let output = "val_bpb: 0.997900\nother stuff";

    let result = parser.extract_val_bpb(output);
    assert!(result.is_some());
    assert!((as_f64(&result.unwrap()) - 0.997900).abs() < 0.000001);
}

#[test]
fn test_parse_multiple_metrics() {
    let parser = MetricParser::default();
    let output = r#"val_bpb: 0.997900
training_seconds: 300.1
total_seconds: 325.9
peak_vram_mb: 45060.2
mfu_percent: 39.80
total_tokens_M: 499.6
num_steps: 953
num_params_M: 50.3
depth: 8"#;

    let metrics = parser.extract_all(output).unwrap();

    assert!((as_f64(metrics.val_bpb.as_ref().unwrap()) - 0.997900).abs() < 0.000001);
    assert!((as_f64(metrics.peak_vram_mb.as_ref().unwrap()) - 45060.2).abs() < 0.1);
    assert_eq!(metrics.num_steps.unwrap(), 953);
    assert_eq!(metrics.depth.unwrap(), 8);
}

#[test]
fn test_custom_regex() {
    let mut parser = MetricParser::new();
    parser
        .add_pattern("custom_metric", r"my_metric:\s*([\d.]+)")
        .unwrap();

    let output = "my_metric: 42.5\nother stuff";
    let result = parser.extract_with_regex(output, r"my_metric:\s*([\d.]+)");

    assert!(result.is_some());
    assert!((as_f64(&result.unwrap()) - 42.5).abs() < 0.001);
}

#[test]
fn test_memory_gb() {
    let parser = MetricParser::default();
    let output = "peak_vram_mb: 45060.2";

    let mb = as_f64(
        &parser
            .extract_with_regex(output, r"peak_vram_mb:\s*([\d.]+)")
            .unwrap(),
    );
    let gb = mb / 1024.0;

    assert!((gb - 44.0).abs() < 0.1);
}

#[test]
fn extract_all_keeps_captured_text() {
    let parser = MetricParser::new();
    let metrics = parser
        .extract_all("val_bpb: 0.997900\ntraining_seconds: 300.1\nbatch_size: 64\nlr: 3e-4")
        .unwrap();
    assert_eq!(metrics.val_bpb.as_deref(), Some("0.997900"));
    assert_eq!(metrics.training_seconds.as_deref(), Some("300.1"));
    assert_eq!(metrics.batch_size, Some(64));
    assert_eq!(metrics.learning_rate.as_deref(), Some("3e-4"));
    assert_eq!(metrics.num_steps, None);
}

#[test]
fn extract_all_none_without_primary_metrics() {
    let parser = MetricParser::new();
    // integer metrics alone do not count as a parse
    assert!(parser.extract_all("num_steps: 953\ndepth: 8").is_none());
    assert!(parser.extract_all("nothing to see here").is_none());
}

#[test]
fn extract_all_collects_additional_metrics() {
    let parser = MetricParser::new();
    let metrics = parser.extract_all("val_loss: 1.25\nperplexity: 3.5").unwrap();
    let mut extra: Vec<(String, String)> = metrics
        .extra
        .iter()
        .map(|e| (e.name.clone(), e.value.clone()))
        .collect();
    extra.sort();
    assert_eq!(
        extra,
        vec![
            ("perplexity".to_string(), "3.5".to_string()),
            ("val_loss".to_string(), "1.25".to_string())
        ]
    );
    assert!(metrics.val_bpb.is_none());
}

#[test]
fn extract_all_skips_values_that_are_not_numbers() {
    let parser = MetricParser::new();
    // "1.2.3" is captured by the pattern but is not a floating-point literal
    assert!(parser.extract_all("val_bpb: 1.2.3").is_none());
}

#[test]
fn depth_keeps_low_32_bits() {
    let mut m = ParsedMetrics::default();
    m.record("depth", "4294967297");
    assert_eq!(m.depth, Some(1));
    m.record("num_steps", "18446744073709551616");
    assert_eq!(m.num_steps, None);
}

#[test]
fn record_replaces_additional_metric() {
    let mut m = ParsedMetrics::empty();
    m.record("loss", "1.5");
    m.record("loss", "0.5");
    m.record("acc", "not a number");
    assert_eq!(m.extra.len(), 1);
    assert_eq!(m.extra[0].name, "loss");
    assert_eq!(m.extra[0].value, "0.5");
    assert!(m.has_primary());
}

#[test]
fn add_pattern_rejects_invalid_regex() {
    let mut parser = MetricParser::new();
    let r = parser.add_pattern("broken", r"foo(bar");
    assert!(matches!(r, Err(MetricError::InvalidPattern(_))));
    // the parser is unchanged and keeps working
    assert_eq!(parser.extract_val_bpb("val_bpb: 1.5").as_deref(), Some("1.5"));
}

#[test]
fn add_pattern_replaces_existing_pattern() {
    let mut parser = MetricParser::new();
    parser.add_pattern("val_bpb", r"bpb=([\d.]+)").unwrap();
    let m = parser.extract_all("bpb=0.75 val_bpb: 0.9").unwrap();
    assert_eq!(m.val_bpb.as_deref(), Some("0.75"));
}

#[test]
fn memory_reading_prefers_vram() {
    let parser = MetricParser::new();
    match parser.extract_memory_gb("peak_memory: 3.0\npeak_vram_mb: 2048") {
        Some(MemoryReading::VramMegabytes(mb)) => assert_eq!(mb, "2048"),
        other => panic!("unexpected {:?}", other),
    }
    match parser.extract_memory_gb("peak_memory: 3.0") {
        Some(MemoryReading::PeakMemory(gb)) => assert_eq!(gb, "3.0"),
        other => panic!("unexpected {:?}", other),
    }
    assert!(parser.extract_memory_gb("nothing").is_none());
}

#[test]
fn training_time_falls_back_to_train_time() {
    let parser = MetricParser::new();
    assert_eq!(parser.extract_training_time("train_time: 12.5").as_deref(), Some("12.5"));
    assert_eq!(
        parser
            .extract_training_time("train_time: 12.5\ntraining_seconds: 7")
            .as_deref(),
        Some("7")
    );
    assert_eq!(parser.extract_training_time("none"), None);
}

#[test]
fn extract_with_regex_reads_group_one() {
    let parser = MetricParser::new();
    // the result is the captured group, not the whole match or the input
    assert_eq!(
        parser
            .extract_with_regex("passed: 12 tests", r"passed:\s*(\d+)")
            .as_deref(),
        Some("12")
    );
    assert_eq!(parser.extract_with_regex("x", r"(unclosed"), None);
}

#[test]
fn extract_all_agrees_with_single_extractors() {
    let parser = MetricParser::default();
    for output in [
        "val_bpb: 0.5\npeak_vram_mb: 100\ntraining_seconds: 3",
        "val_bpb: .\ntraining_seconds: 1.2.3\npeak_vram_mb: 7.",
        "val_bpb:0.25 val_bpb: 0.75",
    ] {
        let all = parser.extract_all(output);
        let val = all.as_ref().and_then(|m| m.val_bpb.clone());
        let vram = all.as_ref().and_then(|m| m.peak_vram_mb.clone());
        let train = all.as_ref().and_then(|m| m.training_seconds.clone());
        assert_eq!(val, parser.extract_val_bpb(output));
        assert_eq!(
            vram,
            parser.extract_with_regex(output, r"peak_vram_mb:\s*([\d.]+)")
        );
        assert_eq!(
            train,
            parser.extract_with_regex(output, r"training_seconds:\s*([\d.]+)")
        );
    }
}

#[test]
fn default_patterns_all_compile() {
    let parser = MetricParser::default();
    let table = parser.pattern_table();
    assert_eq!(table.len(), 18);
    let mut check = MetricParser::new();
    for entry in &table {
        assert!(check.add_pattern(&entry.name, &entry.value).is_ok(), "{}", entry.name);
    }
    // re-adding every default pattern leaves the table as it was
    let again = check.pattern_table();
    assert_eq!(again.len(), table.len());
    for (a, b) in again.iter().zip(table.iter()) {
        assert_eq!((&a.name, &a.value), (&b.name, &b.value));
    }
}

#[test]
fn clone_keeps_patterns() {
    let mut parser = MetricParser::new();
    parser.add_pattern("score", r"score=([\d.]+)").unwrap();
    let copy = parser.clone();
    let a = parser.pattern_table();
    let b = copy.pattern_table();
    assert_eq!(a.len(), b.len());
    for (x, y) in a.iter().zip(b.iter()) {
        assert_eq!((&x.name, &x.value), (&y.name, &y.value));
    }
}

#[test]
fn additional_metric_names_stay_distinct() {
    let mut parser = MetricParser::new();
    parser.add_pattern("score", r"score=([\d.]+)").unwrap();
    parser.add_pattern("score", r"score:([\d.]+)").unwrap();
    let m = parser.extract_all("score:2.5 score=1.5 val_loss: 0.3").unwrap();
    let mut names: Vec<&str> = m.extra.iter().map(|e| e.name.as_str()).collect();
    names.sort();
    assert_eq!(names, vec!["score", "val_loss"]);
    let score = m.extra.iter().find(|e| e.name == "score").unwrap();
    assert_eq!(score.value, "2.5");
}
