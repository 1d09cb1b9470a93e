use std::time::Duration;

use llmman::cmd::bench::{
    bench_csv, bench_table, decode_span, prefill_span, synthetic_prompt, BenchArgs, BenchChoice, BenchChunk, BenchDelta,
    BenchRow, Measurement, Sample, Usage, DEFAULT_PROMPT,
};

fn sample(ttft_ms: u64, total_ms: u64, prompt_tokens: u32, completion_tokens: u32) -> Sample {
    Sample {
        ttft: Duration::from_millis(ttft_ms),
        total: Duration::from_millis(total_ms),
        prompt_tokens,
        completion_tokens,
    }
}

fn args(model: &str, format: &str, epochs: u32) -> BenchArgs<f32> {
    BenchArgs {
        model: vec![model.to_string()],
        prompt: DEFAULT_PROMPT.to_string(),
        prompt_tokens: 0,
        max_tokens: 200,
        epochs,
        warmup: 0,
        temperature: 0.0,
        timeout: 300,
        format: format.to_string(),
    }
}

fn refusal(args: &BenchArgs<f32>) -> String {
    match args.check() {
        Ok(()) => panic!(),
        Err(e) => e.message(),
    }
}

#[test]
fn run_rejects_zero_epochs_before_touching_the_network() {
    let err = refusal(&args("unused-model", "text", 0));
    assert!(err.contains("--epochs must be at least 1"));
}

#[test]
fn run_rejects_an_unknown_format_before_touching_the_network() {
    let err = refusal(&args("unused-model", "yaml", 1));
    assert!(err.contains("--format must be"));
}

#[test]
fn the_format_is_looked_at_first_and_quoted() {
    assert_eq!(
        refusal(&args("m", "a\"b", 0)),
        "--format must be \"text\" or \"csv\" (got \"a\\\"b\")"
    );
    assert!(args("m", "text", 1).check().is_ok());
    assert!(args("m", "csv", 1).check().is_ok());
}

/// Tokens in a second, by the tokens and the time that a sample gives for them.
fn rate(span: Option<(u64, Duration)>) -> f64 {
    span.map_or(0.0, |(tokens, time)| tokens as f64 / time.as_secs_f64())
}

#[test]
fn prefill_toks_per_sec_divides_prompt_tokens_by_ttft() {
    // 512 prompt tokens processed in exactly 1s => 512 tok/s.
    let s = sample(1000, 5000, 512, 200);
    assert!((rate(prefill_span(&s)) - 512.0).abs() < 0.01);
}

#[test]
fn decode_toks_per_sec_excludes_the_first_token_already_counted_in_ttft() {
    // The first of 200 tokens is within the first second, which leaves 199 over 4s.
    let s = sample(1000, 5000, 512, 200);
    assert!((rate(decode_span(&s)) - 49.75).abs() < 0.01);
    assert_eq!(decode_span(&s), Some((199, Duration::from_secs(4))));
}

#[test]
fn decode_toks_per_sec_is_zero_for_a_single_completion_token() {
    let s = sample(1000, 1000, 512, 1);
    assert_eq!(rate(decode_span(&s)), 0.0);
}

#[test]
fn zero_duration_denominators_report_zero_instead_of_dividing_by_zero() {
    let s = sample(0, 0, 512, 200);
    assert_eq!(rate(prefill_span(&s)), 0.0);
    assert_eq!(rate(decode_span(&s)), 0.0);
}

#[test]
fn spans_end_where_nothing_is_left() {
    // A first token that came behind the end leaves no time.
    assert_eq!(decode_span(&sample(2000, 1000, 0, 5)), None);
    assert_eq!(decode_span(&sample(0, 1000, 0, 0)), None);
    assert_eq!(decode_span(&sample(0, 1, 0, 2)), Some((1, Duration::from_millis(1))));
    assert_eq!(prefill_span(&sample(7, 0, 0, 0)), Some((0, Duration::from_millis(7))));
}

#[test]
fn mean_averages_every_field_across_samples() {
    let a = sample(1000, 3000, 100, 50);
    let b = sample(2000, 5000, 200, 150);
    let m = Sample::mean(&[a, b]);
    assert_eq!(m.ttft, Duration::from_millis(1500));
    assert_eq!(m.total, Duration::from_millis(4000));
    assert_eq!(m.prompt_tokens, 150);
    assert_eq!(m.completion_tokens, 100);
}

#[test]
fn mean_of_a_single_sample_is_itself() {
    let a = sample(1234, 5678, 111, 222);
    let m = Sample::mean(&[a]);
    assert_eq!(m.ttft, a.ttft);
    assert_eq!(m.total, a.total);
    assert_eq!(m.prompt_tokens, a.prompt_tokens);
    assert_eq!(m.completion_tokens, a.completion_tokens);
}

#[test]
fn mean_divides_durations_as_std_does() {
    let d = [Duration::new(10, 999_999_999), Duration::new(0, 1), Duration::new(7, 5)];
    let samples: Vec<Sample> = d
        .iter()
        .map(|t| Sample { ttft: *t, total: *t, prompt_tokens: 2, completion_tokens: 1 })
        .collect();
    let m = Sample::mean(&samples);
    assert_eq!(m.ttft, (d[0] + d[1] + d[2]) / 3);
    assert_eq!(m.prompt_tokens, 2);
}

#[test]
fn no_samples_have_no_mean() {
    assert!(Sample::checked_mean(&[]).is_none());
}

#[test]
fn synthetic_prompt_repeats_a_filler_word_target_tokens_times() {
    assert_eq!(synthetic_prompt(3), "hello hello hello ");
    // Guards against a 0-length (or negative, pre-u32) prompt.
    assert_eq!(synthetic_prompt(0), "hello ");
}

#[test]
fn the_prompt_is_a_filler_where_a_length_is_asked_for() {
    let mut a = args("m", "text", 1);
    assert_eq!(a.sent_prompt(), DEFAULT_PROMPT);
    a.prompt_tokens = 2;
    assert_eq!(a.sent_prompt(), "hello hello ");
}

fn delta(content: Option<&str>, reasoning: Option<&str>, thinking: Option<&str>) -> BenchDelta {
    BenchDelta {
        content: content.map(str::to_string),
        reasoning_content: reasoning.map(str::to_string),
        thinking: thinking.map(str::to_string),
    }
}

fn chunk(delta: BenchDelta, usage: Option<Usage>) -> BenchChunk {
    BenchChunk { choices: vec![BenchChoice { delta }], usage }
}

#[test]
fn tokens_of_any_kind_count() {
    assert!(!delta(None, None, None).has_any_token());
    assert!(!delta(Some(""), Some(""), Some("")).has_any_token());
    assert!(delta(Some("a"), None, None).has_any_token());
    assert!(delta(None, Some("a"), None).has_any_token());
    assert!(delta(None, None, Some("a")).has_any_token());
}

#[test]
fn a_request_is_measured_to_its_first_token_and_its_end() {
    let ms = Duration::from_millis;
    let mut m = Measurement::new();
    m.on_payload("x", Some(&chunk(delta(Some(""), None, None), None)), ms(1));
    m.on_payload("not json", None, ms(2));
    m.on_payload("x", Some(&chunk(delta(None, Some("h"), None), None)), ms(3));
    m.on_payload("x", Some(&chunk(delta(Some("i"), None, None), None)), ms(4));
    let usage = Usage { prompt_tokens: 7, completion_tokens: 9 };
    m.on_payload("x", Some(&BenchChunk { choices: vec![], usage: Some(usage) }), ms(5));
    assert_eq!(
        m.finish("m", ms(6)).err().unwrap(),
        "m: stream ended without a [DONE] terminator (connection dropped mid-response?)"
    );
    m.on_payload("[DONE]", None, ms(6));
    // Nothing counts behind the end.
    m.on_payload("x", Some(&chunk(delta(None, None, None), Some(Usage { prompt_tokens: 0, completion_tokens: 0 }))), ms(7));
    let s = m.finish("m", ms(8)).ok().unwrap();
    assert_eq!((s.ttft, s.total, s.prompt_tokens, s.completion_tokens), (ms(3), ms(8), 7, 9));
}

#[test]
fn a_request_without_usage_is_an_error_and_one_without_tokens_is_all_prefill() {
    let ms = Duration::from_millis;
    let mut m = Measurement::new();
    m.on_payload("[DONE]", None, ms(1));
    assert_eq!(
        m.finish("m", ms(2)).err().unwrap(),
        "m: stream completed without a usage summary — backend may not support stream_options.include_usage"
    );
    let mut m = Measurement::new();
    let usage = Usage { prompt_tokens: 1, completion_tokens: 0 };
    m.on_payload("x", Some(&BenchChunk { choices: vec![], usage: Some(usage) }), ms(1));
    m.on_payload("[DONE]", None, ms(2));
    assert_eq!(m.finish("m", ms(9)).ok().unwrap().ttft, ms(9));
}

fn row(name: &str) -> BenchRow {
    BenchRow {
        name: name.to_string(),
        prefill: "512.0".to_string(),
        decode: "49.8".to_string(),
        ttft: "1.00s".to_string(),
        total: "5.00s".to_string(),
        prompt_tokens: 512,
        completion_tokens: 200,
    }
}

#[test]
fn the_table_is_aligned() {
    let lines = bench_table(&vec![row("gemma3"), row("q")]);
    let name_w = 6;
    assert_eq!(
        lines[0],
        format!(
            "{:<name_w$}  {:>14}  {:>14}  {:>10}  {:>10}  {:>12}  {:>14}",
            "MODEL", "PREFILL tok/s", "DECODE tok/s", "TTFT", "TOTAL", "PROMPT tok", "COMPLETION tok"
        )
    );
    assert_eq!(
        lines[2],
        format!(
            "{:<name_w$}  {:>14}  {:>14}  {:>10}  {:>10}  {:>12}  {:>14}",
            "q", "512.0", "49.8", "1.00s", "5.00s", 512, 200
        )
    );
    assert_eq!(lines.len(), 3);
    assert!(bench_table(&vec![])[0].starts_with("MODEL  "));
}

#[test]
fn the_csv_has_a_heading_and_a_line_for_each_row() {
    let lines = bench_csv(&vec![row("gemma3")]);
    assert_eq!(
        lines,
        vec![
            "model,prefill_toks_per_sec,decode_toks_per_sec,ttft_ms,total_ms,prompt_tokens,completion_tokens",
            "gemma3,512.0,49.8,1.00s,5.00s,512,200",
        ]
    );
}

#[test]
fn a_mean_of_sums_that_do_not_fit_is_refused() {
    let a = sample(1000, 3000, u32::MAX, 50);
    assert!(Sample::checked_mean(&[a, a]).is_none());
    let b = Sample { ttft: Duration::MAX, total: Duration::MAX, prompt_tokens: 1, completion_tokens: 1 };
    assert!(Sample::checked_mean(&[b, sample(1, 0, 0, 0)]).is_none());
    assert!(Sample::checked_mean(&[b, sample(0, 1, 0, 0)]).is_none());
    assert_eq!(Sample::checked_mean(&[b]).unwrap().ttft, Duration::MAX);
    let m = Sample::checked_mean(&[a, sample(2000, 5000, 0, 150)]).unwrap();
    assert_eq!((m.prompt_tokens, m.completion_tokens), (u32::MAX / 2, 100));
}
