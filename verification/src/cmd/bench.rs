//! `bench`: how fast models take in a prompt and write an answer.
//!
//! Rates are quotients of floating-point numbers and are made by the caller; the
//! counts and the times they are made of are measured and averaged here.

use vstd::prelude::*;

use crate::clock;
use crate::cmd::serve::stream;
use crate::cmd::table;
use crate::text;

verus! {

/// The prompt that is sent where none is given: one that a model answers at
/// length.
pub const DEFAULT_PROMPT: &'static str = "Write a detailed short story about a robot exploring an abandoned space station.";

/// The arguments of `bench`; the temperature is a number of any type.
pub struct BenchArgs<F> {
    pub model: Vec<String>,
    pub prompt: String,
    /// A filler of about so many tokens in place of the prompt, unless it is 0.
    pub prompt_tokens: u32,
    pub max_tokens: u32,
    pub epochs: u32,
    pub warmup: u32,
    pub temperature: F,
    pub timeout: u64,
    pub format: String,
}

/// Arguments that make no sense.
pub enum BenchArgError {
    /// The format is none.
    Format(String),
    /// There is nothing to measure.
    Epochs,
}

/// The formats of the result.
pub open spec fn is_format(format: Seq<char>) -> bool {
    format == "text"@ || format == "csv"@
}

impl BenchArgError {
    pub open spec fn text(self) -> Seq<char> {
        match self {
            BenchArgError::Format(f) => "--format must be \"text\" or \"csv\" (got "@
                + text::debug_text(f@) + ")"@,
            BenchArgError::Epochs => "--epochs must be at least 1"@,
        }
    }

    /// The message of the error.
    pub fn message(&self) -> (r: String)
        ensures
            r@ == self.text(),
    {
        match self {
            BenchArgError::Format(f) => {
                let mut s = "--format must be \"text\" or \"csv\" (got ".to_owned();
                s.append(text::debug(f.as_str()).as_str());
                s.append(")");
                s
            },
            BenchArgError::Epochs => "--epochs must be at least 1".to_owned(),
        }
    }
}

impl<F> BenchArgs<F> {
    /// Whether the arguments make sense; the format is looked at first.
    pub fn check(&self) -> (r: Result<(), BenchArgError>)
        ensures
            match r {
                Ok(_) => is_format(self.format@) && self.epochs >= 1,
                Err(BenchArgError::Format(f)) => !is_format(self.format@) && f@ == self.format@,
                Err(BenchArgError::Epochs) => is_format(self.format@) && self.epochs == 0,
            },
    {
        if !(text::same(self.format.as_str(), "text") || text::same(self.format.as_str(), "csv")) {
            return Err(BenchArgError::Format(self.format.clone()));
        }
        if self.epochs == 0 {
            return Err(BenchArgError::Epochs);
        }
        Ok(())
    }

    /// The prompt that is sent: the given one, or a filler of about the given
    /// length.
    pub fn sent_prompt(&self) -> (r: String)
        ensures
            r@ == if self.prompt_tokens > 0 {
                filler(self.prompt_tokens)
            } else {
                self.prompt@
            },
    {
        if self.prompt_tokens > 0 {
            synthetic_prompt(self.prompt_tokens)
        } else {
            self.prompt.clone()
        }
    }
}

/// A word over and over, at least once.
pub open spec fn filler(target_tokens: u32) -> Seq<char> {
    text::repeat_spec(
        "hello "@,
        if target_tokens > 1 {
            target_tokens as nat
        } else {
            1
        },
    )
}

/// A filler of about so many tokens.
pub fn synthetic_prompt(target_tokens: u32) -> (r: String)
    ensures
        r@ == filler(target_tokens),
{
    let n: u32 = if target_tokens > 1 {
        target_tokens
    } else {
        1
    };
    text::repeat("hello ", n as usize)
}

// ---------------------------------------------------------------------------
// Samples
// ---------------------------------------------------------------------------

/// What one request showed: the time until the first token, which is that of
/// taking in the prompt, the time in all, and the numbers of tokens.
#[derive(Debug, Clone, Copy)]
pub struct Sample {
    pub ttft: std::time::Duration,
    pub total: std::time::Duration,
    pub prompt_tokens: u32,
    pub completion_tokens: u32,
}

/// The tokens of a sample's prompt and the time in which they were read, of which
/// there is some.
pub fn prefill_span(s: &Sample) -> (r: Option<(u64, std::time::Duration)>)
    ensures
        match r {
            Some((tokens, time)) => {
                &&& tokens == s.prompt_tokens
                &&& time == s.ttft && clock::duration_nanos(time) > 0
            },
            None => clock::duration_nanos(s.ttft) == 0,
        },
{
    if s.ttft.as_nanos() == 0 {
        None
    } else {
        Some((s.prompt_tokens as u64, s.ttft))
    }
}

/// The time that a sample took behind its first token, in nanoseconds.
pub open spec fn decode_nanos(s: Sample) -> nat {
    let total = clock::duration_nanos(s.total);
    let ttft = clock::duration_nanos(s.ttft);
    if ttft < total {
        (total - ttft) as nat
    } else {
        0
    }
}

/// The tokens of a sample behind its first one and the time in which they came;
/// nothing where there are no such tokens, or no such time.
pub fn decode_span(s: &Sample) -> (r: Option<(u64, std::time::Duration)>)
    ensures
        match r {
            Some((tokens, time)) => {
                &&& tokens == s.completion_tokens - 1 && tokens > 0
                &&& clock::duration_nanos(time) == decode_nanos(*s) && decode_nanos(*s) > 0
            },
            None => s.completion_tokens <= 1 || decode_nanos(*s) == 0,
        },
{
    let time = clock::time_left(s.total, s.ttft);
    if s.completion_tokens <= 1 || time.as_nanos() == 0 {
        None
    } else {
        Some(((s.completion_tokens - 1) as u64, time))
    }
}

/// The sum of a number over samples.
pub open spec fn total_of(samples: Seq<Sample>, f: spec_fn(Sample) -> nat) -> nat
    decreases samples.len(),
{
    if samples.len() == 0 {
        0
    } else {
        total_of(samples.drop_last(), f) + f(samples.last())
    }
}

pub open spec fn ttft_nanos() -> spec_fn(Sample) -> nat {
    |s: Sample| clock::duration_nanos(s.ttft)
}

pub open spec fn total_nanos() -> spec_fn(Sample) -> nat {
    |s: Sample| clock::duration_nanos(s.total)
}

pub open spec fn prompt_count() -> spec_fn(Sample) -> nat {
    |s: Sample| s.prompt_tokens as nat
}

pub open spec fn completion_count() -> spec_fn(Sample) -> nat {
    |s: Sample| s.completion_tokens as nat
}

/// The longest duration that there is.
pub open spec fn max_nanos() -> nat {
    (u64::MAX * 1_000_000_000 + 999_999_999) as nat
}

/// Whether the sums over samples fit into their types.
pub open spec fn sums_fit(samples: Seq<Sample>) -> bool {
    &&& total_of(samples, ttft_nanos()) <= max_nanos()
    &&& total_of(samples, total_nanos()) <= max_nanos()
    &&& total_of(samples, prompt_count()) <= u32::MAX
    &&& total_of(samples, completion_count()) <= u32::MAX
    &&& samples.len() <= u32::MAX
}

/// Whether a sample is the mean of others, each number rounded down.
pub open spec fn is_mean(samples: Seq<Sample>, m: Sample) -> bool {
    let n = samples.len();
    &&& clock::duration_nanos(m.ttft) == total_of(samples, ttft_nanos()) / n
    &&& clock::duration_nanos(m.total) == total_of(samples, total_nanos()) / n
    &&& m.prompt_tokens == total_of(samples, prompt_count()) / n
    &&& m.completion_tokens == total_of(samples, completion_count()) / n
}

proof fn lemma_sum_grows(samples: Seq<Sample>, f: spec_fn(Sample) -> nat, n: int)
    requires
        0 <= n <= samples.len(),
    ensures
        total_of(samples.take(n), f) <= total_of(samples, f),
    decreases samples.len(),
{
    if n < samples.len() {
        lemma_sum_grows(samples.drop_last(), f, n);
        assert(samples.drop_last().take(n) =~= samples.take(n));
    } else {
        assert(samples.take(n) =~= samples);
    }
}

proof fn lemma_quotient(sum: nat, n: nat)
    requires
        n >= 1,
    ensures
        sum / n <= sum,
{
    assert(sum / n <= sum) by (nonlinear_arith)
        requires
            n >= 1,
    ;
}

impl Sample {
    /// The mean of samples, of which there is at least one, each number rounded
    /// down.
    pub fn mean(samples: &[Sample]) -> (r: Sample)
        requires
            samples@.len() > 0,
            sums_fit(samples@),
        ensures
            is_mean(samples@, r),
    {
        let mut ttft: u128 = 0;
        let mut total: u128 = 0;
        let mut prompt: u32 = 0;
        let mut completion: u32 = 0;
        let mut i: usize = 0;
        while i < samples.len()
            invariant
                i <= samples@.len(),
                sums_fit(samples@),
                ttft == total_of(samples@.take(i as int), ttft_nanos()),
                total == total_of(samples@.take(i as int), total_nanos()),
                prompt == total_of(samples@.take(i as int), prompt_count()),
                completion == total_of(samples@.take(i as int), completion_count()),
            decreases samples.len() - i,
        {
            proof {
                let now = samples@.take(i + 1);
                assert(now.drop_last() =~= samples@.take(i as int));
                assert(now.last() == samples@[i as int]);
                lemma_sum_grows(samples@, ttft_nanos(), i + 1);
                lemma_sum_grows(samples@, total_nanos(), i + 1);
                lemma_sum_grows(samples@, prompt_count(), i + 1);
                lemma_sum_grows(samples@, completion_count(), i + 1);
            }
            let s = &samples[i];
            ttft = ttft + s.ttft.as_nanos();
            total = total + s.total.as_nanos();
            prompt = prompt + s.prompt_tokens;
            completion = completion + s.completion_tokens;
            i += 1;
        }
        assert(samples@.take(i as int) =~= samples@);
        let n: u32 = samples.len() as u32;
        proof {
            lemma_quotient(ttft as nat, n as nat);
            lemma_quotient(total as nat, n as nat);
        }
        Sample {
            ttft: clock::duration_of(ttft / n as u128),
            total: clock::duration_of(total / n as u128),
            prompt_tokens: prompt / n,
            completion_tokens: completion / n,
        }
    }

    /// The mean of samples, unless there are none or a sum over them does not fit
    /// into its type.
    pub fn checked_mean(samples: &[Sample]) -> (r: Option<Sample>)
        ensures
            match r {
                Some(m) => samples@.len() > 0 && sums_fit(samples@) && is_mean(samples@, m),
                None => samples@.len() == 0 || !sums_fit(samples@),
            },
    {
        if samples.len() > 0 && fit(samples) {
            Some(Sample::mean(samples))
        } else {
            None
        }
    }
}

/// The longest duration that there is, in nanoseconds.
const MAX_NANOS: u128 = 18_446_744_073_709_551_615_999_999_999;

fn fit(samples: &[Sample]) -> (r: bool)
    ensures
        r == sums_fit(samples@),
{
    if samples.len() > u32::MAX as usize {
        return false;
    }
    let mut ttft: u128 = 0;
    let mut total: u128 = 0;
    let mut prompt: u32 = 0;
    let mut completion: u32 = 0;
    let mut i: usize = 0;
    while i < samples.len()
        invariant
            i <= samples@.len() <= u32::MAX,
            ttft == total_of(samples@.take(i as int), ttft_nanos()),
            total == total_of(samples@.take(i as int), total_nanos()),
            prompt == total_of(samples@.take(i as int), prompt_count()),
            completion == total_of(samples@.take(i as int), completion_count()),
            ttft <= MAX_NANOS,
            total <= MAX_NANOS,
        decreases samples.len() - i,
    {
        let s = &samples[i];
        proof {
            let now = samples@.take(i + 1);
            assert(now.drop_last() =~= samples@.take(i as int));
            assert(now.last() == samples@[i as int]);
            lemma_sum_grows(samples@, ttft_nanos(), i + 1);
            lemma_sum_grows(samples@, total_nanos(), i + 1);
            lemma_sum_grows(samples@, prompt_count(), i + 1);
            lemma_sum_grows(samples@, completion_count(), i + 1);
        }
        let first: u128 = s.ttft.as_nanos();
        let whole: u128 = s.total.as_nanos();
        if first > MAX_NANOS - ttft || whole > MAX_NANOS - total {
            return false;
        }
        if s.prompt_tokens > u32::MAX - prompt || s.completion_tokens > u32::MAX - completion {
            return false;
        }
        ttft = ttft + first;
        total = total + whole;
        prompt = prompt + s.prompt_tokens;
        completion = completion + s.completion_tokens;
        i += 1;
    }
    assert(samples@.take(i as int) =~= samples@);
    true
}

/// The mean of one sample is the sample.
pub proof fn law_mean_of_one(s: Sample, m: Sample)
    requires
        is_mean(seq![s], m),
    ensures
        clock::duration_nanos(m.ttft) == clock::duration_nanos(s.ttft),
        clock::duration_nanos(m.total) == clock::duration_nanos(s.total),
        m.prompt_tokens == s.prompt_tokens,
        m.completion_tokens == s.completion_tokens,
{
    let one = seq![s];
    assert(one.drop_last() =~= Seq::empty());
    assert(one.last() == s);
    reveal_with_fuel(total_of, 2);
}

// ---------------------------------------------------------------------------
// One request
// ---------------------------------------------------------------------------

/// One event of the stream.
pub struct BenchChunk {
    pub choices: Vec<BenchChoice>,
    pub usage: Option<Usage>,
}

pub struct BenchChoice {
    pub delta: BenchDelta,
}

/// What an event adds: content, or thinking under either of two names.
pub struct BenchDelta {
    pub content: Option<String>,
    pub reasoning_content: Option<String>,
    pub thinking: Option<String>,
}

/// The numbers of tokens of a request.
#[derive(Debug, Clone, Copy, PartialEq, Eq, Structural)]
pub struct Usage {
    pub prompt_tokens: u32,
    pub completion_tokens: u32,
}

fn is_nonempty(s: &Option<String>) -> (r: bool)
    ensures
        r == (stream::text_or_empty(*s).len() > 0),
{
    match s {
        Some(s) => !s.as_str().is_empty(),
        None => false,
    }
}

impl BenchDelta {
    pub open spec fn has_token(self) -> bool {
        stream::text_or_empty(self.content).len() > 0 || stream::text_or_empty(
            self.reasoning_content,
        ).len() > 0 || stream::text_or_empty(self.thinking).len() > 0
    }

    /// Whether an event adds anything of any kind.
    pub fn has_any_token(&self) -> (r: bool)
        ensures
            r == self.has_token(),
    {
        is_nonempty(&self.content) || is_nonempty(&self.reasoning_content) || is_nonempty(
            &self.thinking,
        )
    }
}

impl BenchChunk {
    /// Whether the first choice adds anything.
    pub open spec fn has_token(self) -> bool {
        self.choices@.len() > 0 && self.choices@[0].delta.has_token()
    }
}

/// A request as its answer comes in.
pub struct Measurement {
    pub ttft: Option<std::time::Duration>,
    pub usage: Option<Usage>,
    pub done: bool,
}

impl Measurement {
    pub fn new() -> (r: Self)
        ensures
            r.ttft is None && r.usage is None && !r.done,
    {
        Measurement { ttft: None, usage: None, done: false }
    }

    /// Takes a payload of the stream, at a time since the request was sent. The
    /// chunk is what the payload holds, if it is one. The time of the first token
    /// and the last report of usage count; nothing counts behind the end.
    pub fn on_payload(
        &mut self,
        payload: &str,
        chunk: Option<&BenchChunk>,
        elapsed: std::time::Duration,
    )
        ensures
            if old(self).done {
                *final(self) == *old(self)
            } else if payload@ == "[DONE]"@ {
                *final(self) == (Measurement { done: true, ..*old(self) })
            } else {
                match chunk {
                    Some(c) => *final(self) == (Measurement {
                        ttft: if old(self).ttft is None && c.has_token() {
                            Some(elapsed)
                        } else {
                            old(self).ttft
                        },
                        usage: if c.usage is Some {
                            c.usage
                        } else {
                            old(self).usage
                        },
                        done: false,
                    }),
                    None => *final(self) == *old(self),
                }
            },
    {
        if self.done {
            return ;
        }
        if text::same(payload, "[DONE]") {
            self.done = true;
            return ;
        }
        if let Some(c) = chunk {
            if let Some(u) = c.usage {
                self.usage = Some(u);
            }
            if self.ttft.is_none() && c.choices.len() > 0 && c.choices[0].delta.has_any_token() {
                self.ttft = Some(elapsed);
            }
        }
    }

    /// What the request showed, after all of its answer and a time in all: an
    /// error where the answer broke off, or came without the numbers of tokens.
    pub fn finish(&self, model: &str, total: std::time::Duration) -> (r: Result<Sample, String>)
        ensures
            match r {
                Ok(s) => {
                    &&& self.done && self.usage == Some(
                        Usage {
                            prompt_tokens: s.prompt_tokens,
                            completion_tokens: s.completion_tokens,
                        },
                    )
                    &&& s.total == total
                    &&& s.ttft == match self.ttft {
                        Some(t) => t,
                        None => total,
                    }
                },
                Err(m) => if !self.done {
                    m@ == model@
                        + ": stream ended without a [DONE] terminator (connection dropped mid-response?)"@
                } else {
                    self.usage is None && m@ == model@
                        + ": stream completed without a usage summary — backend may not support stream_options.include_usage"@
                },
            },
    {
        if !self.done {
            let mut m = model.to_owned();
            m.append(
                ": stream ended without a [DONE] terminator (connection dropped mid-response?)",
            );
            return Err(m);
        }
        match self.usage {
            None => {
                let mut m = model.to_owned();
                m.append(
                    ": stream completed without a usage summary — backend may not support stream_options.include_usage",
                );
                Err(m)
            },
            Some(u) => Ok(
                Sample {
                    ttft: match self.ttft {
                        Some(t) => t,
                        None => total,
                    },
                    total,
                    prompt_tokens: u.prompt_tokens,
                    completion_tokens: u.completion_tokens,
                },
            ),
        }
    }
}

// ---------------------------------------------------------------------------
// The result
// ---------------------------------------------------------------------------

/// A row of the result: rates and times as they are shown, and the numbers of
/// tokens.
pub struct BenchRow {
    pub name: String,
    pub prefill: String,
    pub decode: String,
    pub ttft: String,
    pub total: String,
    pub prompt_tokens: u32,
    pub completion_tokens: u32,
}

/// A line of the table.
pub open spec fn table_line(
    name: Seq<char>,
    prefill: Seq<char>,
    decode: Seq<char>,
    ttft: Seq<char>,
    total: Seq<char>,
    prompt: Seq<char>,
    completion: Seq<char>,
    name_w: nat,
) -> Seq<char> {
    table::padded(name, name_w) + "  "@ + table::right_padded(prefill, 14) + "  "@
        + table::right_padded(decode, 14) + "  "@ + table::right_padded(ttft, 10) + "  "@
        + table::right_padded(total, 10) + "  "@ + table::right_padded(prompt, 12) + "  "@
        + table::right_padded(completion, 14)
}

/// The line of a row.
pub open spec fn row_line(r: BenchRow, name_w: nat) -> Seq<char> {
    table_line(
        r.name@,
        r.prefill@,
        r.decode@,
        r.ttft@,
        r.total@,
        text::decimal(r.prompt_tokens as nat),
        text::decimal(r.completion_tokens as nat),
        name_w,
    )
}

/// The lines of the table, the heading first.
pub open spec fn table_lines(rows: Seq<BenchRow>) -> Seq<Seq<char>> {
    let name_w = table::column_width(rows.map_values(|r: BenchRow| r.name@), 5);
    seq![
        table_line(
            "MODEL"@,
            "PREFILL tok/s"@,
            "DECODE tok/s"@,
            "TTFT"@,
            "TOTAL"@,
            "PROMPT tok"@,
            "COMPLETION tok"@,
            name_w,
        ),
    ] + rows.map_values(|r: BenchRow| row_line(r, name_w))
}

fn line_text(
    name: &str,
    prefill: &str,
    decode: &str,
    ttft: &str,
    total: &str,
    prompt: &str,
    completion: &str,
    name_w: usize,
) -> (r: String)
    ensures
        r@ == table_line(
            name@,
            prefill@,
            decode@,
            ttft@,
            total@,
            prompt@,
            completion@,
            name_w as nat,
        ),
{
    let mut s = table::pad(name, name_w);
    s.append("  ");
    s.append(table::pad_left(prefill, 14).as_str());
    s.append("  ");
    s.append(table::pad_left(decode, 14).as_str());
    s.append("  ");
    s.append(table::pad_left(ttft, 10).as_str());
    s.append("  ");
    s.append(table::pad_left(total, 10).as_str());
    s.append("  ");
    s.append(table::pad_left(prompt, 12).as_str());
    s.append("  ");
    s.append(table::pad_left(completion, 14).as_str());
    s
}

/// The lines of the table: a heading, and a line for each row.
pub fn bench_table(rows: &Vec<BenchRow>) -> (r: Vec<String>)
    ensures
        text::texts(r@) == table_lines(rows@),
{
    let ghost names = rows@.map_values(|r: BenchRow| r.name@);
    let mut name_w: usize = 5;
    let mut i: usize = 0;
    while i < rows.len()
        invariant
            i <= rows@.len(),
            names == rows@.map_values(|r: BenchRow| r.name@),
            name_w == table::column_width(names.take(i as int), 5),
        decreases rows.len() - i,
    {
        proof {
            assert(names.take(i + 1).drop_last() =~= names.take(i as int));
            assert(names.take(i + 1).last() == rows@[i as int].name@);
        }
        name_w = table::wider(name_w, table::byte_len(rows[i].name.as_str()));
        i += 1;
    }
    assert(names.take(i as int) =~= names);
    let mut out: Vec<String> = Vec::new();
    let heading = line_text(
        "MODEL",
        "PREFILL tok/s",
        "DECODE tok/s",
        "TTFT",
        "TOTAL",
        "PROMPT tok",
        "COMPLETION tok",
        name_w,
    );
    text::push_text(&mut out, heading.as_str());
    let ghost lines = rows@.map_values(|r: BenchRow| row_line(r, name_w as nat));
    let mut k: usize = 0;
    assert(text::texts(out@) =~= seq![heading@] + lines.take(0));
    while k < rows.len()
        invariant
            k <= rows@.len(),
            lines == rows@.map_values(|r: BenchRow| row_line(r, name_w as nat)),
            text::texts(out@) == seq![heading@] + lines.take(k as int),
        decreases rows.len() - k,
    {
        let row = &rows[k];
        let line = line_text(
            row.name.as_str(),
            row.prefill.as_str(),
            row.decode.as_str(),
            row.ttft.as_str(),
            row.total.as_str(),
            text::decimal_str(row.prompt_tokens as u64).as_str(),
            text::decimal_str(row.completion_tokens as u64).as_str(),
            name_w,
        );
        text::push_text(&mut out, line.as_str());
        proof {
            assert(lines[k as int] == line@);
            assert(seq![heading@] + lines.take(k + 1) =~= (seq![heading@] + lines.take(
                k as int,
            )).push(line@));
        }
        k += 1;
    }
    assert(lines.take(k as int) =~= lines);
    out
}

/// The fields of a row with commas between them.
pub open spec fn csv_line(r: BenchRow) -> Seq<char> {
    text::join_spec(
        seq![
            r.name@,
            r.prefill@,
            r.decode@,
            r.ttft@,
            r.total@,
            text::decimal(r.prompt_tokens as nat),
            text::decimal(r.completion_tokens as nat),
        ],
        ","@,
    )
}

/// The lines of the comma-separated result, the heading first.
pub open spec fn csv_lines(rows: Seq<BenchRow>) -> Seq<Seq<char>> {
    seq![
        "model,prefill_toks_per_sec,decode_toks_per_sec,ttft_ms,total_ms,prompt_tokens,completion_tokens"@,
    ] + rows.map_values(|r: BenchRow| csv_line(r))
}

/// The lines of the comma-separated result.
pub fn bench_csv(rows: &Vec<BenchRow>) -> (r: Vec<String>)
    ensures
        text::texts(r@) == csv_lines(rows@),
{
    let mut out: Vec<String> = Vec::new();
    text::push_text(
        &mut out,
        "model,prefill_toks_per_sec,decode_toks_per_sec,ttft_ms,total_ms,prompt_tokens,completion_tokens",
    );
    let ghost heading = text::texts(out@)[0];
    let ghost lines = rows@.map_values(|r: BenchRow| csv_line(r));
    let mut k: usize = 0;
    assert(text::texts(out@) =~= seq![heading] + lines.take(0));
    while k < rows.len()
        invariant
            k <= rows@.len(),
            lines == rows@.map_values(|r: BenchRow| csv_line(r)),
            text::texts(out@) == seq![heading] + lines.take(k as int),
        decreases rows.len() - k,
    {
        let row = &rows[k];
        let mut fields: Vec<String> = Vec::new();
        text::push_text(&mut fields, row.name.as_str());
        text::push_text(&mut fields, row.prefill.as_str());
        text::push_text(&mut fields, row.decode.as_str());
        text::push_text(&mut fields, row.ttft.as_str());
        text::push_text(&mut fields, row.total.as_str());
        text::push_text(&mut fields, text::decimal_str(row.prompt_tokens as u64).as_str());
        text::push_text(&mut fields, text::decimal_str(row.completion_tokens as u64).as_str());
        assert(text::texts(fields@) =~= seq![
            row.name@,
            row.prefill@,
            row.decode@,
            row.ttft@,
            row.total@,
            text::decimal(row.prompt_tokens as nat),
            text::decimal(row.completion_tokens as nat),
        ]);
        let line = text::join(&fields, ",");
        text::push_text(&mut out, line.as_str());
        proof {
            assert(lines[k as int] == line@);
            assert(seq![heading] + lines.take(k + 1) =~= (seq![heading] + lines.take(
                k as int,
            )).push(line@));
        }
        k += 1;
    }
    assert(lines.take(k as int) =~= lines);
    out
}

} // verus!
