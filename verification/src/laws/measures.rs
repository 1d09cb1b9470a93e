//! Laws of measuring models.

use std::time::Duration;

use vstd::prelude::*;

use crate::clock;
use crate::cmd::bench;
use crate::cmd::bench::{
    BenchArgError, BenchArgs, BenchChunk, BenchDelta, BenchRow, Measurement, Sample,
};
use crate::cmd::table;
use crate::laws::tables;
use crate::text;

verus! {

/// Arguments make sense exactly where the format is one of the two and there is
/// something to measure; the format is looked at first, and is named.
pub proof fn law_arguments_that_make_sense<F>(
    args: &BenchArgs<F>,
    r: Result<(), BenchArgError>,
)
    requires
        call_ensures(BenchArgs::<F>::check, (args,), r),
    ensures
        ({
            let known = args.format@ == "text"@ || args.format@ == "csv"@;
            &&& r is Ok <==> known && args.epochs > 0
            &&& !known ==> r->Err_0 is Format && r->Err_0->Format_0@ == args.format@
            &&& known && args.epochs == 0 ==> r->Err_0 is Epochs
        }),
{
}

/// The messages say what makes no sense.
pub proof fn law_messages_of_arguments(e: &BenchArgError, r: String)
    requires
        call_ensures(BenchArgError::message, (e,), r),
    ensures
        e is Epochs ==> r@ == "--epochs must be at least 1"@,
        e matches BenchArgError::Format(f) ==> r@ == "--format must be \"text\" or \"csv\" (got "@
            + text::debug_text(f@) + ")"@,
{
}

/// The prompt that is sent is the given one, unless a length is asked for: then it is
/// a word as many times as tokens are asked for, and at least once.
pub proof fn law_prompts_that_are_sent<F>(
    args: &BenchArgs<F>,
    n: u32,
    filler: String,
    word: &str,
    repeated: String,
    r: String,
)
    requires
        call_ensures(BenchArgs::<F>::sent_prompt, (args,), r),
        call_ensures(bench::synthetic_prompt, (n,), filler),
        word@ == "hello "@,
        n == args.prompt_tokens,
        n > 0 ==> call_ensures(text::repeat, (word, n as usize), repeated),
        n == 0 ==> call_ensures(text::repeat, (word, 1usize), repeated),
    ensures
        args.prompt_tokens == 0 ==> r@ == args.prompt@,
        args.prompt_tokens > 0 ==> r@ == filler@,
        filler@ == repeated@,
{
}

/// The tokens of a prompt and the time until the first token of the answer, where
/// there is any such time.
pub proof fn law_spans_of_prompts(s: &Sample, r: Option<(u64, Duration)>)
    requires
        call_ensures(bench::prefill_span, (s,), r),
    ensures
        r is None <==> clock::duration_nanos(s.ttft) == 0,
        r is Some ==> r.unwrap().0 == s.prompt_tokens && r.unwrap().1 == s.ttft,
{
}

/// The tokens of an answer behind its first one and the time that they took, where
/// there are such tokens and such a time.
pub proof fn law_spans_of_answers(s: &Sample, r: Option<(u64, Duration)>)
    requires
        call_ensures(bench::decode_span, (s,), r),
    ensures
        r is Some <==> s.completion_tokens >= 2 && clock::duration_nanos(s.total)
            > clock::duration_nanos(s.ttft),
        r is Some ==> r.unwrap().0 + 1 == s.completion_tokens && clock::duration_nanos(
            r.unwrap().1,
        ) + clock::duration_nanos(s.ttft) == clock::duration_nanos(s.total),
{
}

/// The sum of numbers.
pub open spec fn sum(s: Seq<nat>) -> nat
    decreases s.len(),
{
    if s.len() == 0 {
        0
    } else {
        sum(s.drop_last()) + s[s.len() - 1]
    }
}

proof fn lemma_sum(samples: Seq<Sample>, f: spec_fn(Sample) -> nat)
    ensures
        bench::total_of(samples, f) == sum(samples.map_values(f)),
    decreases samples.len(),
{
    if samples.len() > 0 {
        lemma_sum(samples.drop_last(), f);
        assert(samples.map_values(f).drop_last() =~= samples.drop_last().map_values(f));
    }
}

/// Whether a number is the mean of some others, rounded down.
pub open spec fn is_mean(mean: nat, s: Seq<nat>) -> bool {
    mean * s.len() <= sum(s) < (mean + 1) * s.len()
}

proof fn lemma_mean(total: nat, n: nat)
    requires
        n > 0,
    ensures
        (total / n) * n <= total < (total / n + 1) * n,
{
    assert((total / n) * n <= total < (total / n + 1) * n) by (nonlinear_arith)
        requires
            n > 0,
    ;
}

/// The mean of samples is that of each of their numbers over all of them, rounded
/// down.
pub proof fn law_means(samples: &[Sample], r: Sample)
    requires
        call_ensures(Sample::mean, (samples,), r),
        samples@.len() > 0,
    ensures
        is_mean(
            clock::duration_nanos(r.ttft),
            samples@.map_values(|s: Sample| clock::duration_nanos(s.ttft)),
        ),
        is_mean(
            clock::duration_nanos(r.total),
            samples@.map_values(|s: Sample| clock::duration_nanos(s.total)),
        ),
        is_mean(
            r.prompt_tokens as nat,
            samples@.map_values(|s: Sample| s.prompt_tokens as nat),
        ),
        is_mean(
            r.completion_tokens as nat,
            samples@.map_values(|s: Sample| s.completion_tokens as nat),
        ),
{
    lemma_means(samples@, r);
}

proof fn lemma_means(samples: Seq<Sample>, r: Sample)
    requires
        bench::is_mean(samples, r),
        samples.len() > 0,
    ensures
        is_mean(
            clock::duration_nanos(r.ttft),
            samples.map_values(|s: Sample| clock::duration_nanos(s.ttft)),
        ),
        is_mean(
            clock::duration_nanos(r.total),
            samples.map_values(|s: Sample| clock::duration_nanos(s.total)),
        ),
        is_mean(
            r.prompt_tokens as nat,
            samples.map_values(|s: Sample| s.prompt_tokens as nat),
        ),
        is_mean(
            r.completion_tokens as nat,
            samples.map_values(|s: Sample| s.completion_tokens as nat),
        ),
{
    let n = samples.len();
    let a = |s: Sample| clock::duration_nanos(s.ttft);
    let b = |s: Sample| clock::duration_nanos(s.total);
    let c = |s: Sample| s.prompt_tokens as nat;
    let d = |s: Sample| s.completion_tokens as nat;
    assert(bench::ttft_nanos() =~= a);
    assert(bench::total_nanos() =~= b);
    assert(bench::prompt_count() =~= c);
    assert(bench::completion_count() =~= d);
    lemma_sum(samples, a);
    lemma_sum(samples, b);
    lemma_sum(samples, c);
    lemma_sum(samples, d);
    lemma_mean(bench::total_of(samples, a), n);
    lemma_mean(bench::total_of(samples, b), n);
    lemma_mean(bench::total_of(samples, c), n);
    lemma_mean(bench::total_of(samples, d), n);
}

/// Whether the sums over samples fit into their types.
pub open spec fn fit(samples: Seq<Sample>) -> bool {
    &&& samples.len() <= u32::MAX
    &&& sum(samples.map_values(|s: Sample| s.prompt_tokens as nat)) <= u32::MAX
    &&& sum(samples.map_values(|s: Sample| s.completion_tokens as nat)) <= u32::MAX
    &&& sum(samples.map_values(|s: Sample| clock::duration_nanos(s.ttft))) < (u64::MAX + 1)
        * 1_000_000_000
    &&& sum(samples.map_values(|s: Sample| clock::duration_nanos(s.total))) < (u64::MAX + 1)
        * 1_000_000_000
}

/// There is a mean exactly where there are samples and their sums fit.
pub proof fn law_checked_means(samples: &[Sample], r: Option<Sample>)
    requires
        call_ensures(Sample::checked_mean, (samples,), r),
    ensures
        r is Some <==> samples@.len() > 0 && fit(samples@),
        r is Some ==> is_mean(
            clock::duration_nanos(r.unwrap().ttft),
            samples@.map_values(|s: Sample| clock::duration_nanos(s.ttft)),
        ) && is_mean(
            clock::duration_nanos(r.unwrap().total),
            samples@.map_values(|s: Sample| clock::duration_nanos(s.total)),
        ) && is_mean(
            r.unwrap().prompt_tokens as nat,
            samples@.map_values(|s: Sample| s.prompt_tokens as nat),
        ) && is_mean(
            r.unwrap().completion_tokens as nat,
            samples@.map_values(|s: Sample| s.completion_tokens as nat),
        ),
{
    let a = |s: Sample| clock::duration_nanos(s.ttft);
    let b = |s: Sample| clock::duration_nanos(s.total);
    let c = |s: Sample| s.prompt_tokens as nat;
    let d = |s: Sample| s.completion_tokens as nat;
    assert(bench::ttft_nanos() =~= a);
    assert(bench::total_nanos() =~= b);
    assert(bench::prompt_count() =~= c);
    assert(bench::completion_count() =~= d);
    lemma_sum(samples@, a);
    lemma_sum(samples@, b);
    lemma_sum(samples@, c);
    lemma_sum(samples@, d);
    if r is Some {
        lemma_means(samples@, r.unwrap());
    }
}

/// Whether a text that may be missing has any characters.
pub open spec fn says_anything(s: Option<String>) -> bool {
    s is Some && s.unwrap()@.len() > 0
}

/// An event adds something exactly where its content or its thinking, under either
/// name, is not empty.
pub proof fn law_what_counts_as_a_token(d: &BenchDelta, r: bool)
    requires
        call_ensures(BenchDelta::has_any_token, (d,), r),
    ensures
        r <==> says_anything(d.content) || says_anything(d.reasoning_content) || says_anything(
            d.thinking,
        ),
{
}

/// Whether an event adds something.
pub open spec fn adds(c: BenchChunk) -> bool {
    c.choices@.len() > 0 && (says_anything(c.choices@[0].delta.content) || says_anything(
        c.choices@[0].delta.reasoning_content,
    ) || says_anything(c.choices@[0].delta.thinking))
}

/// The time of the first token counts, and the last report of usage, and the end is
/// the mark of the end; nothing counts behind it.
pub proof fn law_what_is_measured(
    m: &mut Measurement,
    payload: &str,
    chunk: Option<&BenchChunk>,
    elapsed: Duration,
)
    requires
        call_ensures(Measurement::on_payload, (m, payload, chunk, elapsed), ()),
    ensures
        ({
            let counts = !old(m).done && payload@ != "[DONE]"@ && chunk is Some;
            &&& final(m).done <==> old(m).done || payload@ == "[DONE]"@
            &&& counts && old(m).ttft is None && adds(*chunk.unwrap()) ==> final(m).ttft == Some(
                elapsed,
            )
            &&& !(counts && old(m).ttft is None && adds(*chunk.unwrap()))
                ==> final(m).ttft == old(m).ttft
            &&& counts && chunk.unwrap().usage is Some ==> final(m).usage == chunk.unwrap().usage
            &&& !(counts && chunk.unwrap().usage is Some) ==> final(m).usage == old(m).usage
        }),
{
    if chunk is Some && chunk.unwrap().choices@.len() > 0 {
        let d = chunk.unwrap().choices@[0].delta;
        assert(d.has_token() == (says_anything(d.content) || says_anything(d.reasoning_content)
            || says_anything(d.thinking)));
    }
}

/// A request is measured exactly where its answer came to its end and told the
/// numbers of tokens, which are the result with the times; an answer without a token
/// took all the time.
pub proof fn law_what_a_request_showed(
    m: &Measurement,
    model: &str,
    total: Duration,
    r: Result<Sample, String>,
)
    requires
        call_ensures(Measurement::finish, (m, model, total), r),
    ensures
        r is Ok <==> m.done && m.usage is Some,
        r is Ok ==> ({
            let s = r->Ok_0;
            &&& s.prompt_tokens == m.usage.unwrap().prompt_tokens
            &&& s.completion_tokens == m.usage.unwrap().completion_tokens
            &&& s.total == total
            &&& m.ttft is Some ==> s.ttft == m.ttft.unwrap()
            &&& m.ttft is None ==> s.ttft == total
        }),
        !m.done ==> r->Err_0@ == model@
            + ": stream ended without a [DONE] terminator (connection dropped mid-response?)"@,
        m.done && m.usage is None ==> r->Err_0@ == model@
            + ": stream completed without a usage summary — backend may not support stream_options.include_usage"@,
{
}

/// A measurement starts with nothing.
pub proof fn law_measurements_start(r: Measurement)
    requires
        call_ensures(Measurement::new, (), r),
    ensures
        r.ttft is None,
        r.usage is None,
        !r.done,
{
}

/// A row of the result in a table: the name to the left, and all numbers to the
/// right of their columns.
pub open spec fn table_row(
    name: Seq<char>,
    prefill: Seq<char>,
    decode: Seq<char>,
    ttft: Seq<char>,
    total: Seq<char>,
    prompt: Seq<char>,
    completion: Seq<char>,
    w: nat,
) -> Seq<char> {
    tables::left(name, w) + "  "@ + tables::right(prefill, 14) + "  "@ + tables::right(decode, 14)
        + "  "@ + tables::right(ttft, 10) + "  "@ + tables::right(total, 10) + "  "@
        + tables::right(prompt, 12) + "  "@ + tables::right(completion, 14)
}

/// The table of a result has a heading and a row for each model, in their order,
/// with all that was measured of it.
pub proof fn law_tables_of_results(
    rows: &Vec<BenchRow>,
    w: nat,
    k: int,
    prompt: String,
    completion: String,
    r: Vec<String>,
)
    requires
        call_ensures(bench::bench_table, (rows,), r),
        tables::is_width(rows@.map_values(|x: BenchRow| x.name@), 5, w),
        0 <= k < rows@.len(),
        call_ensures(text::decimal_str, (rows@[k].prompt_tokens as u64,), prompt),
        call_ensures(text::decimal_str, (rows@[k].completion_tokens as u64,), completion),
    ensures
        r@.len() == rows@.len() + 1,
        r@[0]@ == table_row(
            "MODEL"@,
            "PREFILL tok/s"@,
            "DECODE tok/s"@,
            "TTFT"@,
            "TOTAL"@,
            "PROMPT tok"@,
            "COMPLETION tok"@,
            w,
        ),
        r@[k + 1]@ == table_row(
            rows@[k].name@,
            rows@[k].prefill@,
            rows@[k].decode@,
            rows@[k].ttft@,
            rows@[k].total@,
            prompt@,
            completion@,
            w,
        ),
{
    let all = text::texts(r@);
    let names = rows@.map_values(|x: BenchRow| x.name@);
    tables::lemma_width(names, 5, w);
    tables::lemma_pads();
    let lines = bench::table_lines(rows@);
    assert(all.len() == r@.len());
    assert(all[0] == r@[0]@);
    assert(all[k + 1] == r@[k + 1]@);
    assert(lines[k + 1] == bench::row_line(rows@[k], w));
}

/// The comma-separated result has a heading and a line for each model, in their
/// order, with all that was measured of it.
pub proof fn law_comma_separated_results(
    rows: &Vec<BenchRow>,
    k: int,
    prompt: String,
    completion: String,
    r: Vec<String>,
)
    requires
        call_ensures(bench::bench_csv, (rows,), r),
        0 <= k < rows@.len(),
        call_ensures(text::decimal_str, (rows@[k].prompt_tokens as u64,), prompt),
        call_ensures(text::decimal_str, (rows@[k].completion_tokens as u64,), completion),
    ensures
        r@.len() == rows@.len() + 1,
        r@[0]@
            == "model,prefill_toks_per_sec,decode_toks_per_sec,ttft_ms,total_ms,prompt_tokens,completion_tokens"@,
        r@[k + 1]@ == rows@[k].name@ + ","@ + rows@[k].prefill@ + ","@ + rows@[k].decode@ + ","@
            + rows@[k].ttft@ + ","@ + rows@[k].total@ + ","@ + prompt@ + ","@ + completion@,
{
    let all = text::texts(r@);
    let lines = bench::csv_lines(rows@);
    assert(all.len() == r@.len());
    assert(all[0] == r@[0]@);
    assert(all[k + 1] == r@[k + 1]@);
    let row = rows@[k];
    assert(lines[k + 1] == bench::csv_line(row));
    let f = seq![
        row.name@,
        row.prefill@,
        row.decode@,
        row.ttft@,
        row.total@,
        prompt@,
        completion@,
    ];
    let c = ","@;
    assert(f.drop_last() =~= seq![
        row.name@,
        row.prefill@,
        row.decode@,
        row.ttft@,
        row.total@,
        prompt@,
    ]);
    assert(f.drop_last().drop_last() =~= seq![
        row.name@,
        row.prefill@,
        row.decode@,
        row.ttft@,
        row.total@,
    ]);
    assert(f.drop_last().drop_last().drop_last() =~= seq![
        row.name@,
        row.prefill@,
        row.decode@,
        row.ttft@,
    ]);
    assert(f.drop_last().drop_last().drop_last().drop_last() =~= seq![
        row.name@,
        row.prefill@,
        row.decode@,
    ]);
    assert(f.drop_last().drop_last().drop_last().drop_last().drop_last() =~= seq![
        row.name@,
        row.prefill@,
    ]);
    assert(f.drop_last().drop_last().drop_last().drop_last().drop_last().drop_last() =~= seq![
        row.name@,
    ]);
    reveal_with_fuel(text::join_spec, 8);
}

} // verus!
