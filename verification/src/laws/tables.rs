//! Laws of what is shown: identifiers, sizes, ages and tables.

use std::time::SystemTime;

use vstd::prelude::*;

use crate::clock;
use crate::cmd::list;
use crate::cmd::list::Image;
use crate::cmd::ps;
use crate::cmd::ps::PsModel;
use crate::cmd::table;
use crate::fmt;
use crate::laws::engines::{lemma_strings, strings};
use crate::laws::texts;
use crate::text;

verus! {

// ---------------------------------------------------------------------------
// Columns
// ---------------------------------------------------------------------------

/// So many spaces.
pub open spec fn blanks(n: int) -> Seq<char> {
    Seq::new(
        if n > 0 {
            n as nat
        } else {
            0
        },
        |i: int| ' ',
    )
}

/// A text at the left of a column.
pub open spec fn left(s: Seq<char>, w: nat) -> Seq<char> {
    s + blanks(w - s.len())
}

/// A text at the right of a column.
pub open spec fn right(s: Seq<char>, w: nat) -> Seq<char> {
    blanks(w - s.len()) + s
}

pub proof fn lemma_pads()
    ensures
        forall|s: Seq<char>, w: nat| #[trigger] table::padded(s, w) == left(s, w),
        forall|s: Seq<char>, w: nat| #[trigger] table::right_padded(s, w) == right(s, w),
{
    assert forall|s: Seq<char>, w: nat| #[trigger] table::padded(s, w) == left(s, w) by {
        assert(table::padded(s, w) =~= left(s, w));
    }
    assert forall|s: Seq<char>, w: nat| #[trigger] table::right_padded(s, w) == right(s, w) by {
        assert(table::right_padded(s, w) =~= right(s, w));
    }
}

/// A text is padded with spaces on one side, and never cut.
pub proof fn law_padding(s: &str, width: usize, a: String, b: String)
    requires
        call_ensures(table::pad, (s, width), a),
        call_ensures(table::pad_left, (s, width), b),
    ensures
        a@ == left(s@, width as nat),
        b@ == right(s@, width as nat),
{
    lemma_pads();
}

/// The bytes of a text.
pub open spec fn bytes_of(s: Seq<char>) -> nat {
    vstd::utf8::encode_utf8(s).len()
}

/// Whether a width is that of a column: it has room for each of its texts and for
/// its heading, and for no more.
pub open spec fn is_width(column: Seq<Seq<char>>, heading: nat, w: nat) -> bool {
    &&& w >= heading
    &&& forall|i: int| 0 <= i < column.len() ==> bytes_of(#[trigger] column[i]) <= w
    &&& w == heading || exists|i: int| 0 <= i < column.len() && bytes_of(#[trigger] column[i]) == w
}

proof fn lemma_is_width(column: Seq<Seq<char>>, heading: nat)
    ensures
        is_width(column, heading, table::column_width(column, heading)),
    decreases column.len(),
{
    let w = table::column_width(column, heading);
    if column.len() > 0 {
        let t = column.drop_last();
        lemma_is_width(t, heading);
        let before = table::column_width(t, heading);
        assert forall|i: int| 0 <= i < column.len() implies bytes_of(#[trigger] column[i]) <= w by {
            if i < t.len() {
                assert(t[i] == column[i]);
            }
        }
        if w == before && w != heading {
            let i = choose|i: int| 0 <= i < t.len() && bytes_of(#[trigger] t[i]) == before;
            assert(bytes_of(column[i]) == w);
        } else if w != heading {
            assert(bytes_of(column[column.len() - 1]) == w);
        }
    }
}

pub proof fn lemma_width(column: Seq<Seq<char>>, heading: nat, w: nat)
    requires
        is_width(column, heading, w),
    ensures
        table::column_width(column, heading) == w,
{
    lemma_is_width(column, heading);
    let v = table::column_width(column, heading);
    if v < w {
        let i = choose|i: int| 0 <= i < column.len() && bytes_of(#[trigger] column[i]) == w;
        assert(bytes_of(column[i]) <= v);
    }
    if w < v {
        let i = choose|i: int| 0 <= i < column.len() && bytes_of(#[trigger] column[i]) == v;
        assert(bytes_of(column[i]) <= w);
    }
}

/// The wider of two widths is one of them, and less than neither; the width of a
/// text is the number of its bytes.
pub proof fn law_widths(a: usize, b: usize, s: &str, n: usize, r: usize)
    requires
        call_ensures(table::wider, (a, b), r),
        call_ensures(table::byte_len, (s,), n),
    ensures
        r >= a,
        r >= b,
        r == a || r == b,
        n == bytes_of(s@),
{
}

// ---------------------------------------------------------------------------
// Identifiers and sizes
// ---------------------------------------------------------------------------

/// An identifier is shown by its first twelve characters, or all where there are
/// less, without the name of the algorithm in front.
pub proof fn law_short_identifiers(digest: &str, hex: Seq<char>, r: String)
    requires
        call_ensures(fmt::short_id, (digest,), r),
        digest@ == "sha256:"@ + hex || (digest@ == hex && !("sha256:"@).is_prefix_of(hex)),
    ensures
        hex.len() <= 12 ==> r@ == hex,
        hex.len() > 12 ==> r@ == hex.take(12),
{
    let name = "sha256:"@;
    if digest@ == name + hex {
        assert(name =~= digest@.take(name.len() as int));
        assert(digest@.skip(name.len() as int) =~= hex);
    }
    if hex.len() <= 12 {
        assert(hex.take(hex.len() as int) =~= hex);
    }
}

/// A size below a thousand is shown in bytes, as it is.
pub proof fn law_small_sizes(bytes: u64, d: String, r: String)
    requires
        call_ensures(fmt::human_size, (bytes,), r),
        call_ensures(text::decimal_str, (bytes,), d),
        bytes < 1_000,
    ensures
        r@ == d@ + " B"@,
{
}

/// How far a number of tenths may be from a size in some unit, in twentieths of the
/// unit: half a tenth, and a little for the division of doubles.
pub open spec fn is_near(tenths: nat, bytes: nat, unit: nat) -> bool {
    let off = tenths * unit - 10 * bytes;
    let bound = unit + unit / 4096 + bytes / 0x1_0000_0000_0000;
    -bound <= 2 * off <= bound
}

proof fn lemma_power(e: nat)
    ensures
        fmt::two_to(e) > 0,
    decreases e,
{
    if e > 0 {
        lemma_power((e - 1) as nat);
    }
}

proof fn lemma_power_sum(a: nat, b: nat)
    ensures
        fmt::two_to(a) * fmt::two_to(b) == fmt::two_to(a + b),
    decreases a,
{
    let y = fmt::two_to(b);
    if a > 0 {
        let x = fmt::two_to((a - 1) as nat);
        lemma_power_sum((a - 1) as nat, b);
        assert(fmt::two_to(a) * y == 2 * (x * y)) by (nonlinear_arith)
            requires
                fmt::two_to(a) == 2 * x,
        ;
    } else {
        assert(fmt::two_to(a) * y == y) by (nonlinear_arith)
            requires
                fmt::two_to(a) == 1,
        ;
    }
}

proof fn lemma_powers()
    ensures
        fmt::two_to(17) == 0x2_0000,
        fmt::two_to(35) == 0x8_0000_0000,
        fmt::two_to(52) == 0x10_0000_0000_0000,
{
    assert(fmt::two_to(17) == 0x2_0000) by {
        reveal_with_fuel(fmt::two_to, 18);
    }
    assert(fmt::two_to(18) == 0x4_0000) by {
        reveal_with_fuel(fmt::two_to, 19);
    }
    lemma_power_sum(17, 18);
    lemma_power_sum(17, 35);
    assert(0x2_0000 * 0x4_0000 == 0x8_0000_0000) by (nonlinear_arith);
    assert(0x2_0000 * 0x8_0000_0000 == 0x10_0000_0000_0000) by (nonlinear_arith);
}

proof fn lemma_exponent(n: nat, d: nat)
    requires
        0 < d <= n,
    ensures
        d * fmt::two_to(fmt::exponent(n, d)) <= n,
    decreases n - d,
{
    let e = fmt::exponent(n, d);
    if n < 2 * d {
        assert(d * 1 == d) by (nonlinear_arith);
    } else {
        lemma_exponent(n, 2 * d);
        let p = fmt::two_to(fmt::exponent(n, 2 * d));
        assert(d * (2 * p) == (2 * d) * p) by (nonlinear_arith);
    }
}

proof fn lemma_monotone(a: nat, b: nat)
    requires
        a <= b,
    ensures
        fmt::two_to(a) <= fmt::two_to(b),
    decreases b,
{
    lemma_power(a);
    if a < b {
        lemma_monotone(a, (b - 1) as nat);
    }
}

proof fn lemma_rounded(n: nat, d: nat)
    requires
        d > 0,
    ensures
        -(d as int) <= 2 * (fmt::rounded(n, d) * d - n) <= d,
{
    let q = n / d;
    let m = n % d;
    assert(n == q * d + m && 0 <= m < d) by (nonlinear_arith)
        requires
            d > 0,
            q == n / d,
            m == n % d,
    ;
    assert((q + 1) * d == q * d + d) by (nonlinear_arith);
}

proof fn lemma_double(n: nat)
    requires
        n < 0x1_0000_0000_0000_0000,
    ensures
        ({
            let off = fmt::to_double(n) - n;
            &&& -(n as int) <= off * 0x20_0000_0000_0000 <= n
            &&& n < 0x10_0000_0000_0000 ==> off == 0
        }),
{
    let top = fmt::two_to(52);
    lemma_powers();
    let e = fmt::exponent(n, top);
    let step = fmt::two_to(e);
    lemma_power(e);
    lemma_rounded(n, step);
    let off = fmt::to_double(n) - n;
    if n < top {
        assert(e == 0 && step == 1);
        assert(n / 1 == n && n % 1 == 0);
        assert(off == 0) by (nonlinear_arith)
            requires
                off == n * 1 - n,
        ;
    } else {
        lemma_exponent(n, top);
        assert(-(n as int) <= off * 0x20_0000_0000_0000 <= n) by (nonlinear_arith)
            requires
                -(step as int) <= 2 * off <= step,
                0x10_0000_0000_0000 * step <= n,
        ;
    }
}

proof fn lemma_tenths(bytes: nat, unit: nat)
    requires
        unit == 1_000 || unit == 1_000_000 || unit == 1_000_000_000,
        unit <= bytes,
        bytes < unit * 1_000 || (unit == 1_000_000_000 && bytes < 0x1_0000_0000_0000_0000),
    ensures
        is_near(fmt::tenths(bytes, unit), bytes, unit),
{
    lemma_double(bytes);
    lemma_powers();
    let double = fmt::to_double(bytes);
    let error = double - bytes;
    assert(unit <= double) by {
        if bytes >= 0x10_0000_0000_0000 {
            assert(unit <= double) by (nonlinear_arith)
                requires
                    double == bytes + error,
                    -(bytes as int) <= error * 0x20_0000_0000_0000,
                    bytes >= 0x10_0000_0000_0000,
                    unit <= 1_000_000_000,
            ;
        }
    }
    let e = fmt::exponent(double, unit);
    let q = fmt::two_to(e);
    lemma_exponent(double, unit);
    assert(e < 35) by {
        if e >= 35 {
            lemma_monotone(35, e);
            assert(unit * q >= unit * 0x8_0000_0000) by (nonlinear_arith)
                requires
                    q >= 0x8_0000_0000,
            ;
            assert(double < unit * 0x8_0000_0000) by {
                if unit == 1_000_000_000 {
                    assert(double <= 0x1_0000_0000_0000_0000 + 0x1000) by (nonlinear_arith)
                        requires
                            double == bytes + error,
                            error * 0x20_0000_0000_0000 <= bytes,
                            bytes < 0x1_0000_0000_0000_0000,
                    ;
                }
            }
        }
    }
    let point = (52 - e) as nat;
    let scale = fmt::two_to(point);
    lemma_power(point);
    lemma_monotone(17, point);
    let digits = fmt::rounded(double * scale, unit);
    let t = fmt::rounded(10 * digits, scale);
    lemma_rounded(double * scale, unit);
    lemma_rounded(10 * digits, scale);
    let a = digits * unit - double * scale;
    let b = t * scale - 10 * digits;
    let off = t * unit - 10 * double;
    assert(off * scale == 10 * a + unit * b) by (nonlinear_arith)
        requires
            a == digits * unit - double * scale,
            b == t * scale - 10 * digits,
            off == t * unit - 10 * double,
    ;
    let u = unit as int;
    let s = scale as int;
    assert(-(10 * u + u * s) <= 2 * (off * s) <= 10 * u + u * s) by (nonlinear_arith)
        requires
            off * s == 10 * a + u * b,
            -u <= 2 * a <= u,
            -s <= 2 * b <= s,
            u > 0,
    ;
    assert(2 * off <= u + u / 8192) by (nonlinear_arith)
        requires
            2 * (off * s) <= 10 * u + u * s,
            s >= 0x2_0000,
            u >= 1_000,
    ;
    assert(2 * off >= -(u + u / 8192)) by (nonlinear_arith)
        requires
            2 * (off * s) >= -(10 * u + u * s),
            s >= 0x2_0000,
            u >= 1_000,
    ;
    let all = t * unit - 10 * bytes;
    assert(all == off + 10 * error);
    if error != 0 {
        assert(bytes >= 0x10_0000_0000_0000);
        assert(-(bytes / 0x1_0000_0000_0000) <= 20 * error <= bytes / 0x1_0000_0000_0000)
            by (nonlinear_arith)
            requires
                -(bytes as int) <= error * 0x20_0000_0000_0000 <= bytes,
        ;
    }
}

/// Whether a text is a size in a unit: a number with one decimal place that is as
/// near to the size as one place allows, and the name of the unit.
pub open spec fn is_size(s: Seq<char>, bytes: nat, unit: nat, name: Seq<char>) -> bool {
    exists|t: nat| #[trigger]
        is_near(t, bytes, unit) && s == text::decimal(t / 10) + seq![
            '.',
            texts::digit((t % 10) as int),
        ] + name
}

/// Any other size is shown in the largest unit that it reaches, with one decimal
/// place, to which it is rounded.
pub proof fn law_large_sizes(bytes: u64, r: String)
    requires
        call_ensures(fmt::human_size, (bytes,), r),
    ensures
        1_000 <= bytes < 1_000_000 ==> is_size(r@, bytes as nat, 1_000, " kB"@),
        1_000_000 <= bytes < 1_000_000_000 ==> is_size(r@, bytes as nat, 1_000_000, " MB"@),
        1_000_000_000 <= bytes ==> is_size(r@, bytes as nat, 1_000_000_000, " GB"@),
{
    let n = bytes as nat;
    if bytes >= 1_000 {
        let unit: nat = if bytes >= 1_000_000_000 {
            1_000_000_000
        } else if bytes >= 1_000_000 {
            1_000_000
        } else {
            1_000
        };
        lemma_tenths(n, unit);
        let t = fmt::tenths(n, unit);
        assert(is_near(t, n, unit));
        assert(text::digit_char((t % 10) as int) == texts::digit((t % 10) as int));
    }
}

proof fn lemma_exact(n: nat, d: nat, q: nat)
    requires
        d > 0,
        n == q * d,
    ensures
        fmt::rounded(n, d) == q,
{
    assert(n / d == q && n % d == 0) by (nonlinear_arith)
        requires
            d > 0,
            n == q * d,
    ;
}

/// A size that lies exactly between two numbers with one decimal place, by a quarter
/// or three quarters of the unit, is shown as the one whose last digit is even.
pub proof fn law_exact_halves(bytes: u64, unit: nat, m: nat, t: nat, r: String)
    requires
        call_ensures(fmt::human_size, (bytes,), r),
        bytes < 0x10_0000_0000_0000,
        unit == 1_000 && 1_000 <= bytes < 1_000_000 || unit == 1_000_000 && 1_000_000 <= bytes
            < 1_000_000_000 || unit == 1_000_000_000 && 1_000_000_000 <= bytes,
        4 * bytes == m * unit,
        m % 2 == 1,
        t % 2 == 0,
        2 * t == 5 * m + 1 || 2 * t + 1 == 5 * m,
    ensures
        r@.take(r@.len() - 3) == text::decimal(t / 10) + seq!['.', texts::digit((t % 10) as int)],
{
    let n = bytes as nat;
    lemma_double(n);
    lemma_powers();
    let e = fmt::exponent(n, unit);
    lemma_exponent(n, unit);
    assert(e < 35) by {
        if e >= 35 {
            lemma_monotone(35, e);
            assert(unit * fmt::two_to(e) >= 1_000 * 0x8_0000_0000) by (nonlinear_arith)
                requires
                    fmt::two_to(e) >= 0x8_0000_0000,
                    unit >= 1_000,
            ;
            assert(unit * fmt::two_to(e) >= unit * 0x8_0000_0000) by (nonlinear_arith)
                requires
                    fmt::two_to(e) >= 0x8_0000_0000,
            ;
        }
    }
    let point = (52 - e) as nat;
    let quarter = fmt::two_to((point - 2) as nat);
    let scale = fmt::two_to(point);
    lemma_power((point - 2) as nat);
    assert(scale == 4 * quarter) by {
        reveal_with_fuel(fmt::two_to, 3);
    }
    let digits = m * quarter;
    assert(n * scale == digits * unit) by (nonlinear_arith)
        requires
            4 * n == m * unit,
            scale == 4 * quarter,
            digits == m * quarter,
    ;
    lemma_exact(n * scale, unit, digits);
    let q = ((5 * m - 1) / 2) as nat;
    assert(5 * m == 2 * q + 1);
    assert((10 * digits) / scale == q && (10 * digits) % scale == 2 * quarter) by (nonlinear_arith)
        requires
            5 * m == 2 * q + 1,
            digits == m * quarter,
            scale == 4 * quarter,
            quarter > 0,
    ;
    assert(fmt::tenths(n, unit) == t);
    assert(text::digit_char((t % 10) as int) == texts::digit((t % 10) as int));
    let shown = fmt::tenths_text(t);
    reveal_strlit(" GB");
    reveal_strlit(" MB");
    reveal_strlit(" kB");
    assert(r@.take(r@.len() - 3) =~= shown);
}

// ---------------------------------------------------------------------------
// Ages
// ---------------------------------------------------------------------------

/// An age is shown in the largest unit that it reaches, in whole numbers: a month
/// has thirty days, a year three hundred and sixty-five, and one of a day, a week, a
/// month or a year has words of its own.
pub proof fn law_ages(
    secs: u64,
    minutes: String,
    hours: String,
    days: String,
    weeks: String,
    months: String,
    years: String,
    r: String,
)
    requires
        call_ensures(fmt::relative_time_secs, (secs,), r),
        call_ensures(text::decimal_str, ((secs / 60) as u64,), minutes),
        call_ensures(text::decimal_str, ((secs / 3_600) as u64,), hours),
        call_ensures(text::decimal_str, ((secs / 86_400) as u64,), days),
        call_ensures(text::decimal_str, ((secs / 604_800) as u64,), weeks),
        call_ensures(text::decimal_str, ((secs / 2_592_000) as u64,), months),
        call_ensures(text::decimal_str, ((secs / 31_536_000) as u64,), years),
    ensures
        secs < 60 ==> r@ == "just now"@,
        60 <= secs < 3_600 ==> r@ == minutes@ + " minutes ago"@,
        3_600 <= secs < 86_400 ==> r@ == hours@ + " hours ago"@,
        86_400 <= secs < 172_800 ==> r@ == "yesterday"@,
        172_800 <= secs < 604_800 ==> r@ == days@ + " days ago"@,
        604_800 <= secs < 1_209_600 ==> r@ == "1 week ago"@,
        1_209_600 <= secs < 2_592_000 ==> r@ == weeks@ + " weeks ago"@,
        2_592_000 <= secs < 5_184_000 ==> r@ == "1 month ago"@,
        5_184_000 <= secs < 31_536_000 ==> r@ == months@ + " months ago"@,
        31_536_000 <= secs < 63_072_000 ==> r@ == "1 year ago"@,
        63_072_000 <= secs ==> r@ == years@ + " years ago"@,
{
}

/// A point in time is shown by the whole seconds that have gone by since, of which
/// there are none where it lies ahead; without one nothing is known.
pub proof fn law_points_in_time(
    t: Option<SystemTime>,
    now: SystemTime,
    secs: u64,
    age: String,
    r: String,
)
    requires
        call_ensures(fmt::relative_time_at, (t, now), r),
        call_ensures(fmt::relative_time_secs, (secs,), age),
        t is Some && clock::system_nanos(t.unwrap()) <= clock::system_nanos(now) ==> secs
            * 1_000_000_000 <= clock::system_nanos(now) - clock::system_nanos(t.unwrap()) < (secs
            + 1) * 1_000_000_000,
        t is Some && clock::system_nanos(t.unwrap()) > clock::system_nanos(now) ==> secs == 0,
    ensures
        t is Some ==> r@ == age@,
        t is None ==> r@ == "unknown"@,
{
    if t is Some {
        let nanos = clock::system_nanos(now) - clock::system_nanos(t.unwrap());
        assert(fmt::age_at(t.unwrap(), now) == secs);
    }
}

/// A timestamp is shown by the whole seconds that have gone by since, of which there
/// are none where it lies ahead; what is no timestamp, or has no such seconds, is not
/// known.
pub proof fn law_timestamps(
    s: &str,
    now: clock::Instant,
    secs: u64,
    age: String,
    r: String,
)
    requires
        call_ensures(fmt::relative_time_rfc3339_at, (s, now), r),
        call_ensures(fmt::relative_time_secs, (secs,), age),
    ensures
        clock::rfc3339_instant(s@) is None ==> r@ == "unknown"@,
        clock::rfc3339_instant(s@) is Some ==> ({
            let n = clock::seconds_between(now, clock::rfc3339_instant(s@).unwrap());
            &&& n is None ==> r@ == "unknown"@
            &&& n is Some && n.unwrap() >= 0 && n.unwrap() == secs ==> r@ == age@
            &&& n is Some && n.unwrap() < 0 && secs == 0 ==> r@ == age@
        }),
{
}

/// Ages at no point in particular are those at a reading of the clock.
pub proof fn law_ages_now(t: Option<SystemTime>, s: &str, r: String, q: String)
    requires
        call_ensures(fmt::relative_time, (t,), r),
        call_ensures(fmt::relative_time_rfc3339, (s,), q),
    ensures
        t is None ==> r@ == "unknown"@,
        t is Some ==> exists|now: SystemTime|
            #![trigger clock::is_system_reading(now)]
            clock::is_system_reading(now) && forall|x: String| #[trigger]
                call_ensures(fmt::relative_time_at, (t, now), x) ==> r@ == x@,
        exists|now: (i64, u32)|
            #![trigger clock::is_utc_reading(now)]
            clock::is_utc_reading(now) && forall|x: String| #[trigger]
                call_ensures(fmt::relative_time_rfc3339_at, (s, now), x) ==> q@ == x@,
{
    if t is Some {
        let now = choose|now: SystemTime|
            clock::is_system_reading(now) && r@ == fmt::age_text(
                #[trigger] fmt::age_at(t.unwrap(), now),
            );
        assert(clock::is_system_reading(now));
        assert forall|x: String| #[trigger]
            call_ensures(fmt::relative_time_at, (t, now), x) implies r@ == x@ by {}
    }
    let then = choose|now: (i64, u32)|
        {
            &&& clock::is_utc_reading(now) && clock::is_clock_time(now)
            &&& q@ == fmt::known_age_text(#[trigger] fmt::timestamp_age(s@, now))
        };
    assert(clock::is_utc_reading(then));
    assert forall|x: String| #[trigger]
        call_ensures(fmt::relative_time_rfc3339_at, (s, then), x) implies q@ == x@ by {}
}

/// The tables at no point in particular are those at a reading of the clock.
pub proof fn law_tables_now(
    images: &Vec<Image>,
    models: Vec<PsModel>,
    prefix: Option<&str>,
    r: Vec<String>,
    q: Vec<String>,
)
    requires
        call_ensures(list::list_table, (images,), r),
        call_ensures(ps::ps_table, (models, prefix), q),
    ensures
        exists|now: SystemTime|
            #![trigger clock::is_system_reading(now)]
            clock::is_system_reading(now) && forall|x: Vec<String>| #[trigger]
                call_ensures(list::list_table_at, (images, now), x) ==> strings(r@) == strings(x@),
        exists|now: (i64, u32)|
            #![trigger clock::is_utc_reading(now)]
            clock::is_utc_reading(now) && forall|x: Vec<String>| #[trigger]
                call_ensures(ps::ps_table_at, (models, prefix, now), x) ==> strings(q@) == strings(
                x@,
            ),
{
    let now = choose|now: SystemTime|
        clock::is_system_reading(now) && text::texts(r@) == #[trigger] list::table_rows(
            images@,
            now,
        );
    assert(clock::is_system_reading(now));
    assert forall|x: Vec<String>| #[trigger]
        call_ensures(list::list_table_at, (images, now), x) implies strings(r@) == strings(x@) by {
        lemma_strings(r@);
        lemma_strings(x@);
    }
    let shown = ps::shown(models@, text::opt_text(prefix));
    let then = choose|now: (i64, u32)|
        {
            &&& clock::is_utc_reading(now) && clock::is_clock_time(now)
            &&& text::texts(q@) == #[trigger] ps::table_rows(shown, now)
            &&& ps::tell_ages(shown, now)
        };
    assert(clock::is_utc_reading(then));
    assert forall|x: Vec<String>| #[trigger]
        call_ensures(ps::ps_table_at, (models, prefix, then), x) implies strings(q@) == strings(
        x@,
    ) by {
        lemma_strings(q@);
        lemma_strings(x@);
    }
}

// ---------------------------------------------------------------------------
// Tables of models
// ---------------------------------------------------------------------------

/// A row of the table of the store.
pub open spec fn list_row(
    name: Seq<char>,
    id: Seq<char>,
    size: Seq<char>,
    modified: Seq<char>,
    w: nat,
) -> Seq<char> {
    left(name, w) + "    "@ + left(id, 16) + "    "@ + left(size, 10) + "    "@ + modified
}

/// The table of an empty store is empty; any other has a heading and a row for each
/// model, in the order of the store, with its name, its identifier, its size and its
/// age.
pub proof fn law_the_table_of_the_store(
    images: &Vec<Image>,
    now: SystemTime,
    w: nat,
    k: int,
    digest: &str,
    id: String,
    size: String,
    age: String,
    r: Vec<String>,
)
    requires
        call_ensures(list::list_table_at, (images, now), r),
        is_width(images@.map_values(|i: Image| i.reference@), 4, w),
        0 <= k < images@.len(),
        digest@ == images@[k].digest@,
        call_ensures(fmt::short_id, (digest,), id),
        call_ensures(fmt::human_size, (images@[k].size,), size),
        call_ensures(fmt::relative_time_at, (images@[k].modified_at, now), age),
    ensures
        r@.len() == images@.len() + 1,
        r@[0]@ == list_row("NAME"@, "ID"@, "SIZE"@, "MODIFIED"@, w),
        r@[k + 1]@ == list_row(images@[k].reference@, id@, size@, age@, w),
{
    let all = text::texts(r@);
    lemma_width(images@.map_values(|i: Image| i.reference@), 4, w);
    lemma_pads();
    let rows = list::table_rows(images@, now);
    assert(all.len() == r@.len());
    assert(all[0] == r@[0]@);
    assert(all[k + 1] == r@[k + 1]@);
    assert(rows[k + 1] == list::image_row(images@[k], now, w));
}

/// The table of an empty store has no rows.
pub proof fn law_the_table_of_an_empty_store(
    images: &Vec<Image>,
    now: SystemTime,
    r: Vec<String>,
)
    requires
        call_ensures(list::list_table_at, (images, now), r),
        images@.len() == 0,
    ensures
        r@.len() == 0,
{
    assert(text::texts(r@).len() == r@.len());
}

/// Whether a text stands at or before another: it is the start of it, or has the
/// lesser character at the first place where they differ.
pub open spec fn in_order(a: Seq<char>, b: Seq<char>) -> bool {
    exists|n: int|
        0 <= n <= a.len() && n <= b.len() && #[trigger] a.take(n) == b.take(n) && (n == a.len() || (
        n < b.len() && a[n] < b[n]))
}

proof fn lemma_in_order(a: Seq<char>, b: Seq<char>)
    requires
        ps::at_or_before(a, b),
    ensures
        in_order(a, b),
    decreases a.len(),
{
    if a.len() == 0 || b.len() == 0 || a[0] != b[0] {
        assert(a.take(0) =~= b.take(0));
    } else {
        let x = a.drop_first();
        let y = b.drop_first();
        lemma_in_order(x, y);
        let n = choose|n: int|
            0 <= n <= x.len() && n <= y.len() && #[trigger] x.take(n) == y.take(n) && (n == x.len()
                || (n < y.len() && x[n] < y[n]));
        assert forall|i: int| 0 <= i < n + 1 implies a[i] == b[i] by {
            if i > 0 {
                assert(x.take(n)[i - 1] == y.take(n)[i - 1]);
            }
        }
        assert(a.take(n + 1) =~= b.take(n + 1));
    }
}

/// Whether a model is asked for.
pub open spec fn is_asked_for(m: PsModel, prefix: Option<&str>) -> bool {
    prefix is None || prefix.unwrap()@.is_prefix_of(m.name@)
}

/// A row of the table of models that run.
pub open spec fn ps_row(
    name: Seq<char>,
    id: Seq<char>,
    size: Seq<char>,
    processor: Seq<char>,
    context: Seq<char>,
    started: Seq<char>,
    w: nat,
    v: nat,
) -> Seq<char> {
    left(name, w) + "    "@ + left(id, 12) + "    "@ + left(size, 10) + "    "@ + left(
        processor,
        v,
    ) + "    "@ + left(context, 9) + "    "@ + started
}

/// The models that the table of those that run shows: all that are asked for, as
/// often as they are there, in the order of their names.
pub open spec fn are_shown(
    models: Seq<PsModel>,
    prefix: Option<&str>,
    rows: Seq<PsModel>,
) -> bool {
    &&& rows.to_multiset() == models.filter(|m: PsModel| is_asked_for(m, prefix)).to_multiset()
    &&& forall|i: int, j: int|
        #![trigger rows[i], rows[j]]
        0 <= i < j < rows.len() ==> in_order(rows[i].name@, rows[j].name@)
}

/// The table of models that run shows all that are asked for, in the order of their
/// names.
pub proof fn law_which_models_are_shown(
    models: Vec<PsModel>,
    prefix: Option<&str>,
    now: clock::Instant,
    r: Vec<String>,
)
    requires
        call_ensures(ps::ps_table_at, (models, prefix, now), r),
    ensures
        are_shown(models@, prefix, ps::shown(models@, text::opt_text(prefix))),
        r@.len() == ps::shown(models@, text::opt_text(prefix)).len() + 1,
{
    let p = text::opt_text(prefix);
    let rows = ps::shown(models@, p);
    ps::law_shown_models(models@, p);
    let f = |m: PsModel| ps::is_shown(m, p);
    let g = |m: PsModel| is_asked_for(m, prefix);
    assert forall|m: PsModel| #[trigger] f(m) == g(m) by {}
    assert(f =~= g);
    assert forall|i: int, j: int|
        #![trigger rows[i], rows[j]]
        0 <= i < j < rows.len() implies in_order(rows[i].name@, rows[j].name@) by {
        lemma_in_order(rows[i].name@, rows[j].name@);
    }
    assert(text::texts(r@).len() == r@.len());
}

/// Whether a model has a name.
pub open spec fn is_named(m: PsModel, name: Seq<char>) -> bool {
    m.name@ == name
}

proof fn lemma_reflexive(a: Seq<char>)
    ensures
        ps::at_or_before(a, a),
    decreases a.len(),
{
    if a.len() > 0 {
        lemma_reflexive(a.drop_first());
    }
}

proof fn lemma_inserted_of_a_name(s: Seq<PsModel>, m: PsModel, name: Seq<char>)
    ensures
        ({
            let f = |x: PsModel| is_named(x, name);
            ps::inserted(s, m).filter(f) == if is_named(m, name) {
                s.filter(f).push(m)
            } else {
                s.filter(f)
            }
        }),
    decreases s.len(),
{
    reveal(Seq::filter);
    let f = |x: PsModel| is_named(x, name);
    if s.len() == 0 {
        let one = seq![m];
        assert(one.drop_last() =~= s);
        assert(one.last() == m);
        assert(s.filter(f) =~= Seq::<PsModel>::empty());
    } else if ps::at_or_before(s.last().name@, m.name@) {
        assert(s.push(m).drop_last() =~= s);
    } else {
        let t = s.drop_last();
        let l = s.last();
        lemma_reflexive(l.name@);
        lemma_inserted_of_a_name(t, m, name);
        let u = ps::inserted(t, m);
        assert(u.push(l).drop_last() =~= u);
    }
}

proof fn lemma_sorted_of_a_name(models: Seq<PsModel>, name: Seq<char>)
    ensures
        ({
            let f = |x: PsModel| is_named(x, name);
            ps::sorted(models).filter(f) == models.filter(f)
        }),
    decreases models.len(),
{
    reveal(Seq::filter);
    if models.len() > 0 {
        lemma_sorted_of_a_name(models.drop_last(), name);
        lemma_inserted_of_a_name(ps::sorted(models.drop_last()), models.last(), name);
    }
}

/// Models of one name are shown in the order in which they come.
pub proof fn law_models_of_one_name_stay_in_order(
    models: Vec<PsModel>,
    prefix: Option<&str>,
    now: clock::Instant,
    name: Seq<char>,
    r: Vec<String>,
)
    requires
        call_ensures(ps::ps_table_at, (models, prefix, now), r),
    ensures
        ps::shown(models@, text::opt_text(prefix)).filter(|x: PsModel| is_named(x, name))
            == models@.filter(|m: PsModel| is_asked_for(m, prefix)).filter(
            |x: PsModel| is_named(x, name),
        ),
{
    let p = text::opt_text(prefix);
    let f = |m: PsModel| ps::is_shown(m, p);
    let g = |m: PsModel| is_asked_for(m, prefix);
    assert forall|m: PsModel| #[trigger] f(m) == g(m) by {}
    assert(f =~= g);
    lemma_sorted_of_a_name(models@.filter(f), name);
}

/// A row of the table of models that run tells the name of the model, its
/// identifier, its size, its engine, its context where that is known, and since when
/// it runs.
pub proof fn law_what_is_shown_of_a_model(
    models: Vec<PsModel>,
    prefix: Option<&str>,
    now: clock::Instant,
    w: nat,
    v: nat,
    k: int,
    digest: &str,
    started: &str,
    id: String,
    size: String,
    context: String,
    age: String,
    r: Vec<String>,
)
    requires
        call_ensures(ps::ps_table_at, (models, prefix, now), r),
        ({
            let rows = ps::shown(models@, text::opt_text(prefix));
            &&& is_width(rows.map_values(|m: PsModel| m.name@), 4, w)
            &&& is_width(rows.map_values(|m: PsModel| m.processor@), 9, v)
            &&& 0 <= k < rows.len()
            &&& digest@ == rows[k].digest@
            &&& started@ == rows[k].started_at@
            &&& call_ensures(fmt::short_id, (digest,), id)
            &&& call_ensures(fmt::human_size, (rows[k].size,), size)
            &&& call_ensures(fmt::relative_time_rfc3339_at, (started, now), age)
            &&& rows[k].context_length is Some ==> call_ensures(
                text::decimal_str,
                (rows[k].context_length.unwrap(),),
                context,
            )
            &&& rows[k].context_length is None ==> context@.len() == 0
        }),
    ensures
        r@[0]@ == ps_row(
            "NAME"@,
            "ID"@,
            "SIZE"@,
            "PROCESSOR"@,
            "CONTEXT"@,
            "STARTED"@,
            w,
            v,
        ),
        ({
            let m = ps::shown(models@, text::opt_text(prefix))[k];
            r@[k + 1]@ == ps_row(m.name@, id@, size@, m.processor@, context@, age@, w, v)
        }),
{
    let shown = ps::shown(models@, text::opt_text(prefix));
    let all = text::texts(r@);
    lemma_width(shown.map_values(|m: PsModel| m.name@), 4, w);
    lemma_width(shown.map_values(|m: PsModel| m.processor@), 9, v);
    lemma_pads();
    let rows = ps::table_rows(shown, now);
    assert(all.len() == r@.len());
    assert(all[0] == r@[0]@);
    assert(all[k + 1] == r@[k + 1]@);
    assert(rows[k + 1] == ps::model_row(shown[k], now, w, v));
    if shown[k].context_length is None {
        assert(context@ =~= ps::number_text(None));
    }
}

} // verus!
