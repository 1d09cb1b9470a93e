//! How identifiers, sizes and ages are shown.

use vstd::prelude::*;

use crate::clock;
use crate::text;

verus! {

// ---------------------------------------------------------------------------
// Identifiers
// ---------------------------------------------------------------------------

/// A digest without the name of its algorithm.
pub open spec fn bare_digest(digest: Seq<char>) -> Seq<char> {
    if "sha256:"@.is_prefix_of(digest) {
        digest.skip("sha256:"@.len() as int)
    } else {
        digest
    }
}

/// The first 12 characters of a digest, without the name of its algorithm.
pub fn short_id(digest: &str) -> (r: String)
    ensures
        r@ == bare_digest(digest@).take(
            if bare_digest(digest@).len() < 12 {
                bare_digest(digest@).len() as int
            } else {
                12
            },
        ),
{
    let hex = match text::strip_prefix(digest, "sha256:") {
        Some(h) => h,
        None => digest.to_owned(),
    };
    let v = text::to_chars(hex.as_str());
    let n: usize = if v.len() < 12 {
        v.len()
    } else {
        12
    };
    text::from_chars(&v, 0, n)
}

// ---------------------------------------------------------------------------
// Sizes
// ---------------------------------------------------------------------------

/// `n / d` as an integer: the nearest one, and of two as near the even one.
pub open spec fn rounded(n: nat, d: nat) -> nat {
    let q = n / d;
    let twice = 2 * (n % d);
    if twice < d || (twice == d && q % 2 == 0) {
        q
    } else {
        q + 1
    }
}

/// `2^e`.
pub open spec fn two_to(e: nat) -> nat
    decreases e,
{
    if e == 0 {
        1
    } else {
        2 * two_to((e - 1) as nat)
    }
}

/// The exponent of the power of two at or below `n / d`.
pub open spec fn exponent(n: nat, d: nat) -> nat
    decreases n - d,
{
    if d == 0 || n < 2 * d {
        0
    } else {
        1 + exponent(n, 2 * d)
    }
}

/// The double nearest to an integer: 53 binary digits of it.
pub open spec fn to_double(n: nat) -> nat {
    let step = two_to(exponent(n, two_to(52)));
    rounded(n, step) * step
}

/// The digits of the double nearest to `n / d`, and the number of them behind
/// the binary point. The quotient is at least 1 and less than `2^52`.
pub open spec fn quotient(n: nat, d: nat) -> (nat, nat) {
    let point = (52 - exponent(n, d)) as nat;
    (rounded(n * two_to(point), d), point)
}

/// The tenths of a size in some unit: the size and the unit are divided as
/// doubles, and the quotient is rounded to one decimal place.
pub open spec fn tenths(bytes: nat, unit: nat) -> nat {
    let (digits, point) = quotient(to_double(bytes), unit);
    rounded(10 * digits, two_to(point))
}

/// A number of tenths with its decimal point.
pub open spec fn tenths_text(t: nat) -> Seq<char> {
    text::decimal(t / 10) + seq!['.', text::digit_char((t % 10) as int)]
}

/// A size with the largest decimal unit that it reaches.
pub open spec fn size_text(bytes: nat) -> Seq<char> {
    if bytes >= 1_000_000_000 {
        tenths_text(tenths(bytes, 1_000_000_000)) + " GB"@
    } else if bytes >= 1_000_000 {
        tenths_text(tenths(bytes, 1_000_000)) + " MB"@
    } else if bytes >= 1_000 {
        tenths_text(tenths(bytes, 1_000)) + " kB"@
    } else {
        text::decimal(bytes) + " B"@
    }
}

fn round_div(n: u128, d: u128) -> (r: u128)
    requires
        0 < d,
        d <= 0x8000_0000_0000_0000_0000_0000_0000_0000 - 1,
        n < 0x8000_0000_0000_0000_0000_0000_0000_0000,
    ensures
        r == rounded(n as nat, d as nat),
        r <= n / d + 1,
{
    let q: u128 = n / d;
    let twice: u128 = 2 * (n % d);
    assert(q <= n) by (nonlinear_arith)
        requires
            q == n / d,
            d > 0,
    ;
    if twice < d || (twice == d && q % 2 == 0) {
        q
    } else {
        q + 1
    }
}

proof fn lemma_two_to(e: nat)
    ensures
        two_to(e) > 0,
        forall|f: nat| f <= e ==> #[trigger] two_to(f) <= two_to(e),
    decreases e,
{
    if e > 0 {
        lemma_two_to((e - 1) as nat);
    }
}

proof fn lemma_two_to_sum(a: nat, b: nat)
    ensures
        two_to(a) * two_to(b) == two_to(a + b),
    decreases a,
{
    let y = two_to(b);
    if a > 0 {
        let x = two_to((a - 1) as nat);
        lemma_two_to_sum((a - 1) as nat, b);
        assert((a + b - 1) as nat == (a - 1) as nat + b);
        assert(two_to(a) * y == 2 * (x * y)) by (nonlinear_arith)
            requires
                two_to(a) == 2 * x,
        ;
    } else {
        assert(two_to(a) * y == y) by (nonlinear_arith)
            requires
                two_to(a) == 1,
        ;
    }
}

proof fn lemma_two_to_values()
    ensures
        two_to(0) == 1,
        two_to(36) == 0x10_0000_0000,
        two_to(52) == 0x10_0000_0000_0000,
        two_to(63) == 0x8000_0000_0000_0000,
        two_to(64) == 0x1_0000_0000_0000_0000,
{
    assert(two_to(4) == 16) by {
        reveal_with_fuel(two_to, 5);
    }
    assert(two_to(16) == 0x1_0000) by {
        reveal_with_fuel(two_to, 17);
    }
    lemma_two_to_sum(16, 16);
    lemma_two_to_sum(32, 4);
    lemma_two_to_sum(36, 16);
    lemma_two_to_sum(32, 32);
    assert(two_to(32) == 0x1_0000_0000);
    assert(two_to(32) * two_to(32) == 0x1_0000_0000_0000_0000) by (nonlinear_arith)
        requires
            two_to(32) == 0x1_0000_0000,
    ;
    assert(two_to(64) == 2 * two_to(63));
}

fn power(e: u32) -> (r: u128)
    requires
        e <= 64,
    ensures
        r == two_to(e as nat),
        0 < r <= 0x1_0000_0000_0000_0000,
    decreases e,
{
    if e == 0 {
        1
    } else {
        let r: u128 = power(e - 1);
        proof {
            lemma_two_to(63);
            lemma_two_to_values();
            assert(two_to((e - 1) as nat) <= two_to(63));
        }
        2 * r
    }
}

fn exponent_of(n: u128, d: u128) -> (r: u32)
    requires
        0 < d <= n,
        n < 0x1_0000_0000_0000_0000 * 2,
    ensures
        r == exponent(n as nat, d as nat),
        r <= 64,
        d * two_to(r as nat) <= n < 2 * d * two_to(r as nat),
{
    let mut e: u32 = 0;
    let mut p: u128 = d;
    let ghost mut q: nat = 1;
    while p <= n - p
        invariant
            0 < d <= p <= n,
            n < 0x1_0000_0000_0000_0000 * 2,
            q == two_to(e as nat),
            p == d * q,
            q <= p,
            e < 65,
            exponent(n as nat, d as nat) == e + exponent(n as nat, p as nat),
        decreases n - p,
    {
        proof {
            lemma_two_to_values();
            assert(d * (2 * q) == 2 * (d * q)) by (nonlinear_arith);
        }
        p = 2 * p;
        e = e + 1;
        proof {
            q = 2 * q;
        }
    }
    proof {
        assert(2 * d * q == 2 * (d * q)) by (nonlinear_arith);
        lemma_two_to_values();
        lemma_two_to(e as nat);
    }
    e
}

/// The double nearest to an integer.
fn nearest_double(n: u128) -> (r: u128)
    requires
        n < 0x1_0000_0000_0000_0000,
    ensures
        r == to_double(n as nat),
        n < 0x10_0000_0000_0000 ==> r == n,
        n - n / 0x10_0000_0000_0000 <= r <= n + n / 0x10_0000_0000_0000,
{
    let top: u128 = power(52);
    proof {
        lemma_two_to_values();
    }
    if n < top {
        proof {
            assert(exponent(n as nat, two_to(52)) == 0);
            assert(rounded(n as nat, 1) == n);
        }
        n
    } else {
        let e: u32 = exponent_of(n, top);
        let step: u128 = power(e);
        let q: u128 = round_div(n, step);
        proof {
            assert(q * step <= n + step) by (nonlinear_arith)
                requires
                    q <= n / step + 1,
                    step > 0,
            ;
            assert(q * step >= n - step) by (nonlinear_arith)
                requires
                    q >= n / step,
                    step > 0,
            ;
            assert(step <= n / 0x10_0000_0000_0000);
            assert(to_double(n as nat) == q * step);
        }
        q * step
    }
}

/// The tenths of a size in a unit.
fn tenths_of(bytes: u64, unit: u64) -> (r: u64)
    requires
        1_000 <= unit <= 1_000_000_000,
        unit <= bytes < unit * 0x8_0000_0000,
    ensures
        r == tenths(bytes as nat, unit as nat),
{
    let double: u128 = nearest_double(bytes as u128);
    let unit: u128 = unit as u128;
    assert(unit <= double);
    let e: u32 = exponent_of(double, unit);
    let ghost q = two_to(e as nat);
    proof {
        lemma_two_to_values();
        lemma_two_to(e as nat);
        assert(e < 36) by {
            if e >= 36 {
                assert(unit * q >= unit * 0x10_0000_0000) by (nonlinear_arith)
                    requires
                        q >= 0x10_0000_0000,
                        unit > 0,
                ;
                assert(false);
            }
        }
    }
    let scale: u128 = power(52 - e);
    proof {
        lemma_two_to_sum(e as nat, (52 - e) as nat);
        assert(q * scale == 0x10_0000_0000_0000);
        assert(double * scale < unit * 0x20_0000_0000_0000) by (nonlinear_arith)
            requires
                double < 2 * unit * q,
                q * scale == 0x10_0000_0000_0000,
                scale > 0,
        ;
    }
    let digits: u128 = round_div(double * scale, unit);
    proof {
        assert(digits <= 0x20_0000_0000_0000) by (nonlinear_arith)
            requires
                digits <= (double * scale) / (unit as int) + 1,
                double * scale < unit * 0x20_0000_0000_0000,
                unit > 0,
        ;
    }
    let t: u128 = round_div(10 * digits, scale);
    proof {
        assert(t <= 10 * digits + 1) by (nonlinear_arith)
            requires
                t <= (10 * digits) / (scale as int) + 1,
                scale > 0,
        ;
    }
    t as u64
}

/// A size with the largest decimal unit that it reaches, and one decimal place.
pub fn human_size(bytes: u64) -> (r: String)
    ensures
        r@ == size_text(bytes as nat),
{
    if bytes >= 1_000_000_000 {
        with_unit(tenths_of(bytes, 1_000_000_000), " GB")
    } else if bytes >= 1_000_000 {
        with_unit(tenths_of(bytes, 1_000_000), " MB")
    } else if bytes >= 1_000 {
        with_unit(tenths_of(bytes, 1_000), " kB")
    } else {
        let mut s = text::decimal_str(bytes);
        s.append(" B");
        s
    }
}

fn with_unit(t: u64, unit: &str) -> (r: String)
    ensures
        r@ == tenths_text(t as nat) + unit@,
{
    let mut s = text::decimal_str(t / 10);
    s.append(".");
    s.append(text::decimal_str(t % 10).as_str());
    proof {
        reveal_strlit(".");
        assert(text::decimal((t % 10) as nat) == seq![text::digit_char((t % 10) as int)]);
        assert(s@ =~= tenths_text(t as nat));
    }
    s.append(unit);
    s
}

// ---------------------------------------------------------------------------
// Ages
// ---------------------------------------------------------------------------

/// An age in whole numbers of a unit.
pub open spec fn counted(secs: nat, unit: nat, words: Seq<char>) -> Seq<char> {
    text::decimal(secs / unit) + words
}

/// An age in the largest unit that it reaches. A month has 30 days, a year 365.
pub open spec fn age_text(secs: nat) -> Seq<char> {
    let day = 86_400;
    if secs < 60 {
        "just now"@
    } else if secs < 3_600 {
        counted(secs, 60, " minutes ago"@)
    } else if secs < day {
        counted(secs, 3_600, " hours ago"@)
    } else if secs < 2 * day {
        "yesterday"@
    } else if secs < 7 * day {
        counted(secs, day, " days ago"@)
    } else if secs < 14 * day {
        "1 week ago"@
    } else if secs < 30 * day {
        counted(secs, 7 * day, " weeks ago"@)
    } else if secs < 60 * day {
        "1 month ago"@
    } else if secs < 365 * day {
        counted(secs, 30 * day, " months ago"@)
    } else if secs < 730 * day {
        "1 year ago"@
    } else {
        counted(secs, 365 * day, " years ago"@)
    }
}

fn count(secs: u64, unit: u64, words: &str) -> (r: String)
    requires
        unit > 0,
    ensures
        r@ == counted(secs as nat, unit as nat, words@),
{
    let mut s = text::decimal_str(secs / unit);
    s.append(words);
    s
}

/// An age in the largest unit that it reaches.
pub fn relative_time_secs(secs: u64) -> (r: String)
    ensures
        r@ == age_text(secs as nat),
{
    let day: u64 = 86_400;
    if secs < 60 {
        "just now".to_owned()
    } else if secs < 3_600 {
        count(secs, 60, " minutes ago")
    } else if secs < day {
        count(secs, 3_600, " hours ago")
    } else if secs < 2 * day {
        "yesterday".to_owned()
    } else if secs < 7 * day {
        count(secs, day, " days ago")
    } else if secs < 14 * day {
        "1 week ago".to_owned()
    } else if secs < 30 * day {
        count(secs, 7 * day, " weeks ago")
    } else if secs < 60 * day {
        "1 month ago".to_owned()
    } else if secs < 365 * day {
        count(secs, 30 * day, " months ago")
    } else if secs < 730 * day {
        "1 year ago".to_owned()
    } else {
        count(secs, 365 * day, " years ago")
    }
}

/// The whole seconds from one point to another, which are 0 where the first is
/// the later of the two.
pub open spec fn age_at(t: std::time::SystemTime, now: std::time::SystemTime) -> nat {
    let nanos = clock::system_nanos(now) - clock::system_nanos(t);
    if nanos >= 0 {
        (nanos / 1_000_000_000) as nat
    } else {
        0
    }
}

/// How long before `now` a point in time was.
pub fn relative_time_at(t: Option<std::time::SystemTime>, now: std::time::SystemTime) -> (r: String)
    ensures
        r@ == match t {
            Some(t) => age_text(age_at(t, now)),
            None => "unknown"@,
        },
{
    match t {
        Some(t) => match now.duration_since(t) {
            Ok(d) => relative_time_secs(d.as_secs()),
            Err(_) => relative_time_secs(0),
        },
        None => "unknown".to_owned(),
    }
}

/// How long a point in time was before a reading of the clock.
pub fn relative_time(t: Option<std::time::SystemTime>) -> (r: String)
    ensures
        match t {
            Some(t) => exists|now: std::time::SystemTime|
                clock::is_system_reading(now) && r@ == age_text(#[trigger] age_at(t, now)),
            None => r@ == "unknown"@,
        },
{
    relative_time_at(t, clock::system_reading())
}

/// The age of an RFC 3339 timestamp at a point in time: nothing where it is no
/// timestamp, and 0 where it lies ahead.
pub open spec fn timestamp_age(s: Seq<char>, now: (i64, u32)) -> Option<nat> {
    match clock::rfc3339_instant(s) {
        Some(then) => match clock::seconds_between(now, then) {
            Some(n) => Some(
                if n >= 0 {
                    n as nat
                } else {
                    0
                },
            ),
            None => None,
        },
        None => None,
    }
}

/// Whether a timestamp has an age at a point in time, unless it is no timestamp or
/// the point is out of range.
pub open spec fn tells_age(s: Seq<char>, now: (i64, u32)) -> bool {
    clock::rfc3339_instant(s) is Some && clock::is_known(now) ==> timestamp_age(s, now) is Some
}

/// How an age is shown that may not be known.
pub open spec fn known_age_text(age: Option<nat>) -> Seq<char> {
    match age {
        Some(secs) => age_text(secs),
        None => "unknown"@,
    }
}

/// How long before `now` an RFC 3339 timestamp was.
pub fn relative_time_rfc3339_at(s: &str, now: clock::Instant) -> (r: String)
    ensures
        r@ == known_age_text(timestamp_age(s@, now)),
        tells_age(s@, now),
{
    match clock::parse_rfc3339(s) {
        Some(then) => match clock::seconds_since(now, then) {
            Some(n) => relative_time_secs(
                if n >= 0 {
                    n as u64
                } else {
                    0
                },
            ),
            None => "unknown".to_owned(),
        },
        None => "unknown".to_owned(),
    }
}

/// How long an RFC 3339 timestamp was before a reading of the clock: always an age.
/// Only a text that is no timestamp is shown as unknown.
pub fn relative_time_rfc3339(s: &str) -> (r: String)
    ensures
        exists|now: (i64, u32)|
            {
                &&& clock::is_utc_reading(now) && clock::is_clock_time(now)
                &&& r@ == known_age_text(#[trigger] timestamp_age(s@, now))
            },
        clock::rfc3339_instant(s@) is Some ==> exists|age: nat| r@ == #[trigger] age_text(age),
        clock::rfc3339_instant(s@) is None ==> r@ == "unknown"@,
{
    relative_time_rfc3339_at(s, clock::utc_reading())
}

/// A point in time that lies ahead is shown as just now.
pub proof fn law_future_is_just_now(t: std::time::SystemTime, now: std::time::SystemTime)
    requires
        clock::system_nanos(now) <= clock::system_nanos(t),
    ensures
        age_text(age_at(t, now)) == "just now"@,
{
}

} // verus!
