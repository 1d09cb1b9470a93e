//! Laws of texts.

use vstd::prelude::*;

use crate::laws::lines;
use crate::text;

verus! {

/// Whether a character is white space, by its number.
pub open spec fn white(c: char) -> bool {
    let n = c as u32;
    9 <= n <= 13 || n == 0x20 || n == 0x85 || n == 0xa0 || n == 0x1680 || 0x2000 <= n <= 0x200a
        || n == 0x2028 || n == 0x2029 || n == 0x202f || n == 0x205f || n == 0x3000
}

/// Whether a text is white space throughout.
pub open spec fn all_white(s: Seq<char>) -> bool {
    forall|i: int| 0 <= i < s.len() ==> white(#[trigger] s[i])
}

/// Whether a text has no white space.
pub open spec fn no_white(s: Seq<char>) -> bool {
    forall|i: int| 0 <= i < s.len() ==> !white(#[trigger] s[i])
}

/// White space is what Unicode says it is.
pub proof fn law_white_space(c: char, r: bool)
    requires
        call_ensures(text::is_whitespace, (c,), r),
    ensures
        r <==> white(c),
{
    lemma_white(c);
}

pub proof fn lemma_white(c: char)
    ensures
        text::is_white(c) == white(c),
{
    let n = c as u32;
    if text::is_white(c) != white(c) {
        assert('\u{9}' as u32 == 9 && '\u{d}' as u32 == 13 && '\u{20}' as u32 == 0x20);
        assert('\u{85}' as u32 == 0x85 && '\u{a0}' as u32 == 0xa0 && '\u{1680}' as u32 == 0x1680);
        assert('\u{2000}' as u32 == 0x2000 && '\u{200a}' as u32 == 0x200a);
        assert('\u{2028}' as u32 == 0x2028 && '\u{2029}' as u32 == 0x2029);
        assert('\u{202f}' as u32 == 0x202f && '\u{205f}' as u32 == 0x205f && '\u{3000}' as u32
            == 0x3000);
        vstd::utf8::char_u32_cast(c, n);
    }
}

pub proof fn lemma_trim_start(gap: Seq<char>, t: Seq<char>)
    requires
        all_white(gap),
        t.len() > 0 ==> !white(t[0]),
    ensures
        text::trim_start_spec(gap + t) == t,
    decreases gap.len(),
{
    if gap.len() == 0 {
        assert(gap + t =~= t);
        if t.len() > 0 {
            lemma_white(t[0]);
        }
    } else {
        lemma_white(gap[0]);
        assert(white(gap[0]));
        let rest = gap.drop_first();
        assert forall|i: int| 0 <= i < rest.len() implies white(#[trigger] rest[i]) by {
            assert(rest[i] == gap[i + 1]);
        }
        assert((gap + t).drop_first() =~= rest + t);
        lemma_trim_start(rest, t);
    }
}

proof fn lemma_trim_end(t: Seq<char>, gap: Seq<char>)
    requires
        all_white(gap),
        t.len() > 0 ==> !white(t.last()),
    ensures
        text::trim_end_spec(t + gap) == t,
    decreases gap.len(),
{
    if gap.len() == 0 {
        assert(t + gap =~= t);
        if t.len() > 0 {
            lemma_white(t.last());
        }
    } else {
        lemma_white(gap.last());
        assert(white(gap[gap.len() - 1]));
        let rest = gap.drop_last();
        assert forall|i: int| 0 <= i < rest.len() implies white(#[trigger] rest[i]) by {
            assert(rest[i] == gap[i]);
        }
        assert((t + gap).drop_last() =~= t + rest);
        lemma_trim_end(t, rest);
    }
}

/// A text is trimmed of the white space at its two ends, of all of it and of
/// nothing else.
pub proof fn law_trimming(s: &str, a: Seq<char>, t: Seq<char>, b: Seq<char>, r: String)
    requires
        call_ensures(text::trim, (s,), r),
        s@ == a + t + b,
        all_white(a),
        all_white(b),
        t.len() > 0 ==> !white(t[0]) && !white(t.last()),
    ensures
        r@ == t,
{
    if t.len() == 0 {
        let gap = a + b;
        assert forall|i: int| 0 <= i < gap.len() implies white(#[trigger] gap[i]) by {
            if i < a.len() {
                assert(gap[i] == a[i]);
            } else {
                assert(gap[i] == b[i - a.len()]);
            }
        }
        assert(s@ =~= gap + t);
        lemma_trim_start(gap, t);
        assert(text::trim_end_spec(t) =~= t);
    } else {
        let rest = t + b;
        assert(s@ =~= a + rest);
        assert(rest[0] == t[0]);
        lemma_trim_start(a, rest);
        lemma_trim_end(t, b);
    }
}

/// A text is trimmed of the white space at its start alone.
pub proof fn law_trimming_the_start(s: &str, a: Seq<char>, t: Seq<char>, r: String)
    requires
        call_ensures(text::trim_start, (s,), r),
        s@ == a + t,
        all_white(a),
        t.len() > 0 ==> !white(t[0]),
    ensures
        r@ == t,
{
    lemma_trim_start(a, t);
}

/// A text is trimmed of all the copies of a character at its end.
pub proof fn law_trimming_a_character(s: &str, c: char, r: String)
    requires
        call_ensures(text::trim_end_char, (s, c), r),
    ensures
        lines::is_without_end(r@, s@, c),
{
    lines::lemma_without_end(s@, c);
}

/// Words with white space before, between and behind them.
pub open spec fn woven(gaps: Seq<Seq<char>>, words: Seq<Seq<char>>) -> Seq<char>
    decreases words.len(),
{
    if words.len() == 0 {
        gaps[0]
    } else {
        gaps[0] + words[0] + woven(gaps.drop_first(), words.drop_first())
    }
}

/// Whether white space can stand before, between and behind words.
pub open spec fn are_woven(gaps: Seq<Seq<char>>, words: Seq<Seq<char>>) -> bool {
    &&& gaps.len() == words.len() + 1
    &&& forall|i: int| 0 <= i < gaps.len() ==> all_white(#[trigger] gaps[i])
    &&& forall|i: int| 0 < i < words.len() ==> (#[trigger] gaps[i]).len() > 0
    &&& forall|i: int|
        0 <= i < words.len() ==> (#[trigger] words[i]).len() > 0 && no_white(words[i])
}

proof fn lemma_word(word: Seq<char>, rest: Seq<char>)
    requires
        no_white(word),
        rest.len() > 0 ==> white(rest[0]),
    ensures
        text::word_len(word + rest) == word.len(),
    decreases word.len(),
{
    if word.len() == 0 {
        assert(word + rest =~= rest);
        if rest.len() > 0 {
            lemma_white(rest[0]);
        }
    } else {
        lemma_white(word[0]);
        assert(!white(word[0]));
        let w = word.drop_first();
        assert forall|i: int| 0 <= i < w.len() implies !white(#[trigger] w[i]) by {
            assert(w[i] == word[i + 1]);
        }
        assert((word + rest).drop_first() =~= w + rest);
        lemma_word(w, rest);
    }
}

proof fn lemma_words(gaps: Seq<Seq<char>>, words: Seq<Seq<char>>)
    requires
        are_woven(gaps, words),
    ensures
        text::words_spec(woven(gaps, words)) == words,
        words.len() > 0 && gaps[0].len() > 0 ==> white(woven(gaps, words)[0]),
        words.len() == 0 && woven(gaps, words).len() > 0 ==> white(woven(gaps, words)[0]),
    decreases words.len(),
{
    let s = woven(gaps, words);
    assert(all_white(gaps[0]));
    if gaps[0].len() > 0 {
        assert(white(gaps[0][0]));
    }
    if words.len() == 0 {
        assert(s =~= gaps[0] + seq![]);
        lemma_trim_start(gaps[0], seq![]);
        assert(text::words_spec(s) =~= words);
    } else {
        let g = gaps.drop_first();
        let w = words.drop_first();
        let rest = woven(g, w);
        assert forall|i: int| 0 <= i < g.len() implies all_white(#[trigger] g[i]) by {
            assert(g[i] == gaps[i + 1]);
        }
        assert forall|i: int| 0 < i < w.len() implies (#[trigger] g[i]).len() > 0 by {
            assert(g[i] == gaps[i + 1]);
        }
        assert forall|i: int| 0 <= i < w.len() implies (#[trigger] w[i]).len() > 0 && no_white(
            w[i],
        ) by {
            assert(w[i] == words[i + 1]);
        }
        lemma_words(g, w);
        let word = words[0];
        assert(word.len() > 0 && no_white(word));
        assert(!white(word[0]));
        if w.len() > 0 {
            assert(gaps[1].len() > 0);
        }
        let t = word + rest;
        assert(s =~= gaps[0] + t);
        assert(t[0] == word[0]);
        lemma_trim_start(gaps[0], t);
        lemma_word(word, rest);
        assert(t.take(word.len() as int) =~= word);
        assert(t.skip(word.len() as int) =~= rest);
        assert(text::words_spec(s) =~= seq![word] + w);
        assert(seq![word] + w =~= words);
    }
}

/// The words of a text are what stands between white space, in their order and each
/// as it is, whatever white space it is.
pub proof fn law_words(s: &str, gaps: Seq<Seq<char>>, words: Seq<Seq<char>>, r: Vec<String>)
    requires
        call_ensures(text::words, (s,), r),
        are_woven(gaps, words),
        s@ == woven(gaps, words),
    ensures
        r@.len() == words.len(),
        forall|i: int| 0 <= i < words.len() ==> (#[trigger] r@[i])@ == words[i],
{
    lemma_words(gaps, words);
    let all = text::texts(r@);
    assert forall|i: int| 0 <= i < words.len() implies (#[trigger] r@[i])@ == words[i] by {
        assert(all[i] == r@[i]@);
    }
}

/// Lines one behind the other, each with a line feed behind it.
pub open spec fn with_feeds(lines: Seq<Seq<char>>) -> Seq<char>
    decreases lines.len(),
{
    if lines.len() == 0 {
        Seq::empty()
    } else {
        lines[0] + seq!['\n'] + with_feeds(lines.drop_first())
    }
}

/// Whether a line is another without one carriage return at its end.
pub open spec fn is_without_return(t: Seq<char>, whole: Seq<char>) -> bool {
    if whole.len() > 0 && whole[whole.len() - 1] == '\r' {
        whole == t.push('\r')
    } else {
        whole == t
    }
}

proof fn lemma_lines(lines: Seq<Seq<char>>, open: Seq<char>)
    requires
        forall|i: int| 0 <= i < lines.len() ==> !(#[trigger] lines[i]).contains('\n'),
        !open.contains('\n'),
    ensures
        ({
            let out = text::lines_spec(with_feeds(lines) + open);
            &&& out.len() == lines.len() + if open.len() > 0 {
                1int
            } else {
                0
            }
            &&& forall|i: int|
                0 <= i < lines.len() ==> is_without_return(#[trigger] out[i], lines[i])
            &&& open.len() > 0 ==> out[lines.len() as int] == open
        }),
    decreases lines.len(),
{
    let s = with_feeds(lines) + open;
    let out = text::lines_spec(s);
    if lines.len() == 0 {
        assert(s =~= open);
        text::lemma_position_bound(s, '\n');
    } else {
        let first = lines[0];
        let n = first.len() as int;
        let rest = lines.drop_first();
        assert(!first.contains('\n'));
        assert forall|j: int| 0 <= j < n implies s[j] != '\n' by {
            assert(s[j] == first[j]);
        }
        assert(s[n] == '\n');
        text::lemma_position(s, '\n', n);
        assert(s.take(n) =~= first);
        assert(s.skip(n + 1) =~= with_feeds(rest) + open);
        assert forall|i: int| 0 <= i < rest.len() implies !(#[trigger] rest[i]).contains('\n') by {
            assert(rest[i] == lines[i + 1]);
        }
        lemma_lines(rest, open);
        let more = text::lines_spec(s.skip(n + 1));
        assert(out =~= seq![text::strip_cr(first)] + more);
        assert forall|i: int| 0 <= i < lines.len() implies is_without_return(
            #[trigger] out[i],
            lines[i],
        ) by {
            if i > 0 {
                assert(out[i] == more[i - 1]);
                assert(rest[i - 1] == lines[i]);
            } else if first.len() > 0 && first.last() == '\r' {
                assert(first =~= first.drop_last().push('\r'));
            }
        }
        if open.len() > 0 {
            assert(out[lines.len() as int] == more[rest.len() as int]);
        }
    }
}

/// The lines of a text are what stands before its line feeds, each without one
/// carriage return at its end, an empty line too; what stands behind the last line
/// feed is a line as it is, where there is any.
pub proof fn law_lines(s: &str, lines: Seq<Seq<char>>, open: Seq<char>, r: Vec<String>)
    requires
        call_ensures(text::lines, (s,), r),
        s@ == with_feeds(lines) + open,
        forall|i: int| 0 <= i < lines.len() ==> !(#[trigger] lines[i]).contains('\n'),
        !open.contains('\n'),
    ensures
        r@.len() == lines.len() + if open.len() > 0 {
            1int
        } else {
            0
        },
        forall|i: int| 0 <= i < lines.len() ==> is_without_return((#[trigger] r@[i])@, lines[i]),
        open.len() > 0 ==> r@[lines.len() as int]@ == open,
{
    lemma_lines(lines, open);
    let all = text::texts(r@);
    assert(all.len() == r@.len());
    assert forall|i: int| 0 <= i < r@.len() implies #[trigger] all[i] == r@[i]@ by {}
    assert forall|i: int| 0 <= i < lines.len() implies is_without_return(
        (#[trigger] r@[i])@,
        lines[i],
    ) by {
        assert(all[i] == r@[i]@);
    }
    if open.len() > 0 {
        assert(all[lines.len() as int] == r@[lines.len() as int]@);
    }
}

/// A text begins with another exactly where the other and some rest make it up, and
/// stripped of it is that rest.
pub proof fn law_beginnings(s: &str, p: &str, r: bool, t: Option<String>)
    requires
        call_ensures(text::starts_with, (s, p), r),
        call_ensures(text::strip_prefix, (s, p), t),
    ensures
        t is Some <==> r,
        r ==> s@ == p@ + t.unwrap()@,
        forall|rest: Seq<char>| s@ == #[trigger] (p@ + rest) ==> r && t.unwrap()@ == rest,
{
    if r {
        assert(p@ + s@.skip(p@.len() as int) =~= s@);
    }
    assert forall|rest: Seq<char>| s@ == #[trigger] (p@ + rest) implies r && t.unwrap()@ == rest by {
        assert(s@.subrange(0, p@.len() as int) =~= p@);
        assert(s@.skip(p@.len() as int) =~= rest);
    }
}

/// A text ends with another exactly where some start and the other make it up, and
/// stripped of it is that start.
pub proof fn law_ends(s: &str, p: &str, r: bool, t: Option<String>)
    requires
        call_ensures(text::ends_with, (s, p), r),
        call_ensures(text::strip_suffix, (s, p), t),
    ensures
        t is Some <==> r,
        r ==> s@ == t.unwrap()@ + p@,
        forall|start: Seq<char>| s@ == #[trigger] (start + p@) ==> r && t.unwrap()@ == start,
{
    let n = s@.len() - p@.len();
    if r {
        assert(s@.take(n) + p@ =~= s@);
    }
    assert forall|start: Seq<char>| s@ == #[trigger] (start + p@) implies r && t.unwrap()@
        == start by {
        assert(s@.subrange(n, s@.len() as int) =~= p@);
        assert(s@.take(n) =~= start);
    }
}

/// The bytes of a text are its encoding, and bytes are a text exactly where they are
/// the encoding of one.
pub proof fn law_bytes_of_texts(s: &str, bytes: &[u8], b: Vec<u8>, r: bool)
    requires
        call_ensures(text::to_bytes, (s,), b),
        call_ensures(text::is_utf8, (bytes,), r),
    ensures
        b@ == vstd::utf8::encode_utf8(s@),
        r <==> vstd::utf8::valid_utf8(bytes@),
{
}

/// A character is found in a text exactly where one of its characters is that, and
/// two texts are the same exactly where their characters are.
pub proof fn law_characters(s: &str, t: &str, c: char, r: bool, q: bool)
    requires
        call_ensures(text::contains_char, (s, c), r),
        call_ensures(text::same, (s, t), q),
    ensures
        r <==> exists|i: int| 0 <= i < s@.len() && #[trigger] s@[i] == c,
        q <==> s@.len() == t@.len() && forall|i: int|
            0 <= i < s@.len() ==> #[trigger] s@[i] == t@[i],
{
    if s@.len() == t@.len() && forall|i: int| 0 <= i < s@.len() ==> #[trigger] s@[i] == t@[i] {
        assert(s@ =~= t@);
    }
    if s@.contains(c) {
        let i = choose|i: int| 0 <= i < s@.len() && s@[i] == c;
        assert(s@[i] == c);
    }
}

/// Parts are joined one behind the other, with the separator between each two: none
/// make nothing, one is itself, and one more comes behind the separator.
pub proof fn law_joining(
    parts: &Vec<String>,
    more: &Vec<String>,
    part: String,
    sep: &str,
    r: String,
    s: String,
)
    requires
        call_ensures(text::join, (parts, sep), r),
        call_ensures(text::join, (more, sep), s),
        more@ == parts@.push(part),
    ensures
        parts@.len() == 0 ==> r@.len() == 0 && s@ == part@,
        parts@.len() > 0 ==> s@ == r@ + sep@ + part@,
{
    assert(text::texts(more@) =~= text::texts(parts@).push(part@));
    assert(text::texts(more@).drop_last() =~= text::texts(parts@));
}

/// A text that is repeated stands there as many times as it is to.
pub proof fn law_repeating(s: &str, n: usize, r: String, t: String)
    requires
        n < usize::MAX,
        call_ensures(text::repeat, (s, n), r),
        call_ensures(text::repeat, (s, (n + 1) as usize), t),
    ensures
        n == 0 ==> r@.len() == 0,
        t@ == r@ + s@,
{
}

/// The character of a digit.
pub open spec fn digit(d: int) -> char {
    (48 + d) as char
}

/// A number in decimal is that of its tenth part with its last digit behind it; a
/// number of one digit is that digit.
pub proof fn law_decimals(n: u64, d: u64, r: String, s: String)
    requires
        d < 10,
        10 * n + d <= u64::MAX,
        call_ensures(text::decimal_str, (n,), r),
        call_ensures(text::decimal_str, ((10 * n + d) as u64,), s),
    ensures
        n == 0 ==> s@ == seq![digit(d as int)],
        n > 0 ==> s@ == r@.push(digit(d as int)),
{
    let m = (10 * n + d) as nat;
    assert(m / 10 == n && m % 10 == d) by (nonlinear_arith)
        requires
            m == 10 * n + d,
            d < 10,
    ;
    assert(text::digit_char(d as int) == digit(d as int));
}

/// Two texts are the same but for their case exactly where each two of their
/// characters are the same, or the same letter.
pub proof fn law_case(a: &str, b: &str, r: bool)
    requires
        call_ensures(text::eq_ignore_case, (a, b), r),
    ensures
        r <==> a@.len() == b@.len() && forall|i: int|
            0 <= i < a@.len() ==> same_letter(#[trigger] a@[i], b@[i]),
{
    assert forall|x: char, y: char| #[trigger]
        same_letter(x, y) == (text::ascii_lower(x) == text::ascii_lower(y)) by {
        if 'A' <= x <= 'Z' {
            assert(((x as u32 + 32) as char) as u32 == x as u32 + 32);
        }
        if 'A' <= y <= 'Z' {
            assert(((y as u32 + 32) as char) as u32 == y as u32 + 32);
        }
        if x as u32 == y as u32 {
            vstd::utf8::char_u32_cast(x, y as u32);
        }
    }
    if a@.len() == b@.len() && forall|i: int|
        0 <= i < a@.len() ==> same_letter(#[trigger] a@[i], b@[i]) {
        assert forall|i: int| 0 <= i < a@.len() implies text::ascii_lower(#[trigger] a@[i])
            == text::ascii_lower(b@[i]) by {
            assert(same_letter(a@[i], b@[i]));
        }
    }
}

/// Whether two characters are the same, or the same letter of ASCII.
pub open spec fn same_letter(x: char, y: char) -> bool {
    ||| x == y
    ||| 65 <= x as u32 <= 90 && y as u32 == x as u32 + 32
    ||| 65 <= y as u32 <= 90 && x as u32 == y as u32 + 32
}

/// Whether a text is digits, of which there is at least one.
pub open spec fn is_digits(s: Seq<char>) -> bool {
    s.len() > 0 && forall|i: int| 0 <= i < s.len() ==> '0' <= #[trigger] s[i] <= '9'
}

/// The number of digits, each counting ten times the next.
pub open spec fn value(s: Seq<char>) -> int
    decreases s.len(),
{
    if s.len() == 0 {
        0
    } else {
        10 * value(s.drop_last()) + (s[s.len() - 1] as u32 - 48)
    }
}

pub proof fn lemma_value(s: Seq<char>)
    requires
        is_digits(s) || s.len() == 0,
    ensures
        text::number(s) == value(s),
        value(s) >= 0,
    decreases s.len(),
{
    if s.len() > 0 {
        let t = s.drop_last();
        assert forall|i: int| 0 <= i < t.len() implies '0' <= #[trigger] t[i] <= '9' by {
            assert(t[i] == s[i]);
        }
        lemma_value(t);
        assert('0' <= s[s.len() - 1] <= '9');
    }
}

/// A text of digits, behind a plus sign or none, is read as the number that the
/// digits make, as far as it fits; no other text is read.
pub proof fn law_numbers_are_read(s: &str, r: Option<u64>, t: Option<u32>)
    requires
        call_ensures(text::parse_u64, (s,), r),
        call_ensures(text::parse_u32, (s,), t),
    ensures
        forall|d: Seq<char>| #[trigger]
            is_digits(d) && (s@ == d || s@ == seq!['+'] + d) ==> (r is Some <==> value(d)
                <= u64::MAX) && (r is Some ==> r.unwrap() == value(d)) && (t is Some <==> value(d)
                <= u32::MAX) && (t is Some ==> t.unwrap() == value(d)),
        r is Some || t is Some ==> exists|d: Seq<char>| #[trigger]
            is_digits(d) && (s@ == d || s@ == seq!['+'] + d),
{
    let d0 = text::without_plus(s@);
    assert forall|d: Seq<char>| #[trigger]
        is_digits(d) && (s@ == d || s@ == seq!['+'] + d) implies (r is Some <==> value(d)
        <= u64::MAX) && (r is Some ==> r.unwrap() == value(d)) && (t is Some <==> value(d)
        <= u32::MAX) && (t is Some ==> t.unwrap() == value(d)) by {
        assert('0' <= d[0] <= '9');
        if s@ == d {
            assert(s@[0] != '+');
        } else {
            assert(s@[0] == '+');
            assert(s@.drop_first() =~= d);
        }
        assert(d0 == d);
        assert forall|i: int| 0 <= i < d.len() implies text::is_digit(#[trigger] d[i]) by {
            assert('0' <= d[i] <= '9');
        }
        lemma_value(d);
    }
    if r is Some || t is Some {
        assert forall|i: int| 0 <= i < d0.len() implies '0' <= #[trigger] d0[i] <= '9' by {
            assert(text::is_digit(d0[i]));
        }
        assert(is_digits(d0));
        if s@ != d0 {
            assert(s@ =~= seq!['+'] + d0);
        }
    }
}

/// Parts one behind the other, with a character between each two.
pub open spec fn with_between(parts: Seq<Seq<char>>, c: char) -> Seq<char>
    decreases parts.len(),
{
    if parts.len() == 0 {
        seq![]
    } else if parts.len() == 1 {
        parts[0]
    } else {
        parts[0] + seq![c] + with_between(parts.drop_first(), c)
    }
}

pub proof fn lemma_split(parts: Seq<Seq<char>>, c: char)
    requires
        parts.len() > 0,
        forall|i: int| 0 <= i < parts.len() ==> !(#[trigger] parts[i]).contains(c),
    ensures
        text::split_spec(with_between(parts, c), c) == parts,
    decreases parts.len(),
{
    let s = with_between(parts, c);
    let first = parts[0];
    let n = first.len() as int;
    assert(!first.contains(c));
    assert forall|j: int| 0 <= j < n implies s[j] != c by {
        assert(s[j] == first[j]);
    }
    if parts.len() == 1 {
        text::lemma_position(s, c, n);
        assert(text::split_spec(s, c) =~= parts);
    } else {
        let rest = parts.drop_first();
        assert(s[n] == c);
        text::lemma_position(s, c, n);
        assert(s.take(n) =~= first);
        assert(s.skip(n + 1) =~= with_between(rest, c));
        assert forall|i: int| 0 <= i < rest.len() implies !(#[trigger] rest[i]).contains(c) by {
            assert(rest[i] == parts[i + 1]);
        }
        lemma_split(rest, c);
        assert(seq![first] + rest =~= parts);
    }
}

/// A text is split at each place where a character stands: its parts are what
/// stands between, empty ones too, in their order.
pub proof fn law_splitting(s: &str, c: char, parts: Seq<Seq<char>>, r: Vec<String>)
    requires
        call_ensures(text::split, (s, c), r),
        parts.len() > 0,
        forall|i: int| 0 <= i < parts.len() ==> !(#[trigger] parts[i]).contains(c),
        s@ == with_between(parts, c),
    ensures
        r@.len() == parts.len(),
        forall|i: int| 0 <= i < parts.len() ==> (#[trigger] r@[i])@ == parts[i],
{
    lemma_split(parts, c);
    let all = text::texts(r@);
    assert forall|i: int| 0 <= i < parts.len() implies (#[trigger] r@[i])@ == parts[i] by {
        assert(all[i] == r@[i]@);
    }
}

/// Copies of a text are taken from the start of another as long as there are any.
pub proof fn law_stripping(s: &str, more: &str, p: &str, r: String, t: String)
    requires
        call_ensures(text::trim_start_matches, (s, p), r),
        call_ensures(text::trim_start_matches, (more, p), t),
        p@.len() > 0,
        more@ == p@ + s@,
    ensures
        t@ == r@,
        !p@.is_prefix_of(s@) ==> r@ == s@,
{
    assert(p@ =~= more@.take(p@.len() as int));
    assert(more@.skip(p@.len() as int) =~= s@);
}

/// The character of a hexadecimal digit.
pub open spec fn hex_digit(d: int, upper: bool) -> char {
    if d < 10 {
        (48 + d) as char
    } else if upper {
        (55 + d) as char
    } else {
        (87 + d) as char
    }
}

/// A number in hexadecimal has as many digits as asked for: that of its sixteenth
/// part, in one digit less, with its last digit behind it.
pub proof fn law_hexadecimals(
    n: u128,
    d: u128,
    width: usize,
    upper: bool,
    r: String,
    s: String,
)
    requires
        d < 16,
        16 * n + d <= u128::MAX,
        width < usize::MAX,
        call_ensures(text::hex_str, (n, width, upper), r),
        call_ensures(text::hex_str, ((16 * n + d) as u128, (width + 1) as usize, upper), s),
    ensures
        width == 0 ==> r@.len() == 0,
        s@ == r@.push(hex_digit(d as int, upper)),
{
    let m = (16 * n + d) as nat;
    assert(m / 16 == n && m % 16 == d) by (nonlinear_arith)
        requires
            m == 16 * n + d,
            d < 16,
    ;
    assert(text::hex_char(d as int, upper) == hex_digit(d as int, upper));
}

/// A text loses the line feeds and carriage returns at its end, all of them and
/// nothing else.
pub proof fn law_line_ends(s: &str, t: Seq<char>, end: Seq<char>, r: String)
    requires
        call_ensures(text::trim_line_end, (s,), r),
        s@ == t + end,
        forall|i: int| 0 <= i < end.len() ==> (#[trigger] end[i] == '\n' || end[i] == '\r'),
        t.len() > 0 ==> t.last() != '\n' && t.last() != '\r',
    ensures
        r@ == t,
{
    lemma_line_end(t, end);
}

proof fn lemma_line_end(t: Seq<char>, end: Seq<char>)
    requires
        forall|i: int| 0 <= i < end.len() ==> (#[trigger] end[i] == '\n' || end[i] == '\r'),
        t.len() > 0 ==> t.last() != '\n' && t.last() != '\r',
    ensures
        text::without_line_end(t + end) == t,
    decreases end.len(),
{
    if end.len() == 0 {
        assert(t + end =~= t);
    } else {
        let e = end.drop_last();
        assert(end[end.len() - 1] == '\n' || end[end.len() - 1] == '\r');
        assert forall|i: int| 0 <= i < e.len() implies (#[trigger] e[i] == '\n' || e[i] == '\r') by {
            assert(e[i] == end[i]);
        }
        assert((t + end).drop_last() =~= t + e);
        lemma_line_end(t, e);
    }
}

/// Whether a text stands in another at a place.
pub open spec fn stands_at(s: Seq<char>, pat: Seq<char>, i: int) -> bool {
    0 <= i && i + pat.len() <= s.len() && s.subrange(i, i + pat.len()) == pat
}

pub proof fn lemma_find(s: Seq<char>, pat: Seq<char>, from: int)
    requires
        0 <= from,
    ensures
        ({
            let r = text::find_from(s, pat, from);
            &&& r is Some ==> stands_at(s, pat, r.unwrap()) && from <= r.unwrap() && forall|j: int|
                from <= j < r.unwrap() ==> !#[trigger] stands_at(s, pat, j)
            &&& r is None ==> forall|j: int| from <= j ==> !#[trigger] stands_at(s, pat, j)
        }),
    decreases s.len() - from + 1,
{
    if from + pat.len() <= s.len() && s.subrange(from, from + pat.len()) != pat {
        lemma_find(s, pat, from + 1);
    }
}

/// A text is found in another at the first place where it stands, if it does.
pub proof fn law_finding(s: &str, pat: &str, r: Option<usize>, t: bool)
    requires
        call_ensures(text::find_str, (s, pat), r),
        call_ensures(text::contains_str, (s, pat), t),
    ensures
        t <==> r is Some,
        r is Some ==> stands_at(s@, pat@, r.unwrap() as int) && forall|j: int|
            0 <= j < r.unwrap() ==> !#[trigger] stands_at(s@, pat@, j),
        r is None ==> forall|j: int| !#[trigger] stands_at(s@, pat@, j),
{
    lemma_find(s@, pat@, 0);
}

} // verus!
