//! Text as sequences of characters: the vocabulary in which the rest of the
//! crate describes strings, and the operations on `&str` that meet it.

use vstd::prelude::*;
use vstd::utf8::*;

verus! {

/// The texts of a list of strings.
pub open spec fn texts(v: Seq<String>) -> Seq<Seq<char>> {
    v.map_values(|s: String| s@)
}

/// The text of a string that may be missing.
pub open spec fn opt_text(s: Option<&str>) -> Option<Seq<char>> {
    match s {
        Some(s) => Some(s@),
        None => None,
    }
}

/// The index of the first `c` in `s`, or `s.len()` where there is none.
pub open spec fn position(s: Seq<char>, c: char) -> int
    decreases s.len(),
{
    if s.len() == 0 || s[0] == c {
        0
    } else {
        1 + position(s.drop_first(), c)
    }
}

/// The index just behind the last `c` in `s`, or 0 where there is none.
pub open spec fn last_position(s: Seq<char>, c: char) -> int
    decreases s.len(),
{
    if s.len() == 0 || s.last() == c {
        s.len() as int
    } else {
        last_position(s.drop_last(), c)
    }
}

/// The index of the first place at or behind `from` where `pat` stands in `s`.
pub open spec fn find_from(s: Seq<char>, pat: Seq<char>, from: int) -> Option<int>
    decreases s.len() - from + 1,
{
    if from + pat.len() > s.len() {
        None
    } else if s.subrange(from, from + pat.len()) == pat {
        Some(from)
    } else {
        find_from(s, pat, from + 1)
    }
}

/// The index of the first place where `pat` stands in `s`.
pub open spec fn find(s: Seq<char>, pat: Seq<char>) -> Option<int> {
    find_from(s, pat, 0)
}

/// Unicode's `White_Space` property.
pub open spec fn is_white(c: char) -> bool {
    ||| '\u{9}' <= c <= '\u{d}'
    ||| c == '\u{20}'
    ||| c == '\u{85}'
    ||| c == '\u{a0}'
    ||| c == '\u{1680}'
    ||| '\u{2000}' <= c <= '\u{200a}'
    ||| c == '\u{2028}'
    ||| c == '\u{2029}'
    ||| c == '\u{202f}'
    ||| c == '\u{205f}'
    ||| c == '\u{3000}'
}

/// `s` without the white space at its start.
pub open spec fn trim_start_spec(s: Seq<char>) -> Seq<char>
    decreases s.len(),
{
    if s.len() > 0 && is_white(s[0]) {
        trim_start_spec(s.drop_first())
    } else {
        s
    }
}

/// `s` without the white space at its end.
pub open spec fn trim_end_spec(s: Seq<char>) -> Seq<char>
    decreases s.len(),
{
    if s.len() > 0 && is_white(s.last()) {
        trim_end_spec(s.drop_last())
    } else {
        s
    }
}

/// `s` without the white space at its two ends.
pub open spec fn trim_spec(s: Seq<char>) -> Seq<char> {
    trim_end_spec(trim_start_spec(s))
}

/// `s` without the run of `c` at its end.
pub open spec fn trim_end_char_spec(s: Seq<char>, c: char) -> Seq<char>
    decreases s.len(),
{
    if s.len() > 0 && s.last() == c {
        trim_end_char_spec(s.drop_last(), c)
    } else {
        s
    }
}

/// The length of the run without white space at the start of `s`.
pub open spec fn word_len(s: Seq<char>) -> int
    decreases s.len(),
{
    if s.len() == 0 || is_white(s[0]) {
        0
    } else {
        1 + word_len(s.drop_first())
    }
}

pub proof fn lemma_trim_start_len(s: Seq<char>)
    ensures
        trim_start_spec(s).len() <= s.len(),
        trim_start_spec(s).len() > 0 ==> !is_white(trim_start_spec(s)[0]),
    decreases s.len(),
{
    if s.len() > 0 && is_white(s[0]) {
        lemma_trim_start_len(s.drop_first());
    }
}

pub proof fn lemma_word_len_bound(s: Seq<char>)
    ensures
        0 <= word_len(s) <= s.len(),
        s.len() > 0 && !is_white(s[0]) ==> word_len(s) > 0,
    decreases s.len(),
{
    if s.len() > 0 && !is_white(s[0]) {
        lemma_word_len_bound(s.drop_first());
    }
}

/// The maximal runs of `s` without white space, in order.
pub open spec fn words_spec(s: Seq<char>) -> Seq<Seq<char>>
    decreases s.len(),
{
    let t = trim_start_spec(s);
    proof {
        lemma_trim_start_len(s);
        lemma_word_len_bound(t);
    }
    if t.len() == 0 {
        Seq::empty()
    } else {
        seq![t.take(word_len(t))] + words_spec(t.skip(word_len(t)))
    }
}

/// `s` without one carriage return at its end.
pub open spec fn strip_cr(s: Seq<char>) -> Seq<char> {
    if s.len() > 0 && s.last() == '\r' {
        s.drop_last()
    } else {
        s
    }
}

/// The lines of `s`: each ends before a line feed, or before the carriage
/// return in front of one; what follows the last line feed is a line of its own
/// unless it is empty.
pub open spec fn lines_spec(s: Seq<char>) -> Seq<Seq<char>>
    decreases s.len(),
{
    if s.len() == 0 {
        Seq::empty()
    } else {
        let n = position(s, '\n');
        if 0 <= n < s.len() {
            seq![strip_cr(s.take(n))] + lines_spec(s.skip(n + 1))
        } else {
            seq![s]
        }
    }
}

/// `parts` one behind the other, with `sep` between each two.
pub open spec fn join_spec(parts: Seq<Seq<char>>, sep: Seq<char>) -> Seq<char>
    decreases parts.len(),
{
    if parts.len() == 0 {
        Seq::empty()
    } else if parts.len() == 1 {
        parts[0]
    } else {
        join_spec(parts.drop_last(), sep) + sep + parts.last()
    }
}

/// `s` written `n` times, one behind the other.
pub open spec fn repeat_spec(s: Seq<char>, n: nat) -> Seq<char>
    decreases n,
{
    if n == 0 {
        Seq::empty()
    } else {
        repeat_spec(s, (n - 1) as nat) + s
    }
}

/// The character of a decimal digit.
pub open spec fn digit_char(d: int) -> char {
    ('0' as u32 + d) as char
}

/// `n` in decimal, without leading zeros.
pub open spec fn decimal(n: nat) -> Seq<char>
    decreases n,
{
    if n < 10 {
        seq![digit_char(n as int)]
    } else {
        decimal(n / 10).push(digit_char((n % 10) as int))
    }
}

/// `c` with an ASCII upper-case letter made lower-case.
pub open spec fn ascii_lower(c: char) -> char {
    if 'A' <= c <= 'Z' {
        (c as u32 + 32) as char
    } else {
        c
    }
}

/// Whether two texts are equal but for the case of ASCII letters.
pub open spec fn eq_ignore_case_spec(a: Seq<char>, b: Seq<char>) -> bool {
    &&& a.len() == b.len()
    &&& forall|i: int| 0 <= i < a.len() ==> ascii_lower(#[trigger] a[i]) == ascii_lower(b[i])
}

/// `String::push`: the character goes to the end.
pub assume_specification[ String::push ](s: &mut String, c: char)
    ensures
        final(s)@ == old(s)@.push(c),
;

/// The characters of `s`, in order.
pub fn to_chars(s: &str) -> (r: Vec<char>)
    ensures
        r@ == s@,
{
    let mut out: Vec<char> = Vec::new();
    for c in it: s.chars()
        invariant
            it.seq() == s@,
            out@ == s@.take(it.index() as int),
    {
        out.push(c);
    }
    assert(s@.take(s@.len() as int) == s@);
    out
}

/// The string of the characters `v[from..to]`.
pub fn from_chars(v: &Vec<char>, from: usize, to: usize) -> (r: String)
    requires
        from <= to <= v@.len(),
    ensures
        r@ == v@.subrange(from as int, to as int),
{
    let mut out = String::new();
    let mut i: usize = from;
    while i < to
        invariant
            from <= i <= to <= v@.len(),
            out@ == v@.subrange(from as int, i as int),
        decreases to - i,
    {
        out.push(v[i]);
        i += 1;
        assert(v@.subrange(from as int, i as int) == v@.subrange(from as int, i - 1).push(v@[i - 1]));
    }
    out
}

/// Whether two texts are the same.
pub fn same(a: &str, b: &str) -> (r: bool)
    ensures
        r == (a@ == b@),
{
    a.to_owned() == b.to_owned()
}

pub proof fn lemma_position(s: Seq<char>, c: char, i: int)
    requires
        0 <= i <= s.len(),
        forall|j: int| 0 <= j < i ==> s[j] != c,
        i < s.len() ==> s[i] == c,
    ensures
        position(s, c) == i,
    decreases i,
{
    if i > 0 {
        assert(s.drop_first().len() == s.len() - 1);
        lemma_position(s.drop_first(), c, i - 1);
    }
}

pub proof fn lemma_position_bound(s: Seq<char>, c: char)
    ensures
        0 <= position(s, c) <= s.len(),
        position(s, c) < s.len() ==> s[position(s, c)] == c,
        forall|j: int| 0 <= j < position(s, c) ==> s[j] != c,
        s.contains(c) <==> position(s, c) < s.len(),
    decreases s.len(),
{
    if s.len() > 0 && s[0] != c {
        let t = s.drop_first();
        lemma_position_bound(t, c);
        assert forall|j: int| 0 <= j < position(s, c) implies s[j] != c by {
            if j > 0 {
                assert(t[j - 1] == s[j]);
            }
        }
        if s.contains(c) {
            let j = choose|j: int| 0 <= j < s.len() && s[j] == c;
            assert(t[j - 1] == c);
        }
    } else if s.len() > 0 {
        assert(s[0] == c);
    }
}

/// The index of the first `c` from `from` on, or the length where there is none.
pub fn index_of(v: &Vec<char>, from: usize, c: char) -> (r: usize)
    requires
        from <= v@.len(),
    ensures
        from <= r <= v@.len(),
        r - from == position(v@.skip(from as int), c),
{
    let mut i: usize = from;
    while i < v.len() && v[i] != c
        invariant
            from <= i <= v@.len(),
            forall|j: int| from <= j < i ==> v@[j] != c,
        decreases v.len() - i,
    {
        i += 1;
    }
    proof {
        lemma_position(v@.skip(from as int), c, i - from);
    }
    i
}

/// Whether `c` occurs in `s`.
pub fn contains_char(s: &str, c: char) -> (r: bool)
    ensures
        r == s@.contains(c),
{
    let v = to_chars(s);
    let i: usize = index_of(&v, 0, c);
    proof {
        assert(v@.skip(0) == s@);
        lemma_position_bound(s@, c);
    }
    i < v.len()
}

/// Whether `s` begins with `p`.
pub fn starts_with(s: &str, p: &str) -> (r: bool)
    ensures
        r == p@.is_prefix_of(s@),
{
    let a = to_chars(s);
    let b = to_chars(p);
    if b.len() > a.len() {
        return false;
    }
    let mut i: usize = 0;
    while i < b.len()
        invariant
            a@ == s@,
            b@ == p@,
            i <= b@.len() <= a@.len(),
            forall|j: int| 0 <= j < i ==> a@[j] == b@[j],
        decreases b.len() - i,
    {
        if a[i] != b[i] {
            assert(s@.subrange(0, p@.len() as int)[i as int] != p@[i as int]);
            return false;
        }
        i += 1;
    }
    assert(s@.subrange(0, p@.len() as int) == p@);
    true
}

/// Whether `s` ends with `p`.
pub fn ends_with(s: &str, p: &str) -> (r: bool)
    ensures
        r == p@.is_suffix_of(s@),
{
    let a = to_chars(s);
    let b = to_chars(p);
    if b.len() > a.len() {
        return false;
    }
    let off: usize = a.len() - b.len();
    let mut i: usize = 0;
    while i < b.len()
        invariant
            a@ == s@,
            b@ == p@,
            i <= b@.len() <= a@.len(),
            off == a.len() - b.len(),
            forall|j: int| 0 <= j < i ==> a@[off + j] == b@[j],
        decreases b.len() - i,
    {
        if a[off + i] != b[i] {
            assert(s@.subrange(s@.len() - p@.len(), s@.len() as int)[i as int] != p@[i as int]);
            return false;
        }
        i += 1;
    }
    assert(s@.subrange(s@.len() - p@.len(), s@.len() as int) == p@);
    true
}

/// What follows `p` at the start of `s`; nothing where `s` does not begin so.
pub fn strip_prefix(s: &str, p: &str) -> (r: Option<String>)
    ensures
        r is Some <==> p@.is_prefix_of(s@),
        r matches Some(t) ==> t@ == s@.skip(p@.len() as int),
{
    if starts_with(s, p) {
        let v = to_chars(s);
        let n: usize = to_chars(p).len();
        Some(from_chars(&v, n, v.len()))
    } else {
        None
    }
}

/// What stands before `p` at the end of `s`; nothing where `s` does not end so.
pub fn strip_suffix(s: &str, p: &str) -> (r: Option<String>)
    ensures
        r is Some <==> p@.is_suffix_of(s@),
        r matches Some(t) ==> t@ == s@.take(s@.len() - p@.len()),
{
    if ends_with(s, p) {
        let v = to_chars(s);
        let n: usize = to_chars(p).len();
        Some(from_chars(&v, 0, v.len() - n))
    } else {
        None
    }
}

/// The index of the first place where `pat` stands in `s`.
pub fn find_str(s: &str, pat: &str) -> (r: Option<usize>)
    ensures
        match r {
            Some(i) => find(s@, pat@) == Some(i as int),
            None => find(s@, pat@) is None,
        },
        r matches Some(i) ==> i + pat@.len() <= s@.len(),
{
    let a = to_chars(s);
    let b = to_chars(pat);
    if b.len() > a.len() {
        return None;
    }
    let mut i: usize = 0;
    while i <= a.len() - b.len()
        invariant
            a@ == s@,
            b@ == pat@,
            b@.len() <= a@.len(),
            i <= a@.len() - b@.len() + 1,
            find(s@, pat@) == find_from(s@, pat@, i as int),
        decreases a.len() - b.len() + 1 - i,
    {
        let mut j: usize = 0;
        while j < b.len() && a[i + j] == b[j]
            invariant
                i + b.len() <= a.len(),
                j <= b@.len(),
                forall|k: int| 0 <= k < j ==> a@[i + k] == b@[k],
            decreases b.len() - j,
        {
            j += 1;
        }
        if j == b.len() {
            assert(s@.subrange(i as int, i + pat@.len()) == pat@);
            return Some(i);
        }
        assert(s@.subrange(i as int, i + pat@.len())[j as int] != pat@[j as int]);
        if i == a.len() - b.len() {
            assert(find_from(s@, pat@, i + 1) is None);
            return None;
        }
        i += 1;
    }
    None
}

/// Whether `pat` stands somewhere in `s`.
pub fn contains_str(s: &str, pat: &str) -> (r: bool)
    ensures
        r == (find(s@, pat@) is Some),
{
    find_str(s, pat).is_some()
}

pub fn is_whitespace(c: char) -> (r: bool)
    ensures
        r == is_white(c),
{
    ('\u{9}' <= c && c <= '\u{d}') || c == '\u{20}' || c == '\u{85}' || c == '\u{a0}' || c
        == '\u{1680}' || ('\u{2000}' <= c && c <= '\u{200a}') || c == '\u{2028}' || c == '\u{2029}'
        || c == '\u{202f}' || c == '\u{205f}' || c == '\u{3000}'
}

/// The index of the first character from `from` on that is not white space.
pub fn skip_white(v: &Vec<char>, from: usize) -> (r: usize)
    requires
        from <= v@.len(),
    ensures
        from <= r <= v@.len(),
        trim_start_spec(v@.skip(from as int)) == v@.skip(r as int),
{
    let mut i: usize = from;
    while i < v.len() && is_whitespace(v[i])
        invariant
            from <= i <= v@.len(),
            trim_start_spec(v@.skip(from as int)) == trim_start_spec(v@.skip(i as int)),
        decreases v.len() - i,
    {
        assert(v@.skip(i as int)[0] == v@[i as int]);
        assert(v@.skip(i as int).drop_first() == v@.skip(i + 1));
        i += 1;
    }
    assert(i < v@.len() ==> v@.skip(i as int)[0] == v@[i as int]);
    i
}

/// `s` without the white space at its start.
pub fn trim_start(s: &str) -> (r: String)
    ensures
        r@ == trim_start_spec(s@),
{
    let v = to_chars(s);
    let i: usize = skip_white(&v, 0);
    assert(v@.skip(0) == s@);
    from_chars(&v, i, v.len())
}

/// `s` without the white space at its two ends.
pub fn trim(s: &str) -> (r: String)
    ensures
        r@ == trim_spec(s@),
{
    let v = to_chars(s);
    let i: usize = skip_white(&v, 0);
    assert(v@.skip(0) == s@);
    let mut n: usize = v.len();
    while n > i && is_whitespace(v[n - 1])
        invariant
            i <= n <= v@.len(),
            trim_spec(s@) == trim_end_spec(v@.subrange(i as int, n as int)),
        decreases n,
    {
        assert(v@.subrange(i as int, n as int).last() == v@[n - 1]);
        assert(v@.subrange(i as int, n as int).drop_last() == v@.subrange(i as int, n - 1));
        n -= 1;
    }
    assert(n > i ==> v@.subrange(i as int, n as int).last() == v@[n - 1]);
    from_chars(&v, i, n)
}

/// `s` without the run of `c` at its end.
pub fn trim_end_char(s: &str, c: char) -> (r: String)
    ensures
        r@ == trim_end_char_spec(s@, c),
{
    let v = to_chars(s);
    let mut n: usize = v.len();
    assert(v@.take(n as int) == s@);
    while n > 0 && v[n - 1] == c
        invariant
            n <= v@.len(),
            trim_end_char_spec(s@, c) == trim_end_char_spec(v@.take(n as int), c),
        decreases n,
    {
        assert(v@.take(n as int).last() == v@[n - 1]);
        assert(v@.take(n as int).drop_last() == v@.take(n - 1));
        n -= 1;
    }
    assert(n > 0 ==> v@.take(n as int).last() == v@[n - 1]);
    from_chars(&v, 0, n)
}

proof fn lemma_word_len(s: Seq<char>, n: int)
    requires
        0 <= n <= s.len(),
        forall|j: int| 0 <= j < n ==> !is_white(#[trigger] s[j]),
        n < s.len() ==> is_white(s[n]),
    ensures
        word_len(s) == n,
    decreases n,
{
    if n > 0 {
        assert(!is_white(s[0]));
        assert forall|j: int| 0 <= j < n - 1 implies !is_white(#[trigger] s.drop_first()[j]) by {
            assert(!is_white(s[j + 1]));
        }
        lemma_word_len(s.drop_first(), n - 1);
    }
}

/// The maximal runs of `s` without white space, in order.
pub fn words(s: &str) -> (r: Vec<String>)
    ensures
        texts(r@) == words_spec(s@),
{
    let v = to_chars(s);
    let mut out: Vec<String> = Vec::new();
    let mut i: usize = skip_white(&v, 0);
    proof {
        assert(v@.skip(0) == s@);
        lemma_trim_start_len(s@);
        lemma_trim_idem(s@);
        lemma_words_trim(s@);
        assert(texts(out@) =~= Seq::<Seq<char>>::empty());
        assert(texts(out@) + words_spec(v@.skip(i as int)) =~= words_spec(s@));
    }
    while i < v.len()
        invariant
            i <= v@.len(),
            i < v@.len() ==> !is_white(v@[i as int]),
            words_spec(s@) == texts(out@) + words_spec(v@.skip(i as int)),
        decreases v.len() - i,
    {
        let start: usize = i;
        while i < v.len() && !is_whitespace(v[i])
            invariant
                start <= i <= v@.len(),
                forall|j: int| start <= j < i ==> !is_white(#[trigger] v@[j]),
            decreases v.len() - i,
        {
            i += 1;
        }
        let ghost t = v@.skip(start as int);
        proof {
            assert forall|j: int| 0 <= j < i - start implies !is_white(#[trigger] t[j]) by {
                assert(!is_white(v@[start + j]));
            }
            lemma_word_len(t, i - start);
            assert(trim_start_spec(t) == t);
            assert(t.take(i - start) == v@.subrange(start as int, i as int));
            assert(t.skip(i - start) == v@.skip(i as int));
        }
        let ghost before = out@;
        let w = from_chars(&v, start, i);
        out.push(w);
        let end: usize = i;
        i = skip_white(&v, end);
        proof {
            assert(texts(out@) =~= texts(before).push(w@));
            lemma_words_trim(v@.skip(end as int));
            lemma_trim_start_len(v@.skip(end as int));
            assert(words_spec(v@.skip(end as int)) == words_spec(v@.skip(i as int)));
            assert(words_spec(t) == seq![w@] + words_spec(v@.skip(i as int)));
            assert(texts(before) + (seq![w@] + words_spec(v@.skip(i as int))) =~= texts(out@)
                + words_spec(v@.skip(i as int)));
        }
    }
    proof {
        assert(v@.skip(i as int).len() == 0);
        assert(texts(out@) + words_spec(v@.skip(i as int)) =~= texts(out@));
    }
    out
}

proof fn lemma_trim_idem(s: Seq<char>)
    ensures
        trim_start_spec(trim_start_spec(s)) == trim_start_spec(s),
    decreases s.len(),
{
    if s.len() > 0 && is_white(s[0]) {
        lemma_trim_idem(s.drop_first());
    }
}

proof fn lemma_words_trim(s: Seq<char>)
    ensures
        words_spec(trim_start_spec(s)) == words_spec(s),
{
    lemma_trim_idem(s);
}

/// The lines of `s`.
pub fn lines(s: &str) -> (r: Vec<String>)
    ensures
        texts(r@) == lines_spec(s@),
{
    let v = to_chars(s);
    let mut out: Vec<String> = Vec::new();
    let mut i: usize = 0;
    proof {
        assert(v@.skip(0) == s@);
        assert(texts(out@) + lines_spec(s@) =~= lines_spec(s@));
    }
    while i < v.len()
        invariant
            i <= v@.len(),
            lines_spec(s@) == texts(out@) + lines_spec(v@.skip(i as int)),
        decreases v.len() - i,
    {
        let ghost rest = v@.skip(i as int);
        let ghost before = out@;
        let n: usize = index_of(&v, i, '\n');
        let start: usize = i;
        if n < v.len() {
            let end: usize = if n > i && v[n - 1] == '\r' {
                n - 1
            } else {
                n
            };
            let line = from_chars(&v, start, end);
            proof {
                assert(rest.take(n - start) =~= v@.subrange(start as int, n as int));
                assert(strip_cr(rest.take(n - start)) =~= line@);
                assert(rest.skip(n - start + 1) =~= v@.skip(n + 1));
            }
            out.push(line);
            i = n + 1;
            proof {
                assert(texts(out@) =~= texts(before).push(line@));
                assert(texts(before) + (seq![line@] + lines_spec(v@.skip(i as int))) =~= texts(
                    out@,
                ) + lines_spec(v@.skip(i as int)));
            }
        } else {
            let line = from_chars(&v, start, n);
            out.push(line);
            i = n;
            proof {
                assert(rest =~= line@);
                assert(texts(out@) =~= texts(before).push(line@));
                assert(texts(before) + seq![line@] =~= texts(out@) + lines_spec(v@.skip(i as int)));
            }
        }
    }
    proof {
        assert(v@.skip(i as int).len() == 0);
        assert(texts(out@) + lines_spec(v@.skip(i as int)) =~= texts(out@));
    }
    out
}

/// `parts` one behind the other, with `sep` between each two.
pub fn join(parts: &Vec<String>, sep: &str) -> (r: String)
    ensures
        r@ == join_spec(texts(parts@), sep@),
{
    let mut out = String::new();
    let mut i: usize = 0;
    while i < parts.len()
        invariant
            i <= parts@.len(),
            out@ == join_spec(texts(parts@.take(i as int)), sep@),
        decreases parts.len() - i,
    {
        if i > 0 {
            out.append(sep);
        }
        out.append(parts[i].as_str());
        i += 1;
        proof {
            let now = texts(parts@.take(i as int));
            assert(now.drop_last() =~= texts(parts@.take(i - 1)));
            assert(now.last() == parts@[i - 1]@);
        }
    }
    assert(parts@.take(i as int) == parts@);
    out
}

/// `s` written `n` times, one behind the other.
pub fn repeat(s: &str, n: usize) -> (r: String)
    ensures
        r@ == repeat_spec(s@, n as nat),
{
    let mut out = String::new();
    let mut i: usize = 0;
    while i < n
        invariant
            i <= n,
            out@ == repeat_spec(s@, i as nat),
        decreases n - i,
    {
        out.append(s);
        i += 1;
    }
    out
}

fn digit(d: u128) -> (r: char)
    requires
        d < 10,
    ensures
        r == digit_char(d as int),
{
    (48u8 + d as u8) as char
}

/// `n` in decimal.
pub fn decimal_u128(n: u128) -> (r: String)
    ensures
        r@ == decimal(n as nat),
    decreases n,
{
    if n < 10 {
        let mut s = String::new();
        s.push(digit(n));
        assert(s@ =~= seq![digit_char(n as int)]);
        s
    } else {
        let mut s = decimal_u128(n / 10);
        s.push(digit(n % 10));
        s
    }
}

/// `n` in decimal.
pub fn decimal_str(n: u64) -> (r: String)
    ensures
        r@ == decimal(n as nat),
{
    decimal_u128(n as u128)
}

fn lower(c: char) -> (r: char)
    ensures
        r == ascii_lower(c),
{
    if 'A' <= c && c <= 'Z' {
        ((c as u8) + 32) as char
    } else {
        c
    }
}

/// Whether two texts are equal but for the case of ASCII letters.
pub fn eq_ignore_case(a: &str, b: &str) -> (r: bool)
    ensures
        r == eq_ignore_case_spec(a@, b@),
{
    let x = to_chars(a);
    let y = to_chars(b);
    if x.len() != y.len() {
        return false;
    }
    let mut i: usize = 0;
    while i < x.len()
        invariant
            x@ == a@,
            y@ == b@,
            x@.len() == y@.len(),
            i <= x@.len(),
            forall|j: int| 0 <= j < i ==> ascii_lower(#[trigger] a@[j]) == ascii_lower(b@[j]),
        decreases x.len() - i,
    {
        if lower(x[i]) != lower(y[i]) {
            assert(ascii_lower(a@[i as int]) != ascii_lower(b@[i as int]));
            return false;
        }
        i += 1;
    }
    true
}

/// What `String::from_utf8_lossy` makes of bytes that are not UTF-8.
pub uninterp spec fn utf8_lossy(bytes: Seq<u8>) -> Seq<char>;

/// The text of bytes: what they encode where they are UTF-8, and what
/// `String::from_utf8_lossy` makes of them where they are not.
pub open spec fn lossy_text(bytes: Seq<u8>) -> Seq<char> {
    if valid_utf8(bytes) {
        decode_utf8(bytes)
    } else {
        utf8_lossy(bytes)
    }
}

/// `String::from_utf8_lossy`: bytes that are UTF-8 come back as the text that
/// they encode. What other bytes become is the name `utf8_lossy`, and no more is
/// claimed of it.
#[verifier::external_body]
pub(crate) fn lossy(bytes: &[u8]) -> (r: String)
    ensures
        valid_utf8(bytes@) ==> r@ == decode_utf8(bytes@),
        !valid_utf8(bytes@) ==> r@ == utf8_lossy(bytes@),
{
    String::from_utf8_lossy(bytes).into_owned()
}

/// A text comes back from its UTF-8 bytes.
pub proof fn lemma_lossy_encoded(s: Seq<char>)
    ensures
        lossy_text(encode_utf8(s)) == s,
{
    encode_utf8_valid_utf8(s);
    encode_utf8_decode_utf8(s);
}

/// The bytes that encode one character: a single one below 0x80, or a leading byte
/// and continuation bytes behind it.
pub proof fn lemma_scalar_bytes(c: u32)
    requires
        is_scalar(c),
    ensures
        encode_scalar(c).len() >= 1,
        has_width_1_encoding(c) ==> encode_scalar(c) == seq![c as u8],
        !is_continuation_byte(encode_scalar(c)[0]),
        forall|i: int|
            1 <= i < encode_scalar(c).len() ==> is_continuation_byte(#[trigger] encode_scalar(c)[i]),
        !has_width_1_encoding(c) ==> encode_scalar(c)[0] >= 0x80,
{
    assert(c <= 0x7f ==> (c & 0x7f) as u8 == c as u8) by (bit_vector);
    assert((0x80u8 | (c & 0x3F) as u8) >= 0x80 && (0x80u8 | (c & 0x3F) as u8) <= 0xbf) by (bit_vector);
    assert((0x80u8 | ((c >> 6) & 0x3F) as u8) >= 0x80 && (0x80u8 | ((c >> 6) & 0x3F) as u8) <= 0xbf)
        by (bit_vector);
    assert((0x80u8 | ((c >> 12) & 0x3F) as u8) >= 0x80 && (0x80u8 | ((c >> 12) & 0x3F) as u8) <= 0xbf)
        by (bit_vector);
    assert((0xC0u8 | ((c >> 6) & 0x1F) as u8) >= 0xc0) by (bit_vector);
    assert((0xE0u8 | ((c >> 12) & 0x0F) as u8) >= 0xc0) by (bit_vector);
    assert((0xF0u8 | ((c >> 18) & 0x7) as u8) >= 0xc0) by (bit_vector);
}

/// The UTF-8 bytes of `s`.
pub fn to_bytes(s: &str) -> (r: Vec<u8>)
    ensures
        r@ == encode_utf8(s@),
{
    let b = s.as_bytes();
    let mut out: Vec<u8> = Vec::new();
    out.extend_from_slice(b);
    assert(out@ =~= b@);
    out
}

/// Whether bytes are UTF-8: only those are the bytes of their own text.
pub fn is_utf8(bytes: &[u8]) -> (r: bool)
    ensures
        r == valid_utf8(bytes@),
{
    let s = lossy(bytes);
    let back = s.as_str().as_bytes();
    proof {
        if valid_utf8(bytes@) {
            decode_utf8_encode_utf8(bytes@);
        }
        encode_utf8_valid_utf8(s@);
    }
    if back.len() != bytes.len() {
        return false;
    }
    let mut i: usize = 0;
    while i < bytes.len()
        invariant
            i <= bytes@.len(),
            back@.len() == bytes@.len(),
            valid_utf8(bytes@) ==> back@ == bytes@,
            forall|j: int| 0 <= j < i ==> back@[j] == bytes@[j],
        decreases bytes.len() - i,
    {
        if back[i] != bytes[i] {
            return false;
        }
        i += 1;
    }
    assert(back@ =~= bytes@);
    true
}

/// `s` without the run of copies of `p` at its start.
pub open spec fn strip_all(s: Seq<char>, p: Seq<char>) -> Seq<char>
    decreases s.len(),
{
    if p.len() > 0 && p.is_prefix_of(s) {
        strip_all(s.skip(p.len() as int), p)
    } else {
        s
    }
}

/// `s` without the run of copies of `p` at its start.
pub fn trim_start_matches(s: &str, p: &str) -> (r: String)
    ensures
        r@ == strip_all(s@, p@),
{
    let mut rest = s.to_owned();
    if p.is_empty() {
        return rest;
    }
    loop
        invariant
            p@.len() > 0,
            strip_all(rest@, p@) == strip_all(s@, p@),
        decreases rest@.len(),
    {
        match strip_prefix(rest.as_str(), p) {
            Some(t) => {
                rest = t;
            },
            None => {
                return rest;
            },
        }
    }
}

/// The character of a hexadecimal digit.
pub open spec fn hex_char(d: int, upper: bool) -> char {
    if d < 10 {
        digit_char(d)
    } else if upper {
        ('A' as u32 + (d - 10)) as char
    } else {
        ('a' as u32 + (d - 10)) as char
    }
}

/// The last `width` hexadecimal digits of `n`, the leading zeros among them.
pub open spec fn hex(n: nat, width: nat, upper: bool) -> Seq<char>
    decreases width,
{
    if width == 0 {
        Seq::empty()
    } else {
        hex(n / 16, (width - 1) as nat, upper).push(hex_char((n % 16) as int, upper))
    }
}

fn hex_digit(d: u8, upper: bool) -> (r: char)
    requires
        d < 16,
    ensures
        r == hex_char(d as int, upper),
{
    if d < 10 {
        (48u8 + d) as char
    } else if upper {
        (65u8 + (d - 10)) as char
    } else {
        (97u8 + (d - 10)) as char
    }
}

/// The last `width` hexadecimal digits of `n`.
pub fn hex_str(n: u128, width: usize, upper: bool) -> (r: String)
    ensures
        r@ == hex(n as nat, width as nat, upper),
    decreases width,
{
    if width == 0 {
        String::new()
    } else {
        let mut s = hex_str(n / 16, width - 1, upper);
        s.push(hex_digit((n % 16) as u8, upper));
        s
    }
}

/// Two numbers with the same last digits differ by a multiple of a power of 16:
/// below that power the digits tell them apart.
pub proof fn lemma_hex_injective(a: nat, b: nat, width: nat, upper: bool)
    requires
        hex(a, width, upper) == hex(b, width, upper),
        a < vstd::arithmetic::power::pow(16, width),
        b < vstd::arithmetic::power::pow(16, width),
    ensures
        a == b,
    decreases width,
{
    reveal(vstd::arithmetic::power::pow);
    if width > 0 {
        let w = (width - 1) as nat;
        let p = vstd::arithmetic::power::pow(16, w);
        let x = hex(a / 16, w, upper);
        let y = hex(b / 16, w, upper);
        let c = hex_char((a % 16) as int, upper);
        let d = hex_char((b % 16) as int, upper);
        assert(x.push(c).last() == c && y.push(d).last() == d);
        assert(x.push(c).drop_last() =~= x && y.push(d).drop_last() =~= y);
        assert(a % 16 == b % 16);
        assert(vstd::arithmetic::power::pow(16, width) == 16 * p);
        lemma_hex_injective(a / 16, b / 16, w, upper);
    }
}

/// Whether a character is a decimal digit.
pub open spec fn is_digit(c: char) -> bool {
    '0' <= c <= '9'
}

/// The number that decimal digits stand for.
pub open spec fn number(s: Seq<char>) -> nat
    decreases s.len(),
{
    if s.len() == 0 {
        0
    } else {
        (10 * number(s.drop_last()) + (s.last() as u32 - '0' as u32)) as nat
    }
}

/// A text without a plus sign in front.
pub open spec fn without_plus(s: Seq<char>) -> Seq<char> {
    if s.len() > 0 && s[0] == '+' {
        s.drop_first()
    } else {
        s
    }
}

/// Whether all characters are decimal digits.
pub open spec fn all_digits(s: Seq<char>) -> bool {
    forall|i: int| 0 <= i < s.len() ==> is_digit(#[trigger] s[i])
}

/// The number that a text stands for, as far as it fits into 32 bits: digits, of which there
/// is at least one, behind a plus sign or none.
pub open spec fn u32_of(s: Seq<char>) -> Option<u32> {
    let d = without_plus(s);
    if d.len() > 0 && all_digits(d) && number(d) <= u32::MAX {
        Some(number(d) as u32)
    } else {
        None
    }
}

/// The number that a text stands for, as far as it fits into 64 bits.
pub open spec fn u64_of(s: Seq<char>) -> Option<u64> {
    let d = without_plus(s);
    if d.len() > 0 && all_digits(d) && number(d) <= u64::MAX {
        Some(number(d) as u64)
    } else {
        None
    }
}

proof fn lemma_number_grows(s: Seq<char>, n: int)
    requires
        0 <= n <= s.len(),
        all_digits(s),
    ensures
        number(s.take(n)) <= number(s),
    decreases s.len(),
{
    if n < s.len() {
        let t = s.drop_last();
        assert forall|i: int| 0 <= i < t.len() implies is_digit(#[trigger] t[i]) by {
            assert(t[i] == s[i]);
        }
        lemma_number_grows(t, n);
        assert(t.take(n) =~= s.take(n));
        assert(is_digit(s[s.len() - 1]));
    } else {
        assert(s.take(n) =~= s);
    }
}

/// The number that a text stands for, if it is one and fits.
pub fn parse_u64(s: &str) -> (r: Option<u64>)
    ensures
        r == u64_of(s@),
{
    let v = to_chars(s);
    let start: usize = if v.len() > 0 && v[0] == '+' {
        1
    } else {
        0
    };
    let ghost d = without_plus(s@);
    assert(d =~= v@.skip(start as int));
    if start == v.len() {
        return None;
    }
    let mut n: u128 = 0;
    let mut i: usize = start;
    assert(d.take(0) =~= Seq::empty());
    while i < v.len()
        invariant
            start <= i <= v@.len(),
            start < v@.len(),
            d == v@.skip(start as int),
            d == without_plus(s@),
            n == number(d.take(i - start)),
            n <= u64::MAX,
            forall|k: int| 0 <= k < i - start ==> is_digit(#[trigger] d[k]),
        decreases v.len() - i,
    {
        let c = v[i];
        assert(d[i - start] == c);
        if !('0' <= c && c <= '9') {
            assert(!is_digit(d[i - start]));
            return None;
        }
        proof {
            assert(d.take(i - start + 1).drop_last() =~= d.take(i - start));
            assert(d.take(i - start + 1).last() == c);
        }
        n = 10 * n + ((c as u32) - 48) as u128;
        i += 1;
        if n > 0xffff_ffff_ffff_ffff {
            proof {
                if all_digits(d) {
                    lemma_number_grows(d, i - start);
                }
            }
            return None;
        }
    }
    assert(d.take(i - start) =~= d);
    Some(n as u64)
}

/// The number that a text stands for, if it is one and fits.
pub fn parse_u32(s: &str) -> (r: Option<u32>)
    ensures
        r == u32_of(s@),
{
    match parse_u64(s) {
        Some(n) => if n <= 0xffff_ffff {
            Some(n as u32)
        } else {
            None
        },
        None => None,
    }
}

/// Adds a text to a list.
pub fn push_text(v: &mut Vec<String>, s: &str)
    ensures
        texts(final(v)@) == texts(old(v)@).push(s@),
{
    v.push(s.to_owned());
    assert(texts(v@) =~= texts(old(v)@).push(s@));
}

/// The parts of a text between the places where a character stands.
pub open spec fn split_spec(s: Seq<char>, c: char) -> Seq<Seq<char>>
    decreases s.len(),
{
    let n = position(s, c);
    if 0 <= n < s.len() {
        seq![s.take(n)] + split_spec(s.skip(n + 1), c)
    } else {
        seq![s]
    }
}

/// The parts of a text between the places where a character stands.
pub fn split(s: &str, c: char) -> (r: Vec<String>)
    ensures
        texts(r@) == split_spec(s@, c),
{
    let v = to_chars(s);
    let mut out: Vec<String> = Vec::new();
    let mut i: usize = 0;
    proof {
        assert(v@.skip(0) =~= s@);
        assert(texts(out@) + split_spec(s@, c) =~= split_spec(s@, c));
    }
    loop
        invariant
            i <= v@.len(),
            v@ == s@,
            split_spec(s@, c) == texts(out@) + split_spec(v@.skip(i as int), c),
        decreases v@.len() - i,
    {
        let n: usize = index_of(&v, i, c);
        let part = from_chars(&v, i, n);
        let ghost before = out@;
        let ghost rest = v@.skip(i as int);
        assert(part@ =~= rest.take(n - i));
        out.push(part);
        assert(texts(out@) =~= texts(before).push(part@));
        if n == v.len() {
            assert(rest =~= part@);
            assert(texts(before) + seq![part@] =~= texts(out@));
            return out;
        }
        proof {
            assert(rest.skip(n - i + 1) =~= v@.skip(n + 1));
            let more = split_spec(v@.skip(n + 1), c);
            assert(texts(before) + (seq![part@] + more) =~= texts(out@) + more);
        }
        i = n + 1;
    }
}

proof fn lemma_last_position(s: Seq<char>, c: char, n: int)
    requires
        0 <= n <= s.len(),
        n > 0 ==> s[n - 1] == c,
        forall|j: int| n <= j < s.len() ==> s[j] != c,
    ensures
        last_position(s, c) == n,
    decreases s.len(),
{
    if n < s.len() {
        assert(s.last() != c);
        lemma_last_position(s.drop_last(), c, n);
    }
}

/// The index just behind the last `c`, or 0 where there is none.
pub fn last_index_of(v: &Vec<char>, c: char) -> (r: usize)
    ensures
        r <= v@.len(),
        r == last_position(v@, c),
{
    let mut n: usize = v.len();
    while n > 0 && v[n - 1] != c
        invariant
            n <= v@.len(),
            forall|j: int| n <= j < v@.len() ==> v@[j] != c,
        decreases n,
    {
        n -= 1;
    }
    proof {
        lemma_last_position(v@, c, n as int);
    }
    n
}

/// What `str::to_lowercase` makes of a text.
pub uninterp spec fn lowercase(s: Seq<char>) -> Seq<char>;

/// `str::to_lowercase`: the text that Unicode gives, named `lowercase`; of a text
/// in ASCII it is the text with each letter in lower case.
#[verifier::external_body]
pub(crate) fn to_lowercase(s: &str) -> (r: String)
    ensures
        r@ == lowercase(s@),
        is_ascii_chars(s@) ==> r@ == s@.map_values(|c: char| ascii_lower(c)),
{
    s.to_lowercase()
}

/// `s` without the line feeds and carriage returns at its end.
pub open spec fn without_line_end(s: Seq<char>) -> Seq<char>
    decreases s.len(),
{
    if s.len() > 0 && (s.last() == '\n' || s.last() == '\r') {
        without_line_end(s.drop_last())
    } else {
        s
    }
}

/// `s` without the line feeds and carriage returns at its end.
pub fn trim_line_end(s: &str) -> (r: String)
    ensures
        r@ == without_line_end(s@),
{
    let v = to_chars(s);
    let mut n: usize = v.len();
    assert(v@.take(n as int) == s@);
    while n > 0 && (v[n - 1] == '\n' || v[n - 1] == '\r')
        invariant
            n <= v@.len(),
            without_line_end(s@) == without_line_end(v@.take(n as int)),
        decreases n,
    {
        assert(v@.take(n as int).last() == v@[n - 1]);
        assert(v@.take(n as int).drop_last() == v@.take(n - 1));
        n -= 1;
    }
    assert(n > 0 ==> v@.take(n as int).last() == v@[n - 1]);
    from_chars(&v, 0, n)
}

/// What the `Debug` of a `str` writes: the text in quotes, with escapes.
pub uninterp spec fn debug_text(s: Seq<char>) -> Seq<char>;

/// The `Debug` of a `str`, named `debug_text`.
#[verifier::external_body]
pub(crate) fn debug(s: &str) -> (r: String)
    ensures
        r@ == debug_text(s@),
{
    format!("{:?}", s)
}

} // verus!
