//! Parts of paths, by the rules of Unix or of Windows.

use vstd::prelude::*;

use crate::text;

verus! {

/// The system whose rules a path follows.
#[derive(Debug, Clone, Copy, PartialEq, Eq, Structural)]
pub enum Style {
    /// Names stand between slashes.
    Unix,
    /// Names stand between slashes or backslashes, behind a prefix or none: a drive,
    /// a server and its share, or a device. Behind a verbatim prefix names stand
    /// between backslashes alone.
    Windows,
}

/// Whether a character stands between names on Windows.
pub open spec fn is_separator(c: char, verbatim: bool) -> bool {
    c == '\\' || (c == '/' && !verbatim)
}

/// The number of characters before the first separator.
pub open spec fn run_len(s: Seq<char>, verbatim: bool) -> int
    decreases s.len(),
{
    if s.len() == 0 || is_separator(s[0], verbatim) {
        0
    } else {
        1 + run_len(s.drop_first(), verbatim)
    }
}

/// What stands behind the first separator.
pub open spec fn behind_run(s: Seq<char>, verbatim: bool) -> Seq<char> {
    let n = run_len(s, verbatim);
    if n < s.len() {
        s.skip(n + 1)
    } else {
        Seq::empty()
    }
}

/// Whether a path begins with some characters, slashes taken for backslashes.
pub open spec fn begins(path: Seq<char>, start: Seq<char>) -> bool {
    &&& path.len() >= start.len()
    &&& forall|i: int|
        0 <= i < start.len() ==> #[trigger] start[i] == if path[i] == '/' {
            '\\'
        } else {
            path[i]
        }
}

/// Whether a path begins with a drive: a letter and a colon.
pub open spec fn has_drive(path: Seq<char>) -> bool {
    &&& path.len() >= 2 && path[1] == ':'
    &&& 'a' <= path[0] <= 'z' || 'A' <= path[0] <= 'Z'
}

/// Whether a path has a verbatim prefix, such as `\\?\C:`: it begins so, with
/// backslashes alone.
pub open spec fn is_verbatim(path: Seq<char>) -> bool {
    r"\\?\"@.is_prefix_of(path)
}

/// The number of characters of a server and its share.
pub open spec fn share_len(s: Seq<char>, verbatim: bool) -> int {
    let server = run_len(s, verbatim);
    let share = run_len(behind_run(s, verbatim), verbatim);
    if share > 0 {
        server + 1 + share
    } else {
        server
    }
}

/// The number of characters of a verbatim prefix: a server and its share behind
/// `\\?\UNC\`, a drive alone behind `\\?\`, or whatever else stands behind that up to
/// a separator.
pub open spec fn verbatim_len(path: Seq<char>) -> int {
    let rest = path.skip(4);
    if begins(rest, r"UNC\"@) {
        8 + share_len(path.skip(8), true)
    } else if has_drive(rest) && (rest.len() == 2 || is_separator(rest[2], false)) {
        6
    } else {
        4 + run_len(rest, true)
    }
}

/// The number of characters of a path's prefix on Windows: a verbatim one, a device
/// behind `\\.\`, a server and its share behind `\\`, a drive, or none.
pub open spec fn prefix_len(path: Seq<char>) -> int {
    if is_verbatim(path) {
        verbatim_len(path)
    } else if begins(path, r"\\.\"@) {
        4 + run_len(path.skip(4), false)
    } else if begins(path, r"\\"@) {
        let rest = path.skip(2);
        if run_len(rest, false) > 0 && run_len(behind_run(rest, false), false) > 0 {
            2 + share_len(rest, false)
        } else {
            0
        }
    } else if has_drive(path) {
        2
    } else {
        0
    }
}

/// A text with slashes in place of its backslashes.
pub open spec fn slashed(s: Seq<char>) -> Seq<char> {
    s.map_values(
        |c: char|
            if c == '\\' {
                '/'
            } else {
                c
            },
    )
}

/// The parts of a path, without its prefix.
pub open spec fn parts_of(path: Seq<char>, style: Style) -> Seq<Seq<char>> {
    match style {
        Style::Unix => text::split_spec(path, '/'),
        Style::Windows => {
            let names = path.skip(prefix_len(path));
            if is_verbatim(path) {
                text::split_spec(names, '\\')
            } else {
                text::split_spec(slashed(names), '/')
            }
        },
    }
}

/// The last name among the parts of a path: empty parts do not count, nor do single
/// dots unless the path is verbatim, and a step upwards is no name.
pub open spec fn last_name(parts: Seq<Seq<char>>, verbatim: bool) -> Option<Seq<char>>
    decreases parts.len(),
{
    if parts.len() == 0 {
        None
    } else {
        let part = parts.last();
        if part.len() == 0 || (part == "."@ && !verbatim) {
            last_name(parts.drop_last(), verbatim)
        } else if part == "."@ || part == ".."@ {
            None
        } else {
            Some(part)
        }
    }
}

/// The name of the file that a path leads to.
pub open spec fn name_of(path: Seq<char>, style: Style) -> Option<Seq<char>> {
    last_name(parts_of(path, style), style is Windows && is_verbatim(path))
}

/// What follows the last dot of a name, unless the dot is its first character.
pub open spec fn suffix_of(name: Seq<char>) -> Option<Seq<char>> {
    let n = text::last_position(name, '.');
    if n >= 2 {
        Some(name.skip(n))
    } else {
        None
    }
}

/// The extension of the file that a path leads to.
pub open spec fn extension_of(path: Seq<char>, style: Style) -> Option<Seq<char>> {
    match name_of(path, style) {
        Some(name) => suffix_of(name),
        None => None,
    }
}

proof fn lemma_run_len(s: Seq<char>, verbatim: bool, n: int)
    requires
        0 <= n <= s.len(),
        forall|i: int| 0 <= i < n ==> !is_separator(#[trigger] s[i], verbatim),
        n < s.len() ==> is_separator(s[n], verbatim),
    ensures
        run_len(s, verbatim) == n,
    decreases n,
{
    if n > 0 {
        let t = s.drop_first();
        assert(!is_separator(s[0], verbatim));
        assert forall|i: int| 0 <= i < n - 1 implies !is_separator(#[trigger] t[i], verbatim) by {
            assert(t[i] == s[i + 1]);
        }
        lemma_run_len(t, verbatim, n - 1);
    }
}

/// The index of the first separator from an index on, or the length where there is
/// none.
fn run_end(v: &Vec<char>, from: usize, verbatim: bool) -> (r: usize)
    requires
        from <= v@.len(),
    ensures
        from <= r <= v@.len(),
        r - from == run_len(v@.skip(from as int), verbatim),
{
    let mut i: usize = from;
    while i < v.len() && !(v[i] == '\\' || (v[i] == '/' && !verbatim))
        invariant
            from <= i <= v@.len(),
            forall|j: int| from <= j < i ==> !is_separator(#[trigger] v@[j], verbatim),
        decreases v.len() - i,
    {
        i += 1;
    }
    proof {
        let s = v@.skip(from as int);
        assert forall|j: int| 0 <= j < i - from implies !is_separator(#[trigger] s[j], verbatim) by {
            assert(s[j] == v@[from + j]);
        }
        lemma_run_len(s, verbatim, i - from);
    }
    i
}

/// The lengths of the first run from an index on, and of the one behind it.
fn two_runs(v: &Vec<char>, from: usize, verbatim: bool) -> (r: (usize, usize))
    requires
        from <= v@.len(),
    ensures
        ({
            let s = v@.skip(from as int);
            &&& r.0 == run_len(s, verbatim)
            &&& r.1 == run_len(behind_run(s, verbatim), verbatim)
            &&& from + r.0 <= v@.len()
            &&& r.1 > 0 ==> from + r.0 + 1 + r.1 <= v@.len()
        }),
{
    let a: usize = run_end(v, from, verbatim);
    let ghost s = v@.skip(from as int);
    if a < v.len() {
        let b: usize = run_end(v, a + 1, verbatim);
        assert(v@.skip(a + 1) =~= s.skip(a - from + 1));
        (a - from, b - a - 1)
    } else {
        (a - from, 0)
    }
}

fn drive_at(v: &Vec<char>, at: usize) -> (r: bool)
    requires
        at <= v@.len(),
    ensures
        r == has_drive(v@.skip(at as int)),
{
    v.len() - at >= 2 && v[at + 1] == ':' && (('a' <= v[at] && v[at] <= 'z') || ('A' <= v[at]
        && v[at] <= 'Z'))
}

fn begins_at(v: &Vec<char>, at: usize, start: &Vec<char>) -> (r: bool)
    requires
        at <= v@.len(),
    ensures
        r == begins(v@.skip(at as int), start@),
{
    if v.len() - at < start.len() {
        return false;
    }
    let ghost s = v@.skip(at as int);
    let end: usize = v.len();
    let mut i: usize = 0;
    while i < start.len()
        invariant
            i <= start@.len(),
            at + start@.len() <= v@.len() == end,
            s == v@.skip(at as int),
            forall|j: int|
                0 <= j < i ==> #[trigger] start@[j] == if s[j] == '/' {
                    '\\'
                } else {
                    s[j]
                },
        decreases start.len() - i,
    {
        let c = if v[at + i] == '/' {
            '\\'
        } else {
            v[at + i]
        };
        assert(s[i as int] == v@[at + i]);
        if start[i] != c {
            assert(start@[i as int] != c);
            return false;
        }
        i += 1;
    }
    true
}

/// The length of a path's prefix on Windows, and whether it is a verbatim one.
fn find_prefix(v: &Vec<char>) -> (r: (usize, bool))
    ensures
        r.0 == prefix_len(v@),
        r.0 <= v@.len(),
        r.1 == is_verbatim(v@),
{
    let ghost path = v@;
    proof {
        reveal_strlit(r"\\?\");
        reveal_strlit(r"\\.\");
        reveal_strlit(r"\\");
        reveal_strlit(r"UNC\");
        assert(v@.skip(0) =~= v@);
    }
    if v.len() >= 4 && v[0] == '\\' && v[1] == '\\' && v[2] == '?' && v[3] == '\\' {
        assert(r"\\?\"@ =~= path.subrange(0, 4));
        assert(is_verbatim(path));
        let rest = text::to_chars(r"UNC\");
        if begins_at(v, 4, &rest) {
            let (server, share) = two_runs(v, 8, true);
            let n: usize = if share > 0 {
                8 + server + 1 + share
            } else {
                8 + server
            };
            return (n, true);
        }
        if drive_at(v, 4) && (v.len() == 6 || v[6] == '\\' || v[6] == '/') {
            assert(path.skip(4).len() > 2 ==> path.skip(4)[2] == path[6]);
            return (6, true);
        }
        assert(path.skip(4).len() > 2 ==> path.skip(4)[2] == path[6]);
        return (run_end(v, 4, true), true);
    }
    assert(!is_verbatim(path)) by {
        if is_verbatim(path) {
            assert(r"\\?\"@ == path.subrange(0, 4));
            assert(path.subrange(0, 4)[0] == path[0]);
            assert(path.subrange(0, 4)[1] == path[1]);
            assert(path.subrange(0, 4)[2] == path[2]);
            assert(path.subrange(0, 4)[3] == path[3]);
        }
    }
    let device = text::to_chars(r"\\.\");
    if begins_at(v, 0, &device) {
        return (run_end(v, 4, false), false);
    }
    let two = text::to_chars(r"\\");
    if begins_at(v, 0, &two) {
        let (server, share) = two_runs(v, 2, false);
        if server > 0 && share > 0 {
            return (2 + server + 1 + share, false);
        }
        return (0, false);
    }
    if drive_at(v, 0) {
        (2, false)
    } else {
        (0, false)
    }
}

fn with_slashes(v: &Vec<char>, from: usize) -> (r: String)
    requires
        from <= v@.len(),
    ensures
        r@ == slashed(v@.skip(from as int)),
{
    let ghost all = slashed(v@.skip(from as int));
    let mut out = String::new();
    let mut i: usize = from;
    assert(out@ =~= all.take(0));
    while i < v.len()
        invariant
            from <= i <= v@.len(),
            all == slashed(v@.skip(from as int)),
            out@ == all.take(i - from),
        decreases v.len() - i,
    {
        let c = v[i];
        if c == '\\' {
            out.push('/');
        } else {
            out.push(c);
        }
        i += 1;
        assert(out@ =~= all.take(i - from));
    }
    assert(all.take(i - from) =~= all);
    out
}

fn split_path(path: &str, style: Style) -> (r: (Vec<String>, bool))
    ensures
        text::texts(r.0@) == parts_of(path@, style),
        r.1 == (style is Windows && is_verbatim(path@)),
{
    match style {
        Style::Unix => (text::split(path, '/'), false),
        Style::Windows => {
            let v = text::to_chars(path);
            let (n, verbatim) = find_prefix(&v);
            if verbatim {
                let names = text::from_chars(&v, n, v.len());
                assert(names@ =~= path@.skip(n as int));
                (text::split(names.as_str(), '\\'), true)
            } else {
                (text::split(with_slashes(&v, n).as_str(), '/'), false)
            }
        },
    }
}

/// The name of the file that a path leads to.
pub fn file_name(path: &str, style: Style) -> (r: Option<String>)
    ensures
        match r {
            Some(s) => name_of(path@, style) == Some(s@),
            None => name_of(path@, style) is None,
        },
{
    let (parts, verbatim) = split_path(path, style);
    let ghost all = text::texts(parts@);
    let mut n: usize = parts.len();
    assert(all.take(n as int) =~= all);
    while n > 0
        invariant
            n <= parts@.len(),
            all == text::texts(parts@),
            name_of(path@, style) == last_name(all.take(n as int), verbatim),
        decreases n,
    {
        let part = &parts[n - 1];
        proof {
            assert(all.take(n as int).last() == part@);
            assert(all.take(n as int).drop_last() =~= all.take(n - 1));
        }
        let dot = text::same(part.as_str(), ".");
        if !(part.as_str().is_empty() || (dot && !verbatim)) {
            if dot || text::same(part.as_str(), "..") {
                return None;
            }
            return Some(part.clone());
        }
        n -= 1;
    }
    None
}

/// The extension of the file that a path leads to.
pub fn extension(path: &str, style: Style) -> (r: Option<String>)
    ensures
        match r {
            Some(s) => extension_of(path@, style) == Some(s@),
            None => extension_of(path@, style) is None,
        },
{
    match file_name(path, style) {
        None => None,
        Some(name) => {
            let v = text::to_chars(name.as_str());
            let n: usize = text::last_index_of(&v, '.');
            if n >= 2 {
                let s = text::from_chars(&v, n, v.len());
                assert(s@ =~= name@.skip(n as int));
                Some(s)
            } else {
                None
            }
        },
    }
}

/// Whether a path leads to a file with an extension.
pub fn has_extension(path: &str, ext: &str, style: Style) -> (r: bool)
    ensures
        r == (extension_of(path@, style) == Some(ext@)),
{
    match extension(path, style) {
        Some(e) => text::same(e.as_str(), ext),
        None => false,
    }
}

// ---------------------------------------------------------------------------
// Paths in bytes
// ---------------------------------------------------------------------------

/// Bytes as the characters of the same numbers. Names, dots and separators stand
/// at the same places in both, whatever the bytes encode.
pub open spec fn as_chars(bytes: Seq<u8>) -> Seq<char> {
    bytes.map_values(|b: u8| b as char)
}

/// Bytes as the characters of the same numbers.
pub fn chars_of(bytes: &[u8]) -> (r: String)
    ensures
        r@ == as_chars(bytes@),
{
    let mut out = String::new();
    let mut i: usize = 0;
    assert(out@ =~= as_chars(bytes@).take(0));
    while i < bytes.len()
        invariant
            i <= bytes@.len(),
            out@ == as_chars(bytes@).take(i as int),
        decreases bytes.len() - i,
    {
        out.push(bytes[i] as char);
        i += 1;
        assert(out@ =~= as_chars(bytes@).take(i as int));
    }
    assert(as_chars(bytes@).take(i as int) =~= as_chars(bytes@));
    out
}

/// Whether every character of a text has the number of a byte.
pub open spec fn are_bytes(s: Seq<char>) -> bool {
    forall|i: int| 0 <= i < s.len() ==> (#[trigger] s[i]) as u32 <= 255
}

/// The bytes of which some characters have the numbers.
pub fn bytes_of(s: &str) -> (r: Vec<u8>)
    requires
        are_bytes(s@),
    ensures
        as_chars(r@) == s@,
{
    let v = text::to_chars(s);
    let mut out: Vec<u8> = Vec::new();
    let mut i: usize = 0;
    assert(as_chars(out@) =~= s@.take(0));
    while i < v.len()
        invariant
            i <= v@.len(),
            v@ == s@,
            are_bytes(s@),
            as_chars(out@) == s@.take(i as int),
        decreases v.len() - i,
    {
        let c = v[i];
        let n: u32 = c as u32;
        assert(s@[i as int] as u32 <= 255);
        let ghost before = out@;
        out.push(n as u8);
        i += 1;
        proof {
            vstd::utf8::char_u32_cast(c, n);
            assert((n as u8) as char == n as char);
            assert(as_chars(out@) =~= as_chars(before).push(c));
            assert(s@.take(i as int) =~= s@.take(i - 1).push(c));
        }
    }
    assert(s@.take(i as int) =~= s@);
    out
}

proof fn lemma_parts_are_bytes(s: Seq<char>, c: char)
    requires
        are_bytes(s),
    ensures
        forall|i: int|
            0 <= i < text::split_spec(s, c).len() ==> are_bytes(
                #[trigger] text::split_spec(s, c)[i],
            ),
    decreases s.len(),
{
    let n = text::position(s, c);
    text::lemma_position_bound(s, c);
    if n < s.len() {
        lemma_parts_are_bytes(s.skip(n + 1), c);
        assert(are_bytes(s.take(n)));
        let rest = text::split_spec(s.skip(n + 1), c);
        assert forall|i: int| 0 <= i < text::split_spec(s, c).len() implies are_bytes(
            #[trigger] text::split_spec(s, c)[i],
        ) by {
            if i > 0 {
                assert(text::split_spec(s, c)[i] == rest[i - 1]);
            }
        }
    }
}

proof fn lemma_last_name_is_bytes(parts: Seq<Seq<char>>, verbatim: bool)
    requires
        forall|i: int| 0 <= i < parts.len() ==> are_bytes(#[trigger] parts[i]),
    ensures
        last_name(parts, verbatim) matches Some(name) ==> are_bytes(name),
    decreases parts.len(),
{
    if parts.len() > 0 {
        assert(are_bytes(parts[parts.len() - 1]));
        lemma_last_name_is_bytes(parts.drop_last(), verbatim);
    }
}

proof fn lemma_run_bound(s: Seq<char>, verbatim: bool)
    ensures
        0 <= run_len(s, verbatim) <= s.len(),
    decreases s.len(),
{
    if s.len() > 0 {
        lemma_run_bound(s.drop_first(), verbatim);
    }
}

proof fn lemma_prefix_bound(path: Seq<char>)
    ensures
        0 <= prefix_len(path) <= path.len(),
{
    reveal_strlit(r"\\?\");
    reveal_strlit(r"\\.\");
    reveal_strlit(r"\\");
    reveal_strlit(r"UNC\");
    let verbatim = is_verbatim(path);
    if path.len() >= 8 {
        lemma_run_bound(path.skip(8), verbatim);
        lemma_run_bound(behind_run(path.skip(8), verbatim), verbatim);
    }
    if path.len() >= 4 {
        lemma_run_bound(path.skip(4), verbatim);
    }
    if path.len() >= 2 {
        lemma_run_bound(path.skip(2), false);
        lemma_run_bound(behind_run(path.skip(2), false), false);
    }
}

/// A name in a path whose characters have the numbers of bytes is made of such
/// characters.
pub proof fn lemma_name_is_bytes(path: Seq<char>, style: Style)
    requires
        are_bytes(path),
    ensures
        name_of(path, style) matches Some(name) ==> are_bytes(name),
{
    let n = prefix_len(path);
    lemma_prefix_bound(path);
    let names = path.skip(n);
    assert forall|i: int| 0 <= i < names.len() implies (#[trigger] names[i]) as u32 <= 255 by {
        assert(names[i] == path[n + i]);
    }
    assert forall|i: int| 0 <= i < names.len() implies (#[trigger] slashed(names)[i]) as u32
        <= 255 by {
        assert(names[i] as u32 <= 255);
    }
    lemma_parts_are_bytes(path, '/');
    lemma_parts_are_bytes(names, '\\');
    lemma_parts_are_bytes(slashed(names), '/');
    lemma_last_name_is_bytes(parts_of(path, style), style is Windows && is_verbatim(path));
}

} // verus!
