//! Laws of the names in paths.

use vstd::prelude::*;

use crate::paths;
use crate::paths::Style;
use crate::text;

verus! {

proof fn lemma_split_tail(a: Seq<char>, b: Seq<char>, c: char)
    requires
        !b.contains(c),
    ensures
        text::split_spec(a + seq![c] + b, c) == text::split_spec(a, c).push(b),
    decreases a.len(),
{
    let s = a + seq![c] + b;
    let n = text::position(a, c);
    text::lemma_position_bound(a, c);
    assert forall|j: int| 0 <= j < n implies s[j] != c by {
        assert(s[j] == a[j]);
    }
    assert(s[n] == c) by {
        if n < a.len() {
            assert(s[n] == a[n]);
        }
    }
    text::lemma_position(s, c, n);
    assert(s.take(n) =~= a.take(n));
    if n < a.len() {
        let rest = a.skip(n + 1);
        assert(s.skip(n + 1) =~= rest + seq![c] + b);
        lemma_split_tail(rest, b, c);
        assert(text::split_spec(s, c) =~= text::split_spec(a, c).push(b));
    } else {
        assert(a.take(n) =~= a);
        assert(s.skip(n + 1) =~= b);
        text::lemma_position_bound(b, c);
        assert(text::split_spec(b, c) =~= seq![b]);
        assert(text::split_spec(s, c) =~= seq![a, b]);
        assert(text::split_spec(a, c).push(b) =~= seq![a, b]);
    }
}

proof fn lemma_parts(dir: Seq<char>, name: Seq<char>)
    requires
        dir.len() == 0 || dir.last() == '/',
        !name.contains('/'),
    ensures
        text::split_spec(dir + name, '/').last() == name,
        dir.len() > 0 ==> text::split_spec(dir + name, '/').drop_last() == text::split_spec(
            dir.drop_last(),
            '/',
        ),
        dir.len() == 0 ==> text::split_spec(dir + name, '/').len() == 1,
{
    if dir.len() > 0 {
        let a = dir.drop_last();
        assert(dir + name =~= a + seq!['/'] + name);
        lemma_split_tail(a, name, '/');
        let parts = text::split_spec(a, '/').push(name);
        assert(parts.drop_last() =~= text::split_spec(a, '/'));
    } else {
        assert(dir + name =~= name);
        text::lemma_position_bound(name, '/');
        assert(text::split_spec(name, '/') =~= seq![name]);
    }
}

/// The name of a file is what stands behind the last slash of its path, whatever
/// stands before it and whatever the name; a step upwards is none.
pub proof fn law_names_stand_at_the_end(
    path: &str,
    dir: Seq<char>,
    name: Seq<char>,
    r: Option<String>,
)
    requires
        call_ensures(paths::file_name, (path, Style::Unix), r),
        path@ == dir + name,
        dir.len() == 0 || dir.last() == '/',
        !name.contains('/'),
        name.len() > 0,
        name != "."@,
    ensures
        name != ".."@ ==> r is Some && r.unwrap()@ == name,
        name == ".."@ ==> r is None,
{
    lemma_parts(dir, name);
}

/// A slash at the end of a path, or a slash and a dot, changes nothing; a path
/// without any name has none.
pub proof fn law_ends_of_paths(
    path: &str,
    longer: &str,
    r: Option<String>,
    s: Option<String>,
)
    requires
        call_ensures(paths::file_name, (path, Style::Unix), r),
        call_ensures(paths::file_name, (longer, Style::Unix), s),
        longer@ == path@ + seq!['/'] || longer@ == path@ + seq!['/', '.'],
    ensures
        r is Some <==> s is Some,
        r is Some ==> r.unwrap()@ == s.unwrap()@,
        path@.len() == 0 || path@ == "."@ ==> r is None,
{
    reveal_strlit(".");
    let name: Seq<char> = if longer@ == path@ + seq!['/'] {
        seq![]
    } else {
        "."@
    };
    let dir = path@ + seq!['/'];
    assert("."@ =~= seq!['.']);
    assert(longer@ =~= dir + name);
    assert(dir.drop_last() =~= path@);
    lemma_parts(dir, name);
    if path@.len() == 0 || path@ == "."@ {
        lemma_parts(seq![], path@);
        assert(seq![] + path@ =~= path@);
        let parts = text::split_spec(path@, '/');
        assert(parts.drop_last() =~= seq![]);
        reveal_with_fuel(paths::last_name, 2);
    }
}

/// A path with slashes in place of its backslashes.
pub open spec fn with_slashes(s: Seq<char>) -> Seq<char> {
    Seq::new(
        s.len(),
        |i: int|
            if s[i] == '\\' {
                '/'
            } else {
                s[i]
            },
    )
}

/// Whether a character stands between names on Windows.
pub open spec fn is_sep(c: char) -> bool {
    c == '/' || c == '\\'
}

/// Whether a path begins with a letter and a colon.
pub open spec fn begins_with_drive(path: Seq<char>) -> bool {
    path.len() >= 2 && path[1] == ':' && ('a' <= path[0] <= 'z' || 'A' <= path[0] <= 'Z')
}

proof fn lemma_literals()
    ensures
        r"\\?\"@ =~= seq!['\\', '\\', '?', '\\'],
        r"\\.\"@ =~= seq!['\\', '\\', '.', '\\'],
        r"\\"@ =~= seq!['\\', '\\'],
{
    reveal_strlit(r"\\?\");
    reveal_strlit(r"\\.\");
    reveal_strlit(r"\\");
}

proof fn lemma_no_share(path: Seq<char>)
    requires
        !(path.len() >= 2 && is_sep(path[0]) && is_sep(path[1])),
    ensures
        !paths::is_verbatim(path),
        !paths::begins(path, r"\\.\"@),
        !paths::begins(path, r"\\"@),
{
    lemma_literals();
    let v = r"\\?\"@;
    let d = r"\\.\"@;
    let s = r"\\"@;
    if paths::is_verbatim(path) {
        assert(path.subrange(0, 4)[0] == v[0] && path.subrange(0, 4)[1] == v[1]);
    }
    if paths::begins(path, d) {
        assert(d[0] == '\\' && d[1] == '\\');
    }
    if paths::begins(path, s) {
        assert(s[0] == '\\' && s[1] == '\\');
    }
}

/// On Windows the names of a path that begins with neither a drive nor two
/// separators are those of the same path with slashes; those of a path with a drive
/// are those of what stands behind the drive.
pub proof fn law_names_on_windows(
    path: &str,
    rest: &str,
    r: Option<String>,
    s: Option<String>,
)
    requires
        call_ensures(paths::file_name, (path, Style::Windows), r),
        call_ensures(paths::file_name, (rest, Style::Unix), s),
        !(path@.len() >= 2 && is_sep(path@[0]) && is_sep(path@[1])),
        begins_with_drive(path@) ==> rest@ == with_slashes(path@.skip(2)),
        !begins_with_drive(path@) ==> rest@ == with_slashes(path@),
    ensures
        r is Some <==> s is Some,
        r is Some ==> r.unwrap()@ == s.unwrap()@,
{
    lemma_no_share(path@);
    assert(path@.skip(0) =~= path@);
    assert(paths::slashed(path@) =~= with_slashes(path@));
    if path@.len() >= 2 {
        assert(paths::slashed(path@.skip(2)) =~= with_slashes(path@.skip(2)));
    }
}

proof fn lemma_run(s: Seq<char>, n: int)
    requires
        0 <= n <= s.len(),
        forall|i: int| 0 <= i < n ==> !is_sep(#[trigger] s[i]),
        n < s.len() ==> is_sep(s[n]),
    ensures
        paths::run_len(s, false) == n,
    decreases n,
{
    if n > 0 {
        let t = s.drop_first();
        assert(!is_sep(s[0]));
        assert forall|i: int| 0 <= i < n - 1 implies !is_sep(#[trigger] t[i]) by {
            assert(t[i] == s[i + 1]);
        }
        lemma_run(t, n - 1);
    }
}

/// On Windows the names of a path behind a server and its share are those of what
/// stands behind the share.
pub proof fn law_names_behind_a_share(
    path: &str,
    server: Seq<char>,
    share: Seq<char>,
    behind: Seq<char>,
    rest: &str,
    r: Option<String>,
    s: Option<String>,
)
    requires
        call_ensures(paths::file_name, (path, Style::Windows), r),
        call_ensures(paths::file_name, (rest, Style::Unix), s),
        path@ == seq!['\\', '\\'] + server + seq!['\\'] + share + behind,
        server.len() > 0,
        share.len() > 0,
        server != seq!['?'],
        server != seq!['.'],
        forall|i: int| 0 <= i < server.len() ==> !is_sep(#[trigger] server[i]),
        forall|i: int| 0 <= i < share.len() ==> !is_sep(#[trigger] share[i]),
        behind.len() > 0 ==> is_sep(behind[0]),
        rest@ == with_slashes(behind),
    ensures
        r is Some <==> s is Some,
        r is Some ==> r.unwrap()@ == s.unwrap()@,
{
    lemma_literals();
    let p = path@;
    let n = server.len() as int;
    let m = share.len() as int;
    assert(p[0] == '\\' && p[1] == '\\');
    assert forall|i: int| 0 <= i < n implies p[2 + i] == server[i] by {}
    assert(p[2 + n] == '\\');
    assert(!is_sep(server[0]));
    if paths::is_verbatim(p) {
        let v = r"\\?\"@;
        assert(p.subrange(0, 4)[2] == v[2] && p.subrange(0, 4)[3] == v[3]);
        assert(p[2] == '?' && p[3] == '\\');
        if n > 1 {
            assert(p[3] == server[1]);
            assert(!is_sep(server[1]));
        }
        assert(server =~= seq!['?']);
    }
    if paths::begins(p, r"\\.\"@) {
        let d = r"\\.\"@;
        assert(d[2] == '.' && d[3] == '\\');
        assert(p[2] == '.');
        assert(is_sep(p[3]));
        if n > 1 {
            assert(p[3] == server[1]);
            assert(!is_sep(server[1]));
        }
        assert(server =~= seq!['.']);
    }
    assert(paths::begins(p, r"\\"@)) by {
        let t = r"\\"@;
        assert(t[0] == '\\' && t[1] == '\\');
    }
    let q = p.skip(2);
    assert forall|i: int| 0 <= i < n implies !is_sep(#[trigger] q[i]) by {
        assert(q[i] == server[i]);
    }
    assert(q[n] == '\\');
    lemma_run(q, n);
    let t = q.skip(n + 1);
    assert(t =~= share + behind);
    assert forall|i: int| 0 <= i < m implies !is_sep(#[trigger] t[i]) by {
        assert(t[i] == share[i]);
    }
    if m < t.len() {
        assert(t[m] == behind[0]);
    }
    lemma_run(t, m);
    assert(paths::prefix_len(p) == 2 + n + 1 + m);
    assert(p.skip(2 + n + 1 + m) =~= behind);
    assert(paths::slashed(behind) =~= with_slashes(behind));
}

/// On Windows the names of a path behind a device are those of what stands behind
/// the device.
pub proof fn law_names_behind_a_device(
    path: &str,
    device: Seq<char>,
    behind: Seq<char>,
    rest: &str,
    r: Option<String>,
    s: Option<String>,
)
    requires
        call_ensures(paths::file_name, (path, Style::Windows), r),
        call_ensures(paths::file_name, (rest, Style::Unix), s),
        path@ == seq!['\\', '\\', '.', '\\'] + device + behind,
        forall|i: int| 0 <= i < device.len() ==> !is_sep(#[trigger] device[i]),
        behind.len() > 0 ==> is_sep(behind[0]),
        rest@ == with_slashes(behind),
    ensures
        r is Some <==> s is Some,
        r is Some ==> r.unwrap()@ == s.unwrap()@,
{
    lemma_literals();
    let p = path@;
    let n = device.len() as int;
    if paths::is_verbatim(p) {
        let v = r"\\?\"@;
        assert(p.subrange(0, 4)[2] == v[2]);
    }
    assert(paths::begins(p, r"\\.\"@)) by {
        let d = r"\\.\"@;
        assert(p[0] == d[0] && p[1] == d[1] && p[2] == d[2] && p[3] == d[3]);
        assert forall|i: int| 0 <= i < d.len() implies #[trigger] d[i] == if p[i] == '/' {
            '\\'
        } else {
            p[i]
        } by {
            assert(i == 0 || i == 1 || i == 2 || i == 3);
        }
    }
    let q = p.skip(4);
    assert(q =~= device + behind);
    assert forall|i: int| 0 <= i < n implies !is_sep(#[trigger] q[i]) by {
        assert(q[i] == device[i]);
    }
    if n < q.len() {
        assert(q[n] == behind[0]);
    }
    lemma_run(q, n);
    assert(p.skip(4 + n) =~= behind);
    assert(paths::slashed(behind) =~= with_slashes(behind));
}

proof fn lemma_parts_at(dir: Seq<char>, name: Seq<char>, c: char)
    requires
        dir.len() > 0,
        dir.last() == c,
        !name.contains(c),
    ensures
        text::split_spec(dir + name, c).last() == name,
{
    let a = dir.drop_last();
    assert(dir + name =~= a + seq![c] + name);
    lemma_split_tail(a, name, c);
}

/// On Windows names behind a verbatim drive stand between backslashes alone: the
/// last of them is the name, with its slashes, and a dot is none.
pub proof fn law_names_behind_a_verbatim_drive(
    path: &str,
    letter: char,
    dir: Seq<char>,
    name: Seq<char>,
    r: Option<String>,
)
    requires
        call_ensures(paths::file_name, (path, Style::Windows), r),
        path@ == seq!['\\', '\\', '?', '\\', letter, ':'] + dir + name,
        'a' <= letter <= 'z' || 'A' <= letter <= 'Z',
        dir.len() > 0,
        dir[0] == '\\',
        dir.last() == '\\',
        !name.contains('\\'),
        name.len() > 0,
    ensures
        name != "."@ && name != ".."@ ==> r is Some && r.unwrap()@ == name,
        name == "."@ || name == ".."@ ==> r is None,
{
    lemma_literals();
    reveal_strlit(r"UNC\");
    let p = path@;
    let v = r"\\?\"@;
    assert(p.subrange(0, 4) =~= v);
    assert(paths::is_verbatim(p));
    let q = p.skip(4);
    assert(q[0] == letter && q[1] == ':' && q[2] == '\\');
    if paths::begins(q, r"UNC\"@) {
        let u = r"UNC\"@;
        assert(u[1] == 'N');
        assert(u[1] == if q[1] == '/' {
            '\\'
        } else {
            q[1]
        });
    }
    assert(paths::prefix_len(p) == 6);
    assert(p.skip(6) =~= dir + name);
    lemma_parts_at(dir, name, '\\');
}

proof fn lemma_last_dot(name: Seq<char>, n: int)
    requires
        0 <= n <= name.len(),
        n > 0 ==> name[n - 1] == '.',
        forall|j: int| n <= j < name.len() ==> name[j] != '.',
    ensures
        text::last_position(name, '.') == n,
    decreases name.len(),
{
    if n < name.len() {
        assert(name.last() != '.');
        lemma_last_dot(name.drop_last(), n);
    }
}

/// The extension of a file is what stands behind the last dot of its name, whatever
/// stands before it; a name whose only dot is its first character, or that has none,
/// has no extension.
pub proof fn law_extensions(
    path: &str,
    style: Style,
    name: Option<String>,
    stem: Seq<char>,
    ext: Seq<char>,
    r: Option<String>,
)
    requires
        call_ensures(paths::extension, (path, style), r),
        call_ensures(paths::file_name, (path, style), name),
        !ext.contains('.'),
    ensures
        name is None ==> r is None,
        name is Some && name.unwrap()@ == stem + seq!['.'] + ext && stem.len() > 0 ==> r is Some
            && r.unwrap()@ == ext,
        name is Some && name.unwrap()@ == seq!['.'] + ext ==> r is None,
        name is Some && name.unwrap()@ == ext ==> r is None,
{
    if name is Some {
        let s = name.unwrap()@;
        let k = stem.len() as int;
        if s == stem + seq!['.'] + ext && stem.len() > 0 {
            assert forall|j: int| k + 1 <= j < s.len() implies s[j] != '.' by {
                assert(s[j] == ext[j - k - 1]);
            }
            lemma_last_dot(s, k + 1);
            assert(s.skip(k + 1) =~= ext);
        }
        if s == seq!['.'] + ext {
            assert forall|j: int| 1 <= j < s.len() implies s[j] != '.' by {
                assert(s[j] == ext[j - 1]);
            }
            lemma_last_dot(s, 1);
        }
        if s == ext {
            assert forall|j: int| 0 <= j < s.len() implies s[j] != '.' by {
                assert(s[j] == ext[j]);
            }
            lemma_last_dot(s, 0);
        }
    }
}

/// A file has an extension exactly where its extension is that.
pub proof fn law_files_with_an_extension(
    path: &str,
    ext: &str,
    style: Style,
    e: Option<String>,
    r: bool,
)
    requires
        call_ensures(paths::has_extension, (path, ext, style), r),
        call_ensures(paths::extension, (path, style), e),
    ensures
        r <==> e is Some && e.unwrap()@ == ext@,
{
}

/// Bytes and the characters of the same numbers stand for each other, one for one.
pub proof fn law_bytes_as_characters(bytes: &[u8], s: &str, r: String, b: Vec<u8>)
    requires
        call_ensures(paths::chars_of, (bytes,), r),
        call_ensures(paths::bytes_of, (s,), b),
        s@ == r@,
    ensures
        r@.len() == bytes@.len(),
        forall|i: int| 0 <= i < bytes@.len() ==> (#[trigger] r@[i]) as u32 == bytes@[i],
        b@ == bytes@,
{
    assert forall|i: int| 0 <= i < bytes@.len() implies (#[trigger] r@[i]) as u32 == bytes@[i] by {
        assert(r@[i] == bytes@[i] as char);
    }
    assert(paths::as_chars(b@).len() == b@.len());
    assert(paths::as_chars(bytes@).len() == bytes@.len());
    assert forall|i: int| 0 <= i < b@.len() implies b@[i] == bytes@[i] by {
        assert(paths::as_chars(b@)[i] == b@[i] as char);
        assert(s@[i] == bytes@[i] as char);
        assert((b@[i] as char) as u32 == (bytes@[i] as char) as u32);
    }
    assert(b@ =~= bytes@);
}

} // verus!
