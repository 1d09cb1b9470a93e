//! What holds of the resolution of references over more than one call.

use vstd::prelude::*;

use crate::shortnames;
use crate::shortnames::{Alias, Conf};
use crate::storage;
use crate::text;

verus! {

/// The name that is looked up among the aliases for a reference, if any is.
pub open spec fn looked_up(r: Seq<char>) -> Option<Seq<char>> {
    if shortnames::is_verbatim(r) {
        None
    } else if "hf://"@.is_prefix_of(r) {
        Some(r.skip("hf://"@.len() as int))
    } else if "huggingface://"@.is_prefix_of(r) {
        Some(r.skip("huggingface://"@.len() as int))
    } else if "modelscope://"@.is_prefix_of(r) || "ms://"@.is_prefix_of(r) {
        None
    } else {
        Some(r)
    }
}

/// Whether a reference goes through no alias.
pub open spec fn unaliased(r: Seq<char>, aliases: Map<Seq<char>, Seq<char>>) -> bool {
    looked_up(r) matches Some(name) ==> !aliases.contains_key(name)
}

proof fn reveal_schemes()
    ensures
        "ngc://"@ =~= seq!['n', 'g', 'c', ':', '/', '/'],
        "s3://"@ =~= seq!['s', '3', ':', '/', '/'],
        "gs://"@ =~= seq!['g', 's', ':', '/', '/'],
        "hf://"@ =~= seq!['h', 'f', ':', '/', '/'],
        "huggingface://"@ =~= seq![
            'h', 'u', 'g', 'g', 'i', 'n', 'g', 'f', 'a', 'c', 'e', ':', '/', '/',
        ],
        "modelscope://"@ =~= seq!['m', 'o', 'd', 'e', 'l', 's', 'c', 'o', 'p', 'e', ':', '/', '/'],
        "ms://"@ =~= seq!['m', 's', ':', '/', '/'],
        "hf.co/"@ =~= seq!['h', 'f', '.', 'c', 'o', '/'],
        "docker.io/ai/"@ =~= seq!['d', 'o', 'c', 'k', 'e', 'r', '.', 'i', 'o', '/', 'a', 'i', '/'],
        "localhost"@.len() == 9,
{
    reveal_strlit("ngc://");
    reveal_strlit("s3://");
    reveal_strlit("gs://");
    reveal_strlit("hf://");
    reveal_strlit("huggingface://");
    reveal_strlit("modelscope://");
    reveal_strlit("ms://");
    reveal_strlit("hf.co/");
    reveal_strlit("docker.io/ai/");
    reveal_strlit("localhost");
}

proof fn lemma_prefix_chars(p: Seq<char>, r: Seq<char>)
    requires
        p.is_prefix_of(r),
    ensures
        p.len() <= r.len(),
        forall|i: int| 0 <= i < p.len() ==> #[trigger] r[i] == p[i],
{
    assert forall|i: int| 0 <= i < p.len() implies #[trigger] r[i] == p[i] by {
        assert(r.subrange(0, p.len() as int)[i] == r[i]);
    }
}

proof fn lemma_first_segment(r: Seq<char>, n: int)
    requires
        0 <= n < r.len(),
        r[n] == '/',
        forall|i: int| 0 <= i < n ==> r[i] != '/',
    ensures
        shortnames::first_segment(r) == r.take(n),
{
    text::lemma_position(r, '/', n);
}

/// A reference whose first characters are a scheme names no host.
proof fn lemma_scheme_names_no_host(p: Seq<char>, r: Seq<char>)
    requires
        p.is_prefix_of(r),
        p == "hf://"@ || p == "huggingface://"@ || p == "modelscope://"@,
    ensures
        !shortnames::names_host(r),
{
    reveal_schemes();
    lemma_prefix_chars(p, r);
    let n = p.len() - 2;
    assert forall|i: int| 0 <= i < n implies r[i] != '/' by {
        assert(r[i] == p[i]);
    }
    assert(r[n] == p[n]);
    lemma_first_segment(r, n);
    let seg = shortnames::first_segment(r);
    assert forall|i: int| 0 <= i < seg.len() implies seg[i] != '.' by {
        assert(seg[i] == p[i]);
    }
    assert(!seg.contains('.'));
}

/// What names a host, and is neither an alias nor changed by a scheme, stands for
/// itself.
proof fn lemma_host_stands(r: Seq<char>, aliases: Map<Seq<char>, Seq<char>>)
    requires
        shortnames::names_host(r),
        !aliases.contains_key(r),
    ensures
        shortnames::resolved(r, aliases) == r,
{
    if "hf://"@.is_prefix_of(r) {
        lemma_scheme_names_no_host("hf://"@, r);
    }
    if "huggingface://"@.is_prefix_of(r) {
        lemma_scheme_names_no_host("huggingface://"@, r);
    }
    if "modelscope://"@.is_prefix_of(r) {
        lemma_scheme_names_no_host("modelscope://"@, r);
    }
}

proof fn lemma_default_host(name: Seq<char>)
    ensures
        shortnames::names_host("hf.co/"@ + name),
        shortnames::names_host("docker.io/ai/"@ + name),
{
    reveal_schemes();
    let a = "hf.co/"@ + name;
    assert forall|i: int| 0 <= i < 5 implies a[i] != '/' by {
        assert(a[i] == "hf.co/"@[i]);
    }
    lemma_first_segment(a, 5);
    assert(shortnames::first_segment(a)[2] == '.');
    let b = "docker.io/ai/"@ + name;
    assert forall|i: int| 0 <= i < 9 implies b[i] != '/' by {
        assert(b[i] == "docker.io/ai/"@[i]);
    }
    lemma_first_segment(b, 9);
    assert(shortnames::first_segment(b)[6] == '.');
}

/// What a reference stands for stands for itself, where no alias comes in.
pub proof fn law_resolve_idempotent(r: Seq<char>, aliases: Map<Seq<char>, Seq<char>>)
    requires
        unaliased(r, aliases),
        unaliased(shortnames::resolved(r, aliases), aliases),
    ensures
        shortnames::resolved(shortnames::resolved(r, aliases), aliases) == shortnames::resolved(
            r,
            aliases,
        ),
{
    let y = shortnames::resolved(r, aliases);
    reveal_schemes();
    if shortnames::is_verbatim(r) {
    } else if "modelscope://"@.is_prefix_of(r) && !("hf://"@.is_prefix_of(r))
        && !("huggingface://"@.is_prefix_of(r)) {
        lemma_ms(r.skip("modelscope://"@.len() as int), aliases);
    } else if looked_up(r) is Some {
        let name = looked_up(r).unwrap();
        if shortnames::names_host(name) {
            lemma_host_name(name, aliases);
        } else {
            lemma_default_host(name);
            lemma_default_is_looked_up(name);
            lemma_host_stands(y, aliases);
        }
    }
}

proof fn lemma_host_name(name: Seq<char>, aliases: Map<Seq<char>, Seq<char>>)
    requires
        shortnames::names_host(name),
        unaliased(name, aliases),
    ensures
        shortnames::resolved(name, aliases) == name,
{
    if "hf://"@.is_prefix_of(name) {
        lemma_scheme_names_no_host("hf://"@, name);
    }
    if "huggingface://"@.is_prefix_of(name) {
        lemma_scheme_names_no_host("huggingface://"@, name);
    }
    if "modelscope://"@.is_prefix_of(name) {
        lemma_scheme_names_no_host("modelscope://"@, name);
    }
}

proof fn lemma_default_is_looked_up(name: Seq<char>)
    ensures
        looked_up("hf.co/"@ + name) == Some("hf.co/"@ + name),
        looked_up("docker.io/ai/"@ + name) == Some("docker.io/ai/"@ + name),
{
    lemma_not_scheme("hf.co/"@ + name);
    lemma_not_scheme("docker.io/ai/"@ + name);
}

proof fn lemma_not_scheme(y: Seq<char>)
    requires
        "hf.co/"@.is_prefix_of(y) || "docker.io/ai/"@.is_prefix_of(y) || exists|n: Seq<char>|
            y == "hf.co/"@ + n || y == "docker.io/ai/"@ + n,
    ensures
        looked_up(y) == Some(y),
{
    reveal_schemes();
    assert(y.len() >= 6 && ((y[0] == 'h' && y[1] == 'f' && y[2] == '.') || (y[0] == 'd' && y[1]
        == 'o' && y[2] == 'c'))) by {
        if "hf.co/"@.is_prefix_of(y) {
            lemma_prefix_chars("hf.co/"@, y);
        } else if "docker.io/ai/"@.is_prefix_of(y) {
            lemma_prefix_chars("docker.io/ai/"@, y);
        }
    }
    lemma_no_prefix("ngc://"@, y, 0);
    lemma_no_prefix("s3://"@, y, 0);
    lemma_no_prefix("gs://"@, y, 0);
    lemma_no_prefix("hf://"@, y, 2);
    lemma_no_prefix("huggingface://"@, y, 1);
    lemma_no_prefix("modelscope://"@, y, 0);
    lemma_no_prefix("ms://"@, y, 0);
}

proof fn lemma_no_prefix(p: Seq<char>, y: Seq<char>, i: int)
    requires
        0 <= i < p.len(),
        i < y.len() ==> p[i] != y[i],
    ensures
        !p.is_prefix_of(y),
{
    if p.is_prefix_of(y) {
        lemma_prefix_chars(p, y);
        assert(y[i] == p[i]);
    }
}

proof fn lemma_ms(x: Seq<char>, aliases: Map<Seq<char>, Seq<char>>)
    ensures
        shortnames::resolved("ms://"@ + x, aliases) == "ms://"@ + x,
{
    reveal_schemes();
    let y = "ms://"@ + x;
    assert(y[0] == 'm' && y[1] == 's');
    lemma_no_prefix("ngc://"@, y, 0);
    lemma_no_prefix("s3://"@, y, 0);
    lemma_no_prefix("gs://"@, y, 0);
    lemma_no_prefix("hf://"@, y, 0);
    lemma_no_prefix("huggingface://"@, y, 0);
    lemma_no_prefix("modelscope://"@, y, 1);
    assert(y.subrange(0, 5) =~= "ms://"@);
}

/// Outside of bare names the Ollama API resolves as everything else does.
pub proof fn law_ollama_resolves_structured_references(
    r: Seq<char>,
    aliases: Map<Seq<char>, Seq<char>>,
)
    requires
        r.contains('/') || r.contains('.'),
    ensures
        shortnames::resolved_ollama(r, aliases) == shortnames::resolved(r, aliases),
{
}

/// A bare name that is no alias is one of Docker's models in the Ollama API, and
/// resolving it once more changes nothing.
pub proof fn law_bare_names_are_dockers(r: Seq<char>, aliases: Map<Seq<char>, Seq<char>>)
    requires
        shortnames::bare(r),
        !aliases.contains_key(r),
        !aliases.contains_key("docker.io/ai/"@ + r),
    ensures
        shortnames::resolved_ollama(r, aliases) == "docker.io/ai/"@ + r,
        shortnames::resolved_ollama("docker.io/ai/"@ + r, aliases) == "docker.io/ai/"@ + r,
        shortnames::resolved("docker.io/ai/"@ + r, aliases) == "docker.io/ai/"@ + r,
{
    reveal_schemes();
    let y = "docker.io/ai/"@ + r;
    assert(y[9] == '/');
    assert(y.contains('/'));
    lemma_default_host(r);
    lemma_host_stands(y, aliases);
}

/// A client may resolve a name before the server does so again: what a name stands
/// for in the Ollama API stands for itself there, where no alias comes in. Only a
/// local host that stood alone behind a scheme is left as a bare name, and would be
/// taken for one.
pub proof fn law_ollama_resolve_idempotent(r: Seq<char>, aliases: Map<Seq<char>, Seq<char>>)
    requires
        shortnames::bare(r) ==> !aliases.contains_key(r) && !aliases.contains_key(
            shortnames::resolved_ollama(r, aliases),
        ),
        !shortnames::bare(r) ==> unaliased(r, aliases) && unaliased(
            shortnames::resolved_ollama(r, aliases),
            aliases,
        ),
        !shortnames::bare(shortnames::resolved_ollama(r, aliases)),
    ensures
        shortnames::resolved_ollama(shortnames::resolved_ollama(r, aliases), aliases)
            == shortnames::resolved_ollama(r, aliases),
{
    if shortnames::bare(r) {
        law_bare_names_are_dockers(r, aliases);
    } else {
        law_resolve_idempotent(r, aliases);
    }
}

/// An absolute path stands for itself.
pub proof fn law_paths_stay(r: Seq<char>, aliases: Map<Seq<char>, Seq<char>>)
    requires
        r.len() > 0,
        r[0] == '/',
    ensures
        shortnames::resolved(r, aliases) == r,
        shortnames::resolved_ollama(r, aliases) == r,
{
    assert(r.contains('/'));
}

/// A file of higher priority wins: what it names is as it says, and what it does
/// not name is as the files before it say.
pub proof fn law_later_files_win(files: Seq<Option<Conf>>, conf: Conf, name: Seq<char>)
    ensures
        ({
            let all = shortnames::merged(files.push(Some(conf)));
            let before = shortnames::merged(files);
            let file = conf.aliases@;
            &&& (forall|i: int| 0 <= i < file.len() ==> (#[trigger] file[i]).name@ != name) ==> (
            all.contains_key(name) == before.contains_key(name) && (before.contains_key(name)
                ==> all[name] == before[name]))
            &&& forall|i: int|
                0 <= i < file.len() && (#[trigger] file[i]).name@ == name && (forall|j: int|
                    i < j < file.len() ==> (#[trigger] file[j]).name@ != name)
                    ==> all.contains_key(name) && all[name] == file[i].target@
        }),
{
    assert(files.push(Some(conf)).drop_last() =~= files);
    lemma_with_file(shortnames::merged(files), conf.aliases@, name);
}

proof fn lemma_with_file(table: Map<Seq<char>, Seq<char>>, file: Seq<Alias>, name: Seq<char>)
    ensures
        ({
            let all = shortnames::with_file(table, file);
            &&& (forall|i: int| 0 <= i < file.len() ==> (#[trigger] file[i]).name@ != name) ==> (
            all.contains_key(name) == table.contains_key(name) && (table.contains_key(name)
                ==> all[name] == table[name]))
            &&& forall|i: int|
                0 <= i < file.len() && (#[trigger] file[i]).name@ == name && (forall|j: int|
                    i < j < file.len() ==> (#[trigger] file[j]).name@ != name)
                    ==> all.contains_key(name) && all[name] == file[i].target@
        }),
    decreases file.len(),
{
    if file.len() > 0 {
        let rest = file.drop_last();
        let last = file.len() - 1;
        lemma_with_file(table, rest, name);
        if forall|i: int| 0 <= i < file.len() ==> (#[trigger] file[i]).name@ != name {
            assert forall|i: int| 0 <= i < rest.len() implies (#[trigger] rest[i]).name@ != name by {
                assert(rest[i] == file[i]);
            }
            assert(file[last].name@ != name);
        }
        assert forall|i: int|
            0 <= i < file.len() && (#[trigger] file[i]).name@ == name && (forall|j: int|
                i < j < file.len() ==> (#[trigger] file[j]).name@ != name) implies shortnames::with_file(
            table,
            file,
        ).contains_key(name) && shortnames::with_file(table, file)[name] == file[i].target@ by {
            if i < last {
                assert(rest[i] == file[i]);
                assert forall|j: int| i < j < rest.len() implies (#[trigger] rest[j]).name@
                    != name by {
                    assert(rest[j] == file[j]);
                }
                assert(file[last].name@ != name);
            }
        }
    }
}

// ---------------------------------------------------------------------------
// Tags
// ---------------------------------------------------------------------------

proof fn lemma_scheme_before_tag(p: Seq<char>, r: Seq<char>)
    requires
        p.len() >= 3,
        forall|i: int| 0 <= i < p.len() - 3 ==> p[i] != ':',
        p[p.len() - 3] == ':',
        p[p.len() - 2] == '/',
        p[p.len() - 1] == '/',
    ensures
        p.is_prefix_of(r + ":latest"@) == p.is_prefix_of(r),
{
    reveal_strlit(":latest");
    let t = r + ":latest"@;
    if p.is_prefix_of(r) {
        lemma_prefix_chars(p, r);
        assert(t.subrange(0, p.len() as int) =~= p);
    }
    if p.is_prefix_of(t) {
        lemma_prefix_chars(p, t);
        if r.len() < p.len() {
            let n = r.len() as int;
            assert(t[n] == ':');
            assert(t[n + 1] == 'l');
            assert(p[n] == t[n]);
            if n + 1 < p.len() {
                assert(p[n + 1] == t[n + 1]);
            }
        } else {
            assert(r.subrange(0, p.len() as int) =~= p);
        }
    }
}

proof fn lemma_schemes_before_tag(r: Seq<char>)
    ensures
        ({
            let t = r + ":latest"@;
            &&& shortnames::is_verbatim(t) == shortnames::is_verbatim(r)
            &&& "hf://"@.is_prefix_of(t) == "hf://"@.is_prefix_of(r)
            &&& "huggingface://"@.is_prefix_of(t) == "huggingface://"@.is_prefix_of(r)
            &&& "modelscope://"@.is_prefix_of(t) == "modelscope://"@.is_prefix_of(r)
            &&& "ms://"@.is_prefix_of(t) == "ms://"@.is_prefix_of(r)
            &&& shortnames::bare(t) == shortnames::bare(r)
        }),
{
    reveal_schemes();
    reveal_strlit(":latest");
    lemma_scheme_before_tag("ngc://"@, r);
    lemma_scheme_before_tag("s3://"@, r);
    lemma_scheme_before_tag("gs://"@, r);
    lemma_scheme_before_tag("hf://"@, r);
    lemma_scheme_before_tag("huggingface://"@, r);
    lemma_scheme_before_tag("modelscope://"@, r);
    lemma_scheme_before_tag("ms://"@, r);
    lemma_contains_before_tag(r, '/');
    lemma_contains_before_tag(r, '.');
    let t = r + ":latest"@;
    assert(r.len() > 0 ==> t[0] == r[0]);
    assert(r.len() == 0 ==> t[0] == ':');
}

proof fn lemma_contains_before_tag(r: Seq<char>, c: char)
    requires
        c == '/' || c == '.',
    ensures
        (r + ":latest"@).contains(c) == r.contains(c),
{
    reveal_strlit(":latest");
    let t = r + ":latest"@;
    if r.contains(c) {
        let i = choose|i: int| 0 <= i < r.len() && r[i] == c;
        assert(t[i] == c);
    }
    if t.contains(c) {
        let i = choose|i: int| 0 <= i < t.len() && t[i] == c;
        if i >= r.len() {
            assert(t[i] == ":latest"@[i - r.len()]);
        }
        assert(r[i] == c);
    }
}

proof fn lemma_host_before_tag(name: Seq<char>)
    requires
        !text::eq_ignore_case_spec(name, "localhost"@),
    ensures
        shortnames::names_host(name + ":latest"@) == shortnames::names_host(name),
{
    let t = name + ":latest"@;
    text::lemma_position_bound(name, '/');
    let n = text::position(name, '/');
    lemma_contains_before_tag(name, '/');
    lemma_contains_before_tag(name, '.');
    text::lemma_position_bound(t, '/');
    if n < name.len() {
        assert forall|i: int| 0 <= i < n implies t[i] != '/' by {
            assert(t[i] == name[i]);
        }
        text::lemma_position(t, '/', n);
        assert(t.take(n) =~= name.take(n));
    } else {
        assert(name.take(n) =~= name);
        assert(t.take(t.len() as int) =~= t);
        reveal_strlit(":latest");
        reveal_strlit("localhost");
        if text::eq_ignore_case_spec(t, "localhost"@) {
            assert(t.len() == 9);
            assert(t[2] == ':');
            assert(text::ascii_lower(t[2]) == text::ascii_lower("localhost"@[2]));
        }
    }
}

proof fn lemma_segment_behind_slash(p: Seq<char>, x: Seq<char>)
    requires
        p.len() > 0,
        p.last() == '/',
    ensures
        storage::last_segment(p + x) == storage::last_segment(x),
    decreases x.len(),
{
    if x.len() == 0 {
        assert(p + x =~= p);
    } else {
        lemma_segment_behind_slash(p, x.drop_last());
        assert((p + x).drop_last() =~= p + x.drop_last());
        assert((p + x).last() == x.last());
    }
}

/// A reference without a tag and the same reference with the tag `latest` come
/// down to one and the same, once they are resolved and have their tags. Aliases
/// may stand for different things, and a host may stand alone behind a scheme, so
/// neither may come in.
pub proof fn law_tagless_and_latest_are_one(r: Seq<char>, aliases: Map<Seq<char>, Seq<char>>)
    requires
        !storage::last_segment(r).contains(':'),
        !aliases.contains_key(r),
        !aliases.contains_key(r + ":latest"@),
        unaliased(r, aliases),
        unaliased(r + ":latest"@, aliases),
        looked_up(r) matches Some(name) ==> shortnames::bare(r) || !text::eq_ignore_case_spec(
            name,
            "localhost"@,
        ),
    ensures
        storage::tagged(shortnames::resolved_ollama(r, aliases)) == storage::tagged(
            shortnames::resolved_ollama(r + ":latest"@, aliases),
        ),
{
    let tag = ":latest"@;
    let y = shortnames::resolved_ollama(r, aliases);
    lemma_schemes_before_tag(r);
    reveal_schemes();
    if shortnames::bare(r) {
        assert("docker.io/ai/"@ + (r + tag) =~= y + tag);
        lemma_segment_behind_slash("docker.io/ai/"@, r);
    } else if looked_up(r) is Some {
        let name = looked_up(r).unwrap();
        let p = r.take(r.len() - name.len());
        assert(looked_up(r + tag) == Some(name + tag)) by {
            assert((r + tag).skip(p.len() as int) =~= name + tag);
        }
        lemma_host_before_tag(name);
        assert(storage::last_segment(name) == storage::last_segment(r)) by {
            if p.len() > 0 {
                assert(p + name =~= r);
                if "hf://"@.is_prefix_of(r) {
                    lemma_prefix_chars("hf://"@, r);
                    assert(r[4] == "hf://"@[4]);
                } else {
                    lemma_prefix_chars("huggingface://"@, r);
                    assert(r[13] == "huggingface://"@[13]);
                }
                lemma_segment_behind_slash(p, name);
            } else {
                assert(name =~= r);
            }
        }
        assert("hf.co/"@ + (name + tag) =~= ("hf.co/"@ + name) + tag);
        lemma_segment_behind_slash("hf.co/"@, name);
        assert(shortnames::resolved(r + tag, aliases) == shortnames::resolved_name(
            name + tag,
            aliases,
        ));
        assert(shortnames::resolved(r, aliases) == shortnames::resolved_name(name, aliases));
    } else if !shortnames::is_verbatim(r) && "modelscope://"@.is_prefix_of(r) {
        let x = r.skip("modelscope://"@.len() as int);
        lemma_prefix_chars("modelscope://"@, r);
        assert("modelscope://"@ + x =~= r);
        assert((r + tag).skip("modelscope://"@.len() as int) =~= x + tag);
        assert("ms://"@ + (x + tag) =~= ("ms://"@ + x) + tag);
        lemma_segment_behind_slash("modelscope://"@, x);
        lemma_segment_behind_slash("ms://"@, x);
    }
    assert(shortnames::resolved_ollama(r + tag, aliases) == y + tag);
    assert(storage::last_segment(y) == storage::last_segment(r));
    storage::law_default_tag_is_latest(y);
}

} // verus!
