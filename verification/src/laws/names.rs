//! Laws of the names of models.

use vstd::prelude::*;

use crate::shortnames;
use crate::shortnames::{Aliases, Conf, ConfigPath};
use crate::shortnames_laws;
use crate::storage;
use crate::storage::Descriptor;
use crate::text;

verus! {

/// Whether a text is the name of the local host, in whatever case.
pub open spec fn is_local(s: Seq<char>) -> bool {
    &&& s.len() == "localhost"@.len()
    &&& forall|i: int|
        0 <= i < s.len() ==> (#[trigger] s[i] == "localhost"@[i] || s[i] as u32 + 32
            == "localhost"@[i] as u32)
}

proof fn lemma_local(s: Seq<char>)
    ensures
        text::eq_ignore_case_spec(s, "localhost"@) == is_local(s),
{
    let host = "localhost"@;
    reveal_strlit("localhost");
    assert forall|i: int| 0 <= i < host.len() implies 'a' <= #[trigger] host[i] <= 'z' by {}
    assert forall|i: int| 0 <= i < host.len() && s.len() == host.len() implies (text::ascii_lower(
        #[trigger] s[i],
    ) == text::ascii_lower(host[i])) == (s[i] == host[i] || s[i] as u32 + 32 == host[i] as u32) by {
        let c = s[i];
        assert('a' <= host[i] <= 'z');
        if 'A' <= c <= 'Z' {
            assert(((c as u32 + 32) as char) as u32 == c as u32 + 32);
        }
    }
    if text::eq_ignore_case_spec(s, host) {
        assert forall|i: int| 0 <= i < s.len() implies (#[trigger] s[i] == host[i] || s[i] as u32
            + 32 == host[i] as u32) by {
            assert(text::ascii_lower(s[i]) == text::ascii_lower(host[i]));
        }
    }
    if is_local(s) {
        assert forall|i: int| 0 <= i < s.len() implies text::ascii_lower(#[trigger] s[i])
            == text::ascii_lower(host[i]) by {
            assert(s[i] == host[i] || s[i] as u32 + 32 == host[i] as u32);
        }
    }
}

/// Whether a reference has a host is decided by what stands before its first slash
/// alone: a dot in it, or the name of the local host.
pub proof fn law_hosts_stand_in_front(
    reference: &str,
    first: Seq<char>,
    rest: Seq<char>,
    r: bool,
)
    requires
        call_ensures(shortnames::has_host, (reference,), r),
        reference@ == first + rest,
        !first.contains('/'),
        rest.len() == 0 || rest[0] == '/',
    ensures
        r <==> first.contains('.') || is_local(first),
{
    assert forall|j: int| 0 <= j < first.len() implies reference@[j] != '/' by {
        assert(first[j] == reference@[j]);
    }
    text::lemma_position(reference@, '/', first.len() as int);
    assert(reference@.take(first.len() as int) =~= first);
    lemma_local(first);
}

/// Whether a reference begins with one of these texts.
pub open spec fn has_scheme(r: Seq<char>) -> bool {
    ||| "ngc://"@.is_prefix_of(r)
    ||| "s3://"@.is_prefix_of(r)
    ||| "gs://"@.is_prefix_of(r)
    ||| "hf://"@.is_prefix_of(r)
    ||| "huggingface://"@.is_prefix_of(r)
    ||| "modelscope://"@.is_prefix_of(r)
    ||| "ms://"@.is_prefix_of(r)
}

proof fn lemma_literals()
    ensures
        "ngc://"@ =~= seq!['n', 'g', 'c', ':', '/', '/'],
        "s3://"@ =~= seq!['s', '3', ':', '/', '/'],
        "gs://"@ =~= seq!['g', 's', ':', '/', '/'],
        "hf://"@ =~= seq!['h', 'f', ':', '/', '/'],
        "ms://"@ =~= seq!['m', 's', ':', '/', '/'],
        "huggingface://"@.len() == 14 && "huggingface://"@[0] == 'h' && "huggingface://"@[1] == 'u',
        "modelscope://"@.len() == 13 && "modelscope://"@[0] == 'm' && "modelscope://"@[1] == 'o',
{
    reveal_strlit("ngc://");
    reveal_strlit("s3://");
    reveal_strlit("gs://");
    reveal_strlit("hf://");
    reveal_strlit("ms://");
    reveal_strlit("huggingface://");
    reveal_strlit("modelscope://");
}

proof fn lemma_prefixed(scheme: Seq<char>, name: Seq<char>)
    ensures
        scheme.is_prefix_of(scheme + name),
        (scheme + name).skip(scheme.len() as int) == name,
{
    assert(scheme =~= (scheme + name).take(scheme.len() as int));
    assert((scheme + name).skip(scheme.len() as int) =~= name);
}

/// Paths, and references to sources with schemes of their own, stand for
/// themselves, whatever aliases there are.
pub proof fn law_other_sources_stand_for_themselves(
    reference: &str,
    aliases: &Aliases,
    rest: Seq<char>,
    r: String,
)
    requires
        call_ensures(shortnames::resolve, (reference, aliases), r),
        reference@ == "ngc://"@ + rest || reference@ == "s3://"@ + rest || reference@ == "gs://"@
            + rest || reference@ == "ms://"@ + rest || reference@ == seq!['/'] + rest,
    ensures
        r@ == reference@,
{
    lemma_literals();
    lemma_prefixed("ngc://"@, rest);
    lemma_prefixed("s3://"@, rest);
    lemma_prefixed("gs://"@, rest);
    lemma_prefixed("ms://"@, rest);
    if reference@ == "ms://"@ + rest {
        assert(reference@[0] == 'm' && reference@[1] == 's');
    }
    if reference@ == seq!['/'] + rest {
        assert(reference@[0] == '/');
    }
}

/// The long name of a source is its short one.
pub proof fn law_model_scope_has_two_names(
    reference: &str,
    aliases: &Aliases,
    rest: Seq<char>,
    r: String,
)
    requires
        call_ensures(shortnames::resolve, (reference, aliases), r),
        reference@ == "modelscope://"@ + rest,
    ensures
        r@ == "ms://"@ + rest,
{
    lemma_literals();
    lemma_prefixed("modelscope://"@, rest);
    assert(reference@[0] == 'm' && reference@[1] == 'o');
}

/// A name, behind one of the schemes of Hugging Face or behind none, stands for
/// what its alias says; without an alias it stands for itself where it has a host,
/// and for a model at Hugging Face where it has none.
pub proof fn law_what_a_name_stands_for(
    reference: &str,
    name: &str,
    aliases: &Aliases,
    host: bool,
    r: String,
)
    requires
        call_ensures(shortnames::resolve, (reference, aliases), r),
        call_ensures(shortnames::has_host, (name,), host),
        reference@ == "hf://"@ + name@ || reference@ == "huggingface://"@ + name@ || (reference@
            == name@ && !has_scheme(name@) && !(name@.len() > 0 && name@[0] == '/')),
    ensures
        aliases@.contains_key(name@) ==> r@ == aliases@[name@],
        !aliases@.contains_key(name@) && host ==> r@ == name@,
        !aliases@.contains_key(name@) && !host ==> r@ == "hf.co/"@ + name@,
{
    lemma_literals();
    lemma_prefixed("hf://"@, name@);
    lemma_prefixed("huggingface://"@, name@);
    if reference@ == "hf://"@ + name@ {
        assert(reference@[0] == 'h' && reference@[1] == 'f');
    } else if reference@ == "huggingface://"@ + name@ {
        assert(reference@[0] == 'h' && reference@[1] == 'u');
    }
}

/// In the Ollama API a name with neither slash nor dot stands for what its alias
/// says, and for one of Docker's models without one; all else is as elsewhere.
pub proof fn law_what_a_name_stands_for_in_the_ollama_api(
    reference: &str,
    aliases: &Aliases,
    elsewhere: String,
    bare: bool,
    r: String,
)
    requires
        call_ensures(shortnames::resolve_ollama_api, (reference, aliases), r),
        call_ensures(shortnames::resolve, (reference, aliases), elsewhere),
        call_ensures(shortnames::is_bare, (reference,), bare),
    ensures
        bare <==> !reference@.contains('/') && !reference@.contains('.'),
        bare && aliases@.contains_key(reference@) ==> r@ == aliases@[reference@],
        bare && !aliases@.contains_key(reference@) ==> r@ == "docker.io/ai/"@ + reference@,
        !bare ==> r@ == elsewhere@,
{
}

/// Without files there are no aliases; a file that could not be read changes
/// nothing.
pub proof fn law_unread_files_do_not_count(
    files: &Vec<Option<Conf>>,
    more: &Vec<Option<Conf>>,
    r: Aliases,
    s: Aliases,
)
    requires
        call_ensures(shortnames::load_aliases, (files,), r),
        call_ensures(shortnames::load_aliases, (more,), s),
        more@ == files@.push(None),
    ensures
        files@.len() == 0 ==> r@.dom() == Set::<Seq<char>>::empty(),
        s@ == r@,
{
    assert(more@.drop_last() =~= files@);
    if files@.len() == 0 {
        assert(r@.dom() =~= Set::<Seq<char>>::empty());
    }
}

/// A further file wins over those before it, its last word on a name over its
/// earlier ones; a name of which it says nothing stays as it was.
pub proof fn law_a_further_file_wins(
    files: &Vec<Option<Conf>>,
    more: &Vec<Option<Conf>>,
    conf: Conf,
    name: Seq<char>,
    r: Aliases,
    s: Aliases,
)
    requires
        call_ensures(shortnames::load_aliases, (files,), r),
        call_ensures(shortnames::load_aliases, (more,), s),
        more@ == files@.push(Some(conf)),
    ensures
        (forall|i: int|
            0 <= i < conf.aliases@.len() ==> (#[trigger] conf.aliases@[i]).name@ != name) ==> (
        s@.contains_key(name) == r@.contains_key(name) && (r@.contains_key(name) ==> s@[name]
            == r@[name])),
        forall|i: int|
            0 <= i < conf.aliases@.len() && (#[trigger] conf.aliases@[i]).name@ == name && (forall|
                j: int,
            |
                i < j < conf.aliases@.len() ==> (#[trigger] conf.aliases@[j]).name@ != name)
                ==> s@.contains_key(name) && s@[name] == conf.aliases@[i].target@,
{
    shortnames_laws::law_later_files_win(files@, conf, name);
}

/// Configuration files are looked for in this order: those of the system, those
/// beside the program, that of the user, and last the one that a variable names.
pub proof fn law_where_aliases_are_looked_for(
    program_dir: bool,
    config_dir: bool,
    variable: Option<&str>,
    r: Vec<ConfigPath>,
)
    requires
        call_ensures(shortnames::config_paths, (program_dir, config_dir, variable), r),
    ensures
        ({
            let a: int = if program_dir {
                4
            } else {
                2
            };
            let b: int = if config_dir {
                a + 1
            } else {
                a
            };
            let named = variable is Some && variable.unwrap()@.len() > 0;
            &&& r@.len() == if named {
                b + 1
            } else {
                b
            }
            &&& r@[0].base is Root && r@[0].rest@ == "/usr/share/llmman/shortnames.conf"@
            &&& r@[1].base is Root && r@[1].rest@ == "/etc/llmman/shortnames.conf"@
            &&& program_dir ==> r@[2].base is ProgramDir && r@[2].rest@
                == "../share/llmman/shortnames.conf"@
            &&& program_dir ==> r@[3].base is ProgramDir && r@[3].rest@ == "shortnames.conf"@
            &&& config_dir ==> r@[a].base is ConfigDir && r@[a].rest@ == "llmman/shortnames.conf"@
            &&& named ==> r@[b].base is Environment && r@[b].rest@ == variable.unwrap()@
        }),
{
    let view = shortnames::paths_view(r@);
    assert(view.len() == r@.len());
    assert forall|i: int| 0 <= i < r@.len() implies #[trigger] view[i] == (
        r@[i].base,
        r@[i].rest@,
    ) by {}
    assert(view[0] == (r@[0].base, r@[0].rest@) && view[1] == (r@[1].base, r@[1].rest@));
    let a: int = if program_dir {
        4
    } else {
        2
    };
    let b: int = if config_dir {
        a + 1
    } else {
        a
    };
    if program_dir {
        assert(view[2] == (r@[2].base, r@[2].rest@) && view[3] == (r@[3].base, r@[3].rest@));
    }
    if config_dir {
        assert(view[a] == (r@[a].base, r@[a].rest@));
    }
    if variable is Some && variable.unwrap()@.len() > 0 {
        assert(view[b] == (r@[b].base, r@[b].rest@));
    }
}

/// A reference gets the tag `latest` exactly where what stands behind its last
/// slash has no colon, and is otherwise as it was.
pub proof fn law_tags_stand_at_the_end(
    reference: &str,
    dir: Seq<char>,
    last: Seq<char>,
    r: String,
)
    requires
        call_ensures(storage::default_tag, (reference,), r),
        reference@ == dir + last,
        dir.len() == 0 || dir.last() == '/',
        !last.contains('/'),
    ensures
        last.contains(':') ==> r@ == reference@,
        !last.contains(':') ==> r@ == reference@ + ":latest"@,
{
    lemma_last(dir, last);
}

proof fn lemma_last(dir: Seq<char>, last: Seq<char>)
    requires
        dir.len() == 0 || dir.last() == '/',
        !last.contains('/'),
    ensures
        storage::last_segment(dir + last) == last,
    decreases last.len(),
{
    let all = dir + last;
    if last.len() == 0 {
        assert(all =~= dir);
        assert(storage::last_segment(all) =~= last);
    } else {
        let t = last.drop_last();
        assert(!t.contains('/')) by {
            assert forall|i: int| 0 <= i < t.len() implies t[i] != '/' by {
                assert(last[i] == t[i]);
            }
        }
        lemma_last(dir, t);
        assert(all.drop_last() =~= dir + t);
        assert(last[last.len() - 1] != '/');
        assert(t.push(last.last()) =~= last);
    }
}

/// A model goes by the name that the store has for it; where the store has none, or
/// not the model, by the reference to it.
pub proof fn law_the_store_names_its_models(
    found: &Option<Descriptor>,
    reference: &str,
    r: String,
)
    requires
        call_ensures(storage::canonical_ref, (found, reference), r),
    ensures
        ({
            let key = "org.opencontainers.image.ref.name"@;
            let named = found is Some && found.unwrap().annotations is Some
                && found.unwrap().annotations.unwrap()@.contains_key(key);
            &&& named ==> r@ == found.unwrap().annotations.unwrap()@[key]
            &&& !named ==> r@ == reference@
        }),
{
}

} // verus!
