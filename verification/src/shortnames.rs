//! Short names of models.
//!
//! Aliases come from configuration files; of two files that name the same alias
//! the one of higher priority wins. What is no alias is taken to be at Hugging
//! Face unless it names a host, and in the Ollama API a bare name is taken to be
//! one of Docker's own models.

use vstd::prelude::*;

use crate::keyed::TextMap;
use crate::text;

verus! {

// ---------------------------------------------------------------------------
// Aliases
// ---------------------------------------------------------------------------

/// What an alias stands for.
pub struct Alias {
    pub name: String,
    pub target: String,
}

/// The contents of one configuration file.
pub struct Conf {
    pub aliases: Vec<Alias>,
}

/// The aliases of all configuration files.
pub type Aliases = TextMap;

/// Aliases with those of one more file, of which the later win.
pub open spec fn with_file(table: Map<Seq<char>, Seq<char>>, file: Seq<Alias>) -> Map<
    Seq<char>,
    Seq<char>,
>
    decreases file.len(),
{
    if file.len() == 0 {
        table
    } else {
        with_file(table, file.drop_last()).insert(file.last().name@, file.last().target@)
    }
}

/// The aliases of files in ascending priority; a file that could not be read is
/// passed over.
pub open spec fn merged(files: Seq<Option<Conf>>) -> Map<Seq<char>, Seq<char>>
    decreases files.len(),
{
    if files.len() == 0 {
        Map::empty()
    } else {
        let before = merged(files.drop_last());
        match files.last() {
            Some(conf) => with_file(before, conf.aliases@),
            None => before,
        }
    }
}

fn add_file(table: Aliases, file: &Vec<Alias>) -> (r: Aliases)
    ensures
        r@ == with_file(table@, file@),
{
    let ghost start = table@;
    let mut table = table;
    let mut i: usize = 0;
    while i < file.len()
        invariant
            i <= file@.len(),
            table@ == with_file(start, file@.take(i as int)),
        decreases file.len() - i,
    {
        table = table.with(file[i].name.clone(), file[i].target.clone());
        i += 1;
        proof {
            assert(file@.take(i as int).drop_last() =~= file@.take(i - 1));
            assert(file@.take(i as int).last() == file@[i - 1]);
        }
    }
    assert(file@.take(i as int) =~= file@);
    table
}

/// The aliases of files in ascending priority; a file that could not be read is
/// passed over.
pub fn load_aliases(files: &Vec<Option<Conf>>) -> (r: Aliases)
    ensures
        r@ == merged(files@),
{
    let mut table = TextMap::new();
    let mut i: usize = 0;
    while i < files.len()
        invariant
            i <= files@.len(),
            table@ == merged(files@.take(i as int)),
        decreases files.len() - i,
    {
        proof {
            assert(files@.take(i + 1).drop_last() =~= files@.take(i as int));
            assert(files@.take(i + 1).last() == files@[i as int]);
        }
        if let Some(conf) = &files[i] {
            table = add_file(table, &conf.aliases);
        }
        i += 1;
    }
    assert(files@.take(i as int) =~= files@);
    table
}

/// Where a configuration file is looked for.
#[derive(Clone, Copy, PartialEq, Eq, Structural)]
pub enum ConfigBase {
    /// The path is absolute.
    Root,
    /// The path starts at the directory of the program.
    ProgramDir,
    /// The path starts at the user's configuration directory.
    ConfigDir,
    /// The path is the value of an environment variable.
    Environment,
}

/// The path of a configuration file: its base, and the rest of it.
pub struct ConfigPath {
    pub base: ConfigBase,
    pub rest: String,
}

/// The environment variable that names one more file.
pub const SHORTNAMES_VARIABLE: &'static str = "LLMMAN_SHORTNAMES_CONF";

/// The bases and the rests of paths.
pub open spec fn paths_view(paths: Seq<ConfigPath>) -> Seq<(ConfigBase, Seq<char>)> {
    paths.map_values(|p: ConfigPath| (p.base, p.rest@))
}

/// Where configuration files are looked for, in ascending priority.
pub open spec fn search_order(
    program_dir: bool,
    config_dir: bool,
    variable: Option<Seq<char>>,
) -> Seq<(ConfigBase, Seq<char>)> {
    let system = seq![
        (ConfigBase::Root, "/usr/share/llmman/shortnames.conf"@),
        (ConfigBase::Root, "/etc/llmman/shortnames.conf"@),
    ];
    let program = if program_dir {
        seq![
            (ConfigBase::ProgramDir, "../share/llmman/shortnames.conf"@),
            (ConfigBase::ProgramDir, "shortnames.conf"@),
        ]
    } else {
        Seq::empty()
    };
    let user = if config_dir {
        seq![(ConfigBase::ConfigDir, "llmman/shortnames.conf"@)]
    } else {
        Seq::empty()
    };
    let own = match variable {
        Some(path) => if path.len() > 0 {
            seq![(ConfigBase::Environment, path)]
        } else {
            Seq::empty()
        },
        None => Seq::empty(),
    };
    system + program + user + own
}

fn add_path(paths: &mut Vec<ConfigPath>, base: ConfigBase, rest: &str)
    ensures
        paths_view(final(paths)@) == paths_view(old(paths)@).push((base, rest@)),
{
    paths.push(ConfigPath { base, rest: rest.to_owned() });
    assert(paths_view(paths@) =~= paths_view(old(paths)@).push((base, rest@)));
}

/// Where configuration files are looked for, in ascending priority: for the
/// system, beside the program, for the user, and where a variable says.
pub fn config_paths(program_dir: bool, config_dir: bool, variable: Option<&str>) -> (r: Vec<ConfigPath>)
    ensures
        paths_view(r@) == search_order(
            program_dir,
            config_dir,
            text::opt_text(variable),
        ),
{
    let mut paths: Vec<ConfigPath> = Vec::new();
    add_path(&mut paths, ConfigBase::Root, "/usr/share/llmman/shortnames.conf");
    add_path(&mut paths, ConfigBase::Root, "/etc/llmman/shortnames.conf");
    if program_dir {
        add_path(&mut paths, ConfigBase::ProgramDir, "../share/llmman/shortnames.conf");
        add_path(&mut paths, ConfigBase::ProgramDir, "shortnames.conf");
    }
    if config_dir {
        add_path(&mut paths, ConfigBase::ConfigDir, "llmman/shortnames.conf");
    }
    if let Some(path) = variable {
        if !path.is_empty() {
            add_path(&mut paths, ConfigBase::Environment, path);
        }
    }
    assert(paths_view(paths@) =~= search_order(
        program_dir,
        config_dir,
        text::opt_text(variable),
    ));
    paths
}

// ---------------------------------------------------------------------------
// References
// ---------------------------------------------------------------------------

/// The part of a reference before its first slash.
pub open spec fn first_segment(r: Seq<char>) -> Seq<char> {
    r.take(text::position(r, '/'))
}

/// Whether a reference names a registry's host.
pub open spec fn names_host(r: Seq<char>) -> bool {
    first_segment(r).contains('.') || text::eq_ignore_case_spec(first_segment(r), "localhost"@)
}

/// Whether a reference is a path, or names a source that is used as it is.
pub open spec fn is_verbatim(r: Seq<char>) -> bool {
    ||| "ngc://"@.is_prefix_of(r)
    ||| "s3://"@.is_prefix_of(r)
    ||| "gs://"@.is_prefix_of(r)
    ||| (r.len() > 0 && r[0] == '/')
}

/// A name of an alias, or of a model whose host may be left out.
pub open spec fn resolved_name(name: Seq<char>, aliases: Map<Seq<char>, Seq<char>>) -> Seq<char> {
    if aliases.contains_key(name) {
        aliases[name]
    } else if names_host(name) {
        name
    } else {
        "hf.co/"@ + name
    }
}

/// What a reference stands for.
pub open spec fn resolved(r: Seq<char>, aliases: Map<Seq<char>, Seq<char>>) -> Seq<char> {
    if is_verbatim(r) {
        r
    } else if "hf://"@.is_prefix_of(r) {
        resolved_name(r.skip("hf://"@.len() as int), aliases)
    } else if "huggingface://"@.is_prefix_of(r) {
        resolved_name(r.skip("huggingface://"@.len() as int), aliases)
    } else if "modelscope://"@.is_prefix_of(r) {
        "ms://"@ + r.skip("modelscope://"@.len() as int)
    } else if "ms://"@.is_prefix_of(r) {
        r
    } else {
        resolved_name(r, aliases)
    }
}

/// Whether a reference is a bare name: no path, and nothing with a dot.
pub open spec fn bare(r: Seq<char>) -> bool {
    !r.contains('/') && !r.contains('.')
}

/// What a reference stands for in the Ollama API.
pub open spec fn resolved_ollama(r: Seq<char>, aliases: Map<Seq<char>, Seq<char>>) -> Seq<char> {
    if !bare(r) {
        resolved(r, aliases)
    } else if aliases.contains_key(r) {
        aliases[r]
    } else {
        "docker.io/ai/"@ + r
    }
}

/// Whether a reference names a registry's host: its first part has a dot or is
/// `localhost`.
pub fn has_host(reference: &str) -> (r: bool)
    ensures
        r == names_host(reference@),
{
    let v = text::to_chars(reference);
    let n: usize = text::index_of(&v, 0, '/');
    assert(v@.skip(0) =~= reference@);
    let first = text::from_chars(&v, 0, n);
    assert(first@ =~= first_segment(reference@));
    text::contains_char(first.as_str(), '.') || text::eq_ignore_case(first.as_str(), "localhost")
}

fn resolve_name(name: &str, aliases: &Aliases) -> (r: String)
    ensures
        r@ == resolved_name(name@, aliases@),
{
    if let Some(target) = aliases.get(name) {
        return target.clone();
    }
    if has_host(name) {
        return name.to_owned();
    }
    let mut out = "hf.co/".to_owned();
    out.append(name);
    out
}

/// What a reference stands for: an alias, a reference with a host, or else a
/// model at Hugging Face. Paths and the schemes of other sources stay.
pub fn resolve(reference: &str, aliases: &Aliases) -> (r: String)
    ensures
        r@ == resolved(reference@, aliases@),
{
    if text::starts_with(reference, "ngc://") || text::starts_with(reference, "s3://")
        || text::starts_with(reference, "gs://") {
        return reference.to_owned();
    }
    if !reference.is_empty() && reference.get_char(0) == '/' {
        return reference.to_owned();
    }
    if let Some(name) = text::strip_prefix(reference, "hf://") {
        return resolve_name(name.as_str(), aliases);
    }
    if let Some(name) = text::strip_prefix(reference, "huggingface://") {
        return resolve_name(name.as_str(), aliases);
    }
    if let Some(name) = text::strip_prefix(reference, "modelscope://") {
        let mut out = "ms://".to_owned();
        out.append(name.as_str());
        return out;
    }
    if text::starts_with(reference, "ms://") {
        return reference.to_owned();
    }
    resolve_name(reference, aliases)
}

/// Whether a reference is a bare name.
pub fn is_bare(reference: &str) -> (r: bool)
    ensures
        r == bare(reference@),
{
    !text::contains_char(reference, '/') && !text::contains_char(reference, '.')
}

/// What a reference stands for in the Ollama API: a bare name that is no alias is
/// one of Docker's models, and all else is as in [`resolve`].
pub fn resolve_ollama_api(reference: &str, aliases: &Aliases) -> (r: String)
    ensures
        r@ == resolved_ollama(reference@, aliases@),
{
    if is_bare(reference) {
        if let Some(target) = aliases.get(reference) {
            return target.clone();
        }
        let mut out = "docker.io/ai/".to_owned();
        out.append(reference);
        return out;
    }
    resolve(reference, aliases)
}

} // verus!
