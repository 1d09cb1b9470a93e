//! From a model in the store to the files that an engine can serve.
//!
//! A model whose manifest has a GGUF layer is served from one file, one with
//! safetensors layers from a directory. The store and the cache are read and
//! written by the caller; which of the files are taken is decided here.

use vstd::prelude::*;
use vstd::utf8::*;

use crate::archive;
use crate::paths;
use crate::paths::Style;
use crate::storage::{Descriptor, Manifest};
use crate::text;

verus! {

/// The media type of a GGUF file that is stored as it is.
pub const HF_GGUF_MEDIA_TYPE: &'static str = "application/vnd.docker.ai.gguf.v3";

/// The files of a model, under a path of any type.
pub enum ModelPath<P> {
    /// A GGUF file, which `llama-server` serves.
    Gguf(P),
    /// A directory of safetensors files, which `vllm` serves.
    SafeTensors(P),
}

impl<P> ModelPath<P> {
    /// The file or the directory.
    pub fn path(&self) -> (r: &P)
        ensures
            *r == match *self {
                ModelPath::Gguf(p) => p,
                ModelPath::SafeTensors(p) => p,
            },
    {
        match self {
            ModelPath::Gguf(p) => p,
            ModelPath::SafeTensors(p) => p,
        }
    }

    /// The name of the format.
    pub fn format(&self) -> (r: &'static str)
        ensures
            r@ == match *self {
                ModelPath::Gguf(_) => "gguf"@,
                ModelPath::SafeTensors(_) => "safetensors"@,
            },
    {
        match self {
            ModelPath::Gguf(_) => "gguf",
            ModelPath::SafeTensors(_) => "safetensors",
        }
    }
}

// ---------------------------------------------------------------------------
// Layers
// ---------------------------------------------------------------------------

/// The part of a digest behind its first colon.
pub open spec fn hex_part(digest: Seq<char>) -> Option<Seq<char>> {
    let n = text::position(digest, ':');
    if n < digest.len() {
        Some(digest.skip(n + 1))
    } else {
        None
    }
}

/// The path that a layer's file has in the model.
pub open spec fn filepath(l: Descriptor) -> Option<Seq<char>> {
    match l.annotation("org.cncf.model.filepath"@) {
        Some(p) => Some(p),
        None => l.annotation("org.opencontainers.image.title"@),
    }
}

/// Whether a layer's file has a name with an ending, in whatever case.
pub open spec fn path_ends_with(l: Descriptor, ending: Seq<char>) -> bool {
    filepath(l) matches Some(p) && ending.is_suffix_of(text::lowercase(p))
}

/// Whether a layer is a GGUF file.
pub open spec fn is_gguf(l: Descriptor) -> bool {
    l.media_type@ == HF_GGUF_MEDIA_TYPE@ || path_ends_with(l, ".gguf"@)
}

/// Whether a layer is a safetensors file.
pub open spec fn is_safetensors(l: Descriptor) -> bool {
    path_ends_with(l, ".safetensors"@)
}

/// The part of a digest behind its first colon; nothing where it has none, and
/// is malformed.
pub fn digest_hex(digest: &str) -> (r: Option<String>)
    ensures
        match r {
            Some(s) => hex_part(digest@) == Some(s@),
            None => hex_part(digest@) is None,
        },
{
    let v = text::to_chars(digest);
    let n: usize = text::index_of(&v, 0, ':');
    assert(v@.skip(0) =~= digest@);
    if n < v.len() {
        let s = text::from_chars(&v, n + 1, v.len());
        assert(s@ =~= digest@.skip(n + 1));
        Some(s)
    } else {
        None
    }
}

/// The path that a layer's file has in the model.
pub fn layer_filepath(l: &Descriptor) -> (r: Option<&String>)
    ensures
        match r {
            Some(s) => filepath(*l) == Some(s@),
            None => filepath(*l) is None,
        },
{
    match l.annotation_str("org.cncf.model.filepath") {
        Some(p) => Some(p),
        None => l.annotation_str("org.opencontainers.image.title"),
    }
}

fn layer_ends_with(l: &Descriptor, ending: &str) -> (r: bool)
    ensures
        r == path_ends_with(*l, ending@),
{
    match layer_filepath(l) {
        Some(p) => text::ends_with(text::to_lowercase(p.as_str()).as_str(), ending),
        None => false,
    }
}

/// Whether a layer is a GGUF file, by its media type or by its name.
pub fn is_gguf_layer(l: &Descriptor) -> (r: bool)
    ensures
        r == is_gguf(*l),
{
    text::same(l.media_type.as_str(), HF_GGUF_MEDIA_TYPE) || layer_ends_with(l, ".gguf")
}

/// Whether a layer is a safetensors file, by its name.
pub fn is_safetensors_layer(l: &Descriptor) -> (r: bool)
    ensures
        r == is_safetensors(*l),
{
    layer_ends_with(l, ".safetensors")
}

/// How a model is served.
pub enum Servable {
    /// From the GGUF file in the layer at an index.
    Gguf(usize),
    /// From its safetensors files.
    SafeTensors,
    /// Not at all: the extensions of its files, each once.
    Nothing(Vec<String>),
}

/// The extensions in a list of layers, in lower case and each once.
pub open spec fn extensions_in(layers: Seq<Descriptor>, style: Style) -> Set<Seq<char>>
    decreases layers.len(),
{
    if layers.len() == 0 {
        Set::empty()
    } else {
        let before = extensions_in(layers.drop_last(), style);
        match filepath(layers.last()) {
            Some(p) => match paths::extension_of(p, style) {
                Some(e) => before.insert(text::lowercase(e)),
                None => before,
            },
            None => before,
        }
    }
}

/// How a model with some layers is served: the first GGUF layer comes before all
/// others.
pub open spec fn is_served(layers: Seq<Descriptor>, style: Style, s: Servable) -> bool {
    match s {
        Servable::Gguf(i) => {
            &&& i < layers.len() && is_gguf(layers[i as int])
            &&& forall|j: int| 0 <= j < i ==> !is_gguf(#[trigger] layers[j])
        },
        Servable::SafeTensors => {
            &&& forall|j: int| 0 <= j < layers.len() ==> !is_gguf(#[trigger] layers[j])
            &&& exists|j: int| 0 <= j < layers.len() && is_safetensors(#[trigger] layers[j])
        },
        Servable::Nothing(exts) => {
            &&& forall|j: int| 0 <= j < layers.len() ==> !is_gguf(#[trigger] layers[j])
            &&& forall|j: int| 0 <= j < layers.len() ==> !is_safetensors(#[trigger] layers[j])
            &&& text::texts(exts@).to_set() == extensions_in(layers, style)
            &&& text::texts(exts@).no_duplicates()
        },
    }
}

fn contains_text(v: &Vec<String>, s: &str) -> (r: bool)
    ensures
        r == text::texts(v@).contains(s@),
{
    let mut i: usize = 0;
    while i < v.len()
        invariant
            i <= v@.len(),
            forall|j: int| 0 <= j < i ==> (#[trigger] v@[j])@ != s@,
        decreases v.len() - i,
    {
        if text::same(v[i].as_str(), s) {
            assert(text::texts(v@)[i as int] == s@);
            return true;
        }
        i += 1;
    }
    proof {
        if text::texts(v@).contains(s@) {
            let j = choose|j: int| 0 <= j < v@.len() && text::texts(v@)[j] == s@;
            assert(v@[j]@ != s@);
        }
    }
    false
}

fn add_once(v: &mut Vec<String>, s: String)
    requires
        text::texts(old(v)@).no_duplicates(),
    ensures
        text::texts(final(v)@).no_duplicates(),
        text::texts(final(v)@).to_set() == text::texts(old(v)@).to_set().insert(s@),
{
    let ghost before = text::texts(v@);
    if contains_text(v, s.as_str()) {
        assert(before.to_set().insert(s@) =~= before.to_set());
    } else {
        v.push(s);
        let ghost now = text::texts(v@);
        proof {
            assert(now =~= before.push(s@));
            assert forall|x: Seq<char>| now.to_set().contains(x) == before.to_set().insert(
                s@,
            ).contains(x) by {
                if before.contains(x) {
                    let i = choose|i: int| 0 <= i < before.len() && before[i] == x;
                    assert(now[i] == x);
                }
                if x == s@ {
                    assert(now[before.len() as int] == x);
                }
                if now.contains(x) && x != s@ {
                    let i = choose|i: int| 0 <= i < now.len() && now[i] == x;
                    assert(before[i] == x);
                }
            }
            assert(now.to_set() =~= before.to_set().insert(s@));
            assert(now.no_duplicates());
        }
    }
}

/// The extensions of the files of a model, in lower case and each once.
pub fn found_extensions(layers: &Vec<Descriptor>, style: Style) -> (r: Vec<String>)
    ensures
        text::texts(r@).to_set() == extensions_in(layers@, style),
        text::texts(r@).no_duplicates(),
{
    let mut out: Vec<String> = Vec::new();
    let mut i: usize = 0;
    assert(text::texts(out@).to_set() =~= Set::<Seq<char>>::empty());
    while i < layers.len()
        invariant
            i <= layers@.len(),
            text::texts(out@).to_set() == extensions_in(layers@.take(i as int), style),
            text::texts(out@).no_duplicates(),
        decreases layers.len() - i,
    {
        proof {
            assert(layers@.take(i + 1).drop_last() =~= layers@.take(i as int));
            assert(layers@.take(i + 1).last() == layers@[i as int]);
        }
        if let Some(p) = layer_filepath(&layers[i]) {
            if let Some(e) = paths::extension(p.as_str(), style) {
                add_once(&mut out, text::to_lowercase(e.as_str()));
            }
        }
        i += 1;
    }
    assert(layers@.take(i as int) =~= layers@);
    out
}

/// How a model is served; its files have paths by the rules of a system.
pub fn servable(manifest: &Manifest, style: Style) -> (r: Servable)
    ensures
        is_served(manifest.layers@, style, r),
{
    let layers = &manifest.layers;
    let mut i: usize = 0;
    while i < layers.len()
        invariant
            i <= layers@.len(),
            *layers == manifest.layers,
            forall|j: int| 0 <= j < i ==> !is_gguf(#[trigger] layers@[j]),
        decreases layers.len() - i,
    {
        if is_gguf_layer(&layers[i]) {
            return Servable::Gguf(i);
        }
        i += 1;
    }
    let mut k: usize = 0;
    while k < layers.len()
        invariant
            k <= layers@.len(),
            *layers == manifest.layers,
            forall|j: int| 0 <= j < layers@.len() ==> !is_gguf(#[trigger] layers@[j]),
            forall|j: int| 0 <= j < k ==> !is_safetensors(#[trigger] layers@[j]),
        decreases layers.len() - k,
    {
        if is_safetensors_layer(&layers[k]) {
            return Servable::SafeTensors;
        }
        k += 1;
    }
    Servable::Nothing(found_extensions(layers, style))
}

// ---------------------------------------------------------------------------
// A GGUF layer
// ---------------------------------------------------------------------------

/// What is known of a GGUF layer before any file is looked at.
pub struct GgufPlan {
    /// The name of the blob in the store, and of the directory in the cache.
    pub hex: String,
    /// The blob is the GGUF file itself.
    pub raw: bool,
    /// The path that the file has in the model.
    pub title: String,
}

/// The path of a GGUF layer's file: a name of its own where it has none.
pub open spec fn gguf_title(l: Descriptor) -> Seq<char> {
    match filepath(l) {
        Some(p) => p,
        None => "model.gguf"@,
    }
}

/// What is known of a GGUF layer; nothing where its digest is malformed.
pub fn plan_gguf(l: &Descriptor) -> (r: Option<GgufPlan>)
    ensures
        match r {
            Some(p) => {
                &&& hex_part(l.digest@) == Some(p.hex@)
                &&& p.raw == (l.media_type@ == HF_GGUF_MEDIA_TYPE@)
                &&& p.title@ == gguf_title(*l)
            },
            None => hex_part(l.digest@) is None,
        },
{
    let title = match layer_filepath(l) {
        Some(p) => p.clone(),
        None => "model.gguf".to_owned(),
    };
    match digest_hex(l.digest.as_str()) {
        Some(hex) => Some(
            GgufPlan { hex, raw: text::same(l.media_type.as_str(), HF_GGUF_MEDIA_TYPE), title },
        ),
        None => None,
    }
}

/// Where a GGUF file is already.
#[derive(Clone, Copy, PartialEq, Eq, Structural)]
pub enum Present {
    /// It is the blob.
    Blob,
    /// It is the entry of the cache directory at an index.
    Cached(usize),
    /// It has to be unpacked from the blob.
    Nowhere,
}

/// Whether a path leads to a GGUF file.
pub open spec fn is_gguf_path(p: Seq<char>, style: Style) -> bool {
    paths::extension_of(p, style) == Some("gguf"@)
}

/// The first GGUF file in a list of paths.
pub open spec fn first_gguf(names: Seq<String>, style: Style, r: Option<usize>) -> bool {
    match r {
        Some(i) => {
            &&& i < names.len() && is_gguf_path(names[i as int]@, style)
            &&& forall|j: int| 0 <= j < i ==> !is_gguf_path((#[trigger] names[j])@, style)
        },
        None => forall|j: int| 0 <= j < names.len() ==> !is_gguf_path((#[trigger] names[j])@, style),
    }
}

/// The first GGUF file in a list of paths.
pub fn find_gguf(names: &Vec<String>, style: Style) -> (r: Option<usize>)
    ensures
        first_gguf(names@, style, r),
{
    let mut i: usize = 0;
    while i < names.len()
        invariant
            i <= names@.len(),
            forall|j: int| 0 <= j < i ==> !is_gguf_path((#[trigger] names@[j])@, style),
        decreases names.len() - i,
    {
        if paths::has_extension(names[i].as_str(), "gguf", style) {
            return Some(i);
        }
        i += 1;
    }
    None
}

/// Where a GGUF file is already: a blob that is the file itself comes first, then
/// the entries of the cache directory, of which there are none where there is no
/// such directory.
pub fn find_present(
    plan: &GgufPlan,
    blob_exists: bool,
    cached: &Vec<String>,
    style: Style,
) -> (r: Present)
    ensures
        plan.raw && blob_exists <==> r is Blob,
        match r {
            Present::Blob => true,
            Present::Cached(i) => first_gguf(cached@, style, Some(i)),
            Present::Nowhere => first_gguf(cached@, style, None),
        },
{
    if plan.raw && blob_exists {
        return Present::Blob;
    }
    match find_gguf(cached, style) {
        Some(i) => Present::Cached(i),
        None => Present::Nowhere,
    }
}

/// Whether bytes begin as a GGUF file does.
pub open spec fn has_gguf_magic(blob: Seq<u8>) -> bool {
    blob.len() >= 4 && blob[0] == 71 && blob[1] == 71 && blob[2] == 85 && blob[3] == 70
}

/// Whether a blob is a GGUF file, and no archive.
pub fn is_gguf_blob(blob: &[u8]) -> (r: bool)
    ensures
        r == has_gguf_magic(blob@),
{
    blob.len() >= 4 && blob[0] == 71 && blob[1] == 71 && blob[2] == 85 && blob[3] == 70
}

/// The name of a file in the cache, by the path that it has elsewhere.
pub open spec fn cache_name(path: Seq<char>, style: Style) -> Seq<char> {
    match paths::name_of(path, style) {
        Some(name) => name,
        None => "model.gguf"@,
    }
}

/// The name of a file in the cache, by the path that it has elsewhere.
pub fn cached_name(path: &str, style: Style) -> (r: String)
    ensures
        r@ == cache_name(path@, style),
{
    match paths::file_name(path, style) {
        Some(name) => name,
        None => "model.gguf".to_owned(),
    }
}

/// What an archive holds.
pub enum Member {
    /// A GGUF file: the member at an index, and its name in the cache in bytes.
    Gguf(usize, Vec<u8>),
    /// A member that cannot be read, before any GGUF file.
    Unreadable(usize),
    /// No GGUF file.
    Nothing,
}

/// Whether a member can be read, and has a path by the rules of a system: on
/// Windows a path is UTF-8.
pub open spec fn is_read(p: Option<Seq<u8>>, style: Style) -> bool {
    p matches Some(bytes) && (style is Windows ==> valid_utf8(bytes))
}

/// Whether a member that can be read is a GGUF file.
pub open spec fn is_gguf_member(p: Option<Seq<u8>>, style: Style) -> bool {
    p matches Some(bytes) && is_gguf_path(paths::as_chars(bytes), style)
}

/// Whether a member is no reason to stop: it can be read, and is no GGUF file.
pub open spec fn is_passed_over(p: Option<Seq<u8>>, style: Style) -> bool {
    is_read(p, style) && !is_gguf_member(p, style)
}

/// Whether bytes are the name in the cache of a member.
pub open spec fn is_cache_name(name: Seq<u8>, p: Option<Seq<u8>>, style: Style) -> bool {
    p matches Some(bytes) && paths::as_chars(name) == cache_name(paths::as_chars(bytes), style)
}

/// What an archive with members of some paths holds: the first GGUF file counts,
/// unless a member before it cannot be read.
pub open spec fn is_held(members: Seq<Option<Seq<u8>>>, style: Style, m: Member) -> bool {
    match m {
        Member::Gguf(i, name) => {
            &&& i < members.len()
            &&& is_read(members[i as int], style) && is_gguf_member(members[i as int], style)
            &&& is_cache_name(name@, members[i as int], style)
            &&& forall|j: int| 0 <= j < i ==> is_passed_over(#[trigger] members[j], style)
        },
        Member::Unreadable(i) => {
            &&& i < members.len() && !is_read(members[i as int], style)
            &&& forall|j: int| 0 <= j < i ==> is_passed_over(#[trigger] members[j], style)
        },
        Member::Nothing => forall|j: int|
            0 <= j < members.len() ==> is_passed_over(#[trigger] members[j], style),
    }
}

fn member_name(path: &str, style: Style) -> (r: Vec<u8>)
    requires
        paths::are_bytes(path@),
    ensures
        paths::as_chars(r@) == cache_name(path@, style),
{
    let name = cached_name(path, style);
    proof {
        paths::lemma_name_is_bytes(path@, style);
        reveal_strlit("model.gguf");
    }
    paths::bytes_of(name.as_str())
}

/// What an archive with members of some paths holds.
pub fn find_member(members: &Vec<Option<Vec<u8>>>, style: Style) -> (r: Member)
    ensures
        is_held(archive::optional_bytes(members@), style, r),
{
    let ghost all = archive::optional_bytes(members@);
    let mut i: usize = 0;
    while i < members.len()
        invariant
            i <= members@.len(),
            all == archive::optional_bytes(members@),
            forall|j: int| 0 <= j < i ==> is_passed_over(#[trigger] all[j], style),
        decreases members.len() - i,
    {
        match &members[i] {
            None => {
                assert(all[i as int] is None);
                return Member::Unreadable(i);
            },
            Some(p) => {
                assert(all[i as int] == Some(p@));
                let readable = match style {
                    Style::Unix => true,
                    Style::Windows => text::is_utf8(p.as_slice()),
                };
                if !readable {
                    return Member::Unreadable(i);
                }
                let path = paths::chars_of(p.as_slice());
                if paths::has_extension(path.as_str(), "gguf", style) {
                    return Member::Gguf(i, member_name(path.as_str(), style));
                }
            },
        }
        i += 1;
    }
    Member::Nothing
}

/// What the tar archive in a blob holds, as far as it can be read.
pub fn find_in_archive(blob: &[u8], style: Style) -> (r: Member)
    ensures
        is_held(archive::tar_paths(archive::readable(blob@)), style, r),
{
    find_member(&archive::members(blob), style)
}

/// How a GGUF file gets from a blob into the cache.
pub enum Unpacking {
    /// The blob is the file: it is written under a name.
    Whole(String),
    /// The member of the archive at an index is unpacked under a name.
    Member(usize, Vec<u8>),
    /// Not at all: a member before any GGUF file cannot be read.
    Unreadable(usize),
    /// Not at all: there is no GGUF file in the archive.
    Nothing,
}

/// How a GGUF file gets from its blob into the cache: a blob that begins as a GGUF
/// file does is one, and any other is an archive.
pub fn plan_unpacking(plan: &GgufPlan, blob: &[u8], style: Style) -> (r: Unpacking)
    ensures
        match r {
            Unpacking::Whole(name) => has_gguf_magic(blob@) && name@ == cache_name(
                plan.title@,
                style,
            ),
            Unpacking::Member(i, name) => !has_gguf_magic(blob@) && is_held(
                archive::tar_paths(archive::readable(blob@)),
                style,
                Member::Gguf(i, name),
            ),
            Unpacking::Unreadable(i) => !has_gguf_magic(blob@) && is_held(
                archive::tar_paths(archive::readable(blob@)),
                style,
                Member::Unreadable(i),
            ),
            Unpacking::Nothing => !has_gguf_magic(blob@) && is_held(
                archive::tar_paths(archive::readable(blob@)),
                style,
                Member::Nothing,
            ),
        },
{
    if is_gguf_blob(blob) {
        return Unpacking::Whole(cached_name(plan.title.as_str(), style));
    }
    match find_in_archive(blob, style) {
        Member::Gguf(i, name) => Unpacking::Member(i, name),
        Member::Unreadable(i) => Unpacking::Unreadable(i),
        Member::Nothing => Unpacking::Nothing,
    }
}

// ---------------------------------------------------------------------------
// Refusals
// ---------------------------------------------------------------------------

/// The message where a digest has no colon.
pub fn malformed_digest(digest: &str) -> (r: String)
    ensures
        r@ == "malformed digest: "@ + digest@,
{
    let mut s = "malformed digest: ".to_owned();
    s.append(digest);
    s
}

/// The message where an archive holds no GGUF file.
pub fn no_gguf_in_archive(reference: &str) -> (r: String)
    ensures
        r@ == "no .gguf in tar layer of "@ + reference@,
{
    let mut s = "no .gguf in tar layer of ".to_owned();
    s.append(reference);
    s
}

/// The texts of a list, each in quotes and with escapes.
pub open spec fn quoted(v: Seq<Seq<char>>) -> Seq<Seq<char>> {
    v.map_values(|s: Seq<char>| text::debug_text(s))
}

/// The message where a model has nothing that can be served, with the extensions
/// that its files have.
pub open spec fn unservable_text(reference: Seq<char>, exts: Seq<Seq<char>>) -> Seq<char> {
    if exts.len() == 0 {
        "no servable model layer found in "@ + reference
    } else {
        "no servable model layer in "@ + reference + " — found {"@ + text::join_spec(
            quoted(exts),
            ", "@,
        )
            + "} files; llmman serve supports GGUF (llama-server) and safetensors (vllm)"@
    }
}

fn quote_all(v: &Vec<String>) -> (r: Vec<String>)
    ensures
        text::texts(r@) == quoted(text::texts(v@)),
{
    let mut out: Vec<String> = Vec::new();
    let mut i: usize = 0;
    let ghost all = quoted(text::texts(v@));
    assert(text::texts(out@) =~= all.take(0));
    while i < v.len()
        invariant
            i <= v@.len(),
            all == quoted(text::texts(v@)),
            text::texts(out@) == all.take(i as int),
        decreases v.len() - i,
    {
        let ghost before = out@;
        out.push(text::debug(v[i].as_str()));
        proof {
            assert(text::texts(v@)[i as int] == v@[i as int]@);
            assert(text::texts(out@) =~= text::texts(before).push(all[i as int]));
            assert(all.take(i + 1) =~= all.take(i as int).push(all[i as int]));
        }
        i += 1;
    }
    assert(all.take(i as int) =~= all);
    out
}

/// The message where a model has nothing that can be served.
pub fn unservable(reference: &str, exts: &Vec<String>) -> (r: String)
    ensures
        r@ == unservable_text(reference@, text::texts(exts@)),
{
    if exts.len() == 0 {
        let mut s = "no servable model layer found in ".to_owned();
        s.append(reference);
        return s;
    }
    let mut s = "no servable model layer in ".to_owned();
    s.append(reference);
    s.append(" — found {");
    s.append(text::join(&quote_all(exts), ", ").as_str());
    s.append("} files; llmman serve supports GGUF (llama-server) and safetensors (vllm)");
    s
}

// ---------------------------------------------------------------------------
// Safetensors layers
// ---------------------------------------------------------------------------

/// Whether a layer's file belongs to what an engine needs: weights and
/// configuration, no code and no documentation.
pub open spec fn is_weight(l: Descriptor) -> bool {
    l.media_type@ == "application/vnd.cncf.model.weight.config.v1.raw"@ || l.media_type@
        == "application/vnd.cncf.model.weight.v1.raw"@
}

/// Whether a layer's file is extracted.
pub open spec fn is_extracted(l: Descriptor) -> bool {
    is_weight(l) && filepath(l) is Some
}

/// Whether a layer's file is the model's configuration.
pub open spec fn is_config(l: Descriptor, style: Style) -> bool {
    filepath(l) matches Some(p) && paths::name_of(p, style) == Some("config.json"@)
}

/// The path under which a layer's file is extracted, if it is.
pub fn extracted_path(l: &Descriptor) -> (r: Option<&String>)
    ensures
        match r {
            Some(p) => is_extracted(*l) && filepath(*l) == Some(p@),
            None => !is_extracted(*l),
        },
{
    if text::same(l.media_type.as_str(), "application/vnd.cncf.model.weight.config.v1.raw")
        || text::same(l.media_type.as_str(), "application/vnd.cncf.model.weight.v1.raw") {
        layer_filepath(l)
    } else {
        None
    }
}

/// The path of the model's configuration, whose directory is that of the model:
/// the first such file of all layers.
pub fn config_path(layers: &Vec<Descriptor>, style: Style) -> (r: Option<&String>)
    ensures
        match r {
            Some(p) => exists|i: int|
                0 <= i < layers@.len() && is_config(#[trigger] layers@[i], style) && filepath(layers@[i])
                    == Some(p@) && forall|j: int| 0 <= j < i ==> !is_config(#[trigger] layers@[j], style),
            None => forall|j: int| 0 <= j < layers@.len() ==> !is_config(#[trigger] layers@[j], style),
        },
{
    let mut i: usize = 0;
    while i < layers.len()
        invariant
            i <= layers@.len(),
            forall|j: int| 0 <= j < i ==> !is_config(#[trigger] layers@[j], style),
        decreases layers.len() - i,
    {
        if let Some(p) = layer_filepath(&layers[i]) {
            if let Some(name) = paths::file_name(p.as_str(), style) {
                if text::same(name.as_str(), "config.json") {
                    assert(is_config(layers@[i as int], style));
                    return Some(p);
                }
            }
        }
        assert(!is_config(layers@[i as int], style));
        i += 1;
    }
    None
}

} // verus!
