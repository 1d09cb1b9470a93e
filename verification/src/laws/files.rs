//! Laws of finding the files of a model that an engine can serve.

use vstd::prelude::*;
use vstd::utf8::*;

use crate::archive;
use crate::modelpack;
use crate::modelpack::{GgufPlan, Member, Present, Servable, Unpacking};
use crate::paths;
use crate::paths::Style;
use crate::storage::{Descriptor, Manifest};
use crate::text;

verus! {

/// Whether a layer has an annotation.
pub open spec fn is_annotated(l: Descriptor, key: Seq<char>) -> bool {
    l.annotations is Some && l.annotations.unwrap()@.contains_key(key)
}

/// The path of a layer's file: the one of the model's format before the title.
pub open spec fn path_in(l: Descriptor) -> Option<Seq<char>> {
    if is_annotated(l, "org.cncf.model.filepath"@) {
        Some(l.annotations.unwrap()@["org.cncf.model.filepath"@])
    } else if is_annotated(l, "org.opencontainers.image.title"@) {
        Some(l.annotations.unwrap()@["org.opencontainers.image.title"@])
    } else {
        None
    }
}

/// The path of a layer's file is what its annotations say, whatever it is.
pub proof fn law_paths_are_annotations(l: &Descriptor, r: Option<&String>)
    requires
        call_ensures(modelpack::layer_filepath, (l,), r),
    ensures
        r is Some <==> path_in(*l) is Some,
        r is Some ==> r.unwrap()@ == path_in(*l).unwrap(),
{
}

/// A layer is extracted exactly where its media type is one of the two of weights
/// and it has a path, and then under that path, whatever the name of the file.
pub proof fn law_weights_are_extracted(l: &Descriptor, r: Option<&String>)
    requires
        call_ensures(modelpack::extracted_path, (l,), r),
    ensures
        r is Some <==> path_in(*l) is Some && (l.media_type@
            == "application/vnd.cncf.model.weight.v1.raw"@ || l.media_type@
            == "application/vnd.cncf.model.weight.config.v1.raw"@),
        r is Some ==> r.unwrap()@ == path_in(*l).unwrap(),
{
}

/// An annotation of a layer is what stands under its key.
pub proof fn law_annotations(l: &Descriptor, key: &str, r: Option<&String>)
    requires
        call_ensures(Descriptor::annotation_str, (l, key), r),
    ensures
        r is Some <==> is_annotated(*l, key@),
        r is Some ==> r.unwrap()@ == l.annotations.unwrap()@[key@],
{
}

/// Two layers of the same media type and with paths are both extracted or both
/// not, whatever their paths.
pub proof fn law_names_do_not_decide(
    a: &Descriptor,
    b: &Descriptor,
    r: Option<&String>,
    s: Option<&String>,
)
    requires
        call_ensures(modelpack::extracted_path, (a,), r),
        call_ensures(modelpack::extracted_path, (b,), s),
        a.media_type@ == b.media_type@,
        path_in(*a) is Some,
        path_in(*b) is Some,
    ensures
        r is Some <==> s is Some,
{
}

/// Whether a layer's file has a name with an ending, in whatever case.
pub open spec fn ends_in(l: Descriptor, ending: Seq<char>) -> bool {
    path_in(l) is Some && ending.is_suffix_of(text::lowercase(path_in(l).unwrap()))
}

/// Whether a layer is a GGUF file.
pub open spec fn is_gguf(l: Descriptor) -> bool {
    l.media_type@ == "application/vnd.docker.ai.gguf.v3"@ || ends_in(l, ".gguf"@)
}

/// A layer is a GGUF file by its media type, whatever its name, or by its name,
/// whatever its media type; it is a safetensors file by its name alone.
pub proof fn law_kinds_of_layers(l: &Descriptor, gguf: bool, safetensors: bool)
    requires
        call_ensures(modelpack::is_gguf_layer, (l,), gguf),
        call_ensures(modelpack::is_safetensors_layer, (l,), safetensors),
    ensures
        gguf <==> is_gguf(*l),
        safetensors <==> ends_in(*l, ".safetensors"@),
{
}

/// A model is served from its first GGUF layer where it has one; from its
/// safetensors files where it has none, but one of those; and not at all where it
/// has neither.
pub proof fn law_how_a_model_is_served(manifest: &Manifest, style: Style, r: Servable)
    requires
        call_ensures(modelpack::servable, (manifest, style), r),
    ensures
        forall|i: int|
            0 <= i < manifest.layers@.len() && is_gguf(#[trigger] manifest.layers@[i]) && (forall|
                j: int,
            |
                0 <= j < i ==> !is_gguf(#[trigger] manifest.layers@[j])) ==> r == Servable::Gguf(
                i as usize,
            ),
        r is Gguf ==> (r->Gguf_0) < manifest.layers@.len() && is_gguf(
            manifest.layers@[r->Gguf_0 as int],
        ),
        (forall|i: int|
            0 <= i < manifest.layers@.len() ==> !is_gguf(#[trigger] manifest.layers@[i])) ==> (
        r is SafeTensors <==> exists|i: int|
            0 <= i < manifest.layers@.len() && ends_in(
                #[trigger] manifest.layers@[i],
                ".safetensors"@,
            )),
{
    let layers = manifest.layers@;
    assert(modelpack::is_served(layers, style, r));
    assert forall|l: Descriptor| #[trigger] modelpack::is_gguf(l) == is_gguf(l) by {}
    assert forall|l: Descriptor| #[trigger]
        modelpack::is_safetensors(l) == ends_in(l, ".safetensors"@) by {}
    assert forall|i: int|
        0 <= i < layers.len() && is_gguf(#[trigger] layers[i]) && (forall|j: int|
            0 <= j < i ==> !is_gguf(#[trigger] layers[j])) implies r == Servable::Gguf(
        i as usize,
    ) by {
        assert(modelpack::is_gguf(layers[i]));
        if let Servable::Gguf(k) = r {
            assert(modelpack::is_gguf(layers[k as int]));
            if k < i {
                assert(!is_gguf(layers[k as int]));
            }
            if i < k {
                assert(!modelpack::is_gguf(layers[i]));
            }
        }
    }
    if forall|i: int| 0 <= i < layers.len() ==> !is_gguf(#[trigger] layers[i]) {
        if let Servable::Gguf(k) = r {
            assert(modelpack::is_gguf(layers[k as int]));
            assert(!is_gguf(layers[k as int]));
        }
        if r is SafeTensors {
            let j = choose|j: int|
                0 <= j < layers.len() && modelpack::is_safetensors(#[trigger] layers[j]);
            assert(ends_in(layers[j], ".safetensors"@));
        }
        if r is Nothing {
            assert forall|j: int| 0 <= j < layers.len() implies !ends_in(
                #[trigger] layers[j],
                ".safetensors"@,
            ) by {
                assert(!modelpack::is_safetensors(layers[j]));
            }
        }
    }
}

/// Whether a layer's file has an extension, which is this one in lower case.
pub open spec fn has_extension(l: Descriptor, style: Style, ext: Seq<char>) -> bool {
    path_in(l) is Some && paths::extension_of(path_in(l).unwrap(), style) is Some
        && text::lowercase(paths::extension_of(path_in(l).unwrap(), style).unwrap()) == ext
}

proof fn lemma_extensions(layers: Seq<Descriptor>, style: Style, ext: Seq<char>)
    ensures
        modelpack::extensions_in(layers, style).contains(ext) <==> exists|i: int|
            0 <= i < layers.len() && has_extension(#[trigger] layers[i], style, ext),
    decreases layers.len(),
{
    if layers.len() > 0 {
        let t = layers.drop_last();
        lemma_extensions(t, style, ext);
        if exists|i: int| 0 <= i < t.len() && has_extension(#[trigger] t[i], style, ext) {
            let i = choose|i: int| 0 <= i < t.len() && has_extension(#[trigger] t[i], style, ext);
            assert(has_extension(layers[i], style, ext));
        }
        if exists|i: int| 0 <= i < layers.len() && has_extension(#[trigger] layers[i], style, ext) {
            let i = choose|i: int|
                0 <= i < layers.len() && has_extension(#[trigger] layers[i], style, ext);
            if i < t.len() {
                assert(t[i] == layers[i]);
            }
        }
        if has_extension(layers.last(), style, ext) {
            assert(has_extension(layers[layers.len() - 1], style, ext));
        }
    }
}

/// The extensions that a refusal speaks of are those of all the files of a model,
/// and each stands there once.
pub proof fn law_all_extensions_are_found(
    layers: &Vec<Descriptor>,
    style: Style,
    ext: Seq<char>,
    r: Vec<String>,
)
    requires
        call_ensures(modelpack::found_extensions, (layers, style), r),
    ensures
        (exists|k: int| 0 <= k < r@.len() && (#[trigger] r@[k])@ == ext) <==> exists|i: int|
            0 <= i < layers@.len() && has_extension(#[trigger] layers@[i], style, ext),
        forall|k: int, l: int| 0 <= k < l < r@.len() ==> (#[trigger] r@[k])@ != (#[trigger] r@[l])@,
{
    lemma_extension_list(layers@, style, ext, r);
}

/// A model that cannot be served is refused with the extensions of all its files,
/// each of them once.
pub proof fn law_what_a_refusal_speaks_of(
    manifest: &Manifest,
    style: Style,
    ext: Seq<char>,
    r: Servable,
)
    requires
        call_ensures(modelpack::servable, (manifest, style), r),
        r is Nothing,
    ensures
        (exists|k: int| 0 <= k < r->Nothing_0@.len() && (#[trigger] r->Nothing_0@[k])@ == ext)
            <==> exists|i: int|
            0 <= i < manifest.layers@.len() && has_extension(
                #[trigger] manifest.layers@[i],
                style,
                ext,
            ),
        forall|k: int, l: int|
            0 <= k < l < r->Nothing_0@.len() ==> (#[trigger] r->Nothing_0@[k])@ != (
            #[trigger] r->Nothing_0@[l])@,
{
    let exts = r->Nothing_0;
    assert(modelpack::is_served(manifest.layers@, style, r));
    lemma_extension_list(manifest.layers@, style, ext, exts);
}

proof fn lemma_extension_list(
    layers: Seq<Descriptor>,
    style: Style,
    ext: Seq<char>,
    r: Vec<String>,
)
    requires
        text::texts(r@).to_set() == modelpack::extensions_in(layers, style),
        text::texts(r@).no_duplicates(),
    ensures
        (exists|k: int| 0 <= k < r@.len() && (#[trigger] r@[k])@ == ext) <==> exists|i: int|
            0 <= i < layers.len() && has_extension(#[trigger] layers[i], style, ext),
        forall|k: int, l: int| 0 <= k < l < r@.len() ==> (#[trigger] r@[k])@ != (#[trigger] r@[l])@,
{
    lemma_extensions(layers, style, ext);
    let all = text::texts(r@);
    assert(all.to_set().contains(ext) == all.contains(ext));
    if all.contains(ext) {
        let k = choose|k: int| 0 <= k < all.len() && all[k] == ext;
        assert(r@[k]@ == ext);
    }
    if exists|k: int| 0 <= k < r@.len() && (#[trigger] r@[k])@ == ext {
        let k = choose|k: int| 0 <= k < r@.len() && (#[trigger] r@[k])@ == ext;
        assert(all[k] == ext);
    }
    assert forall|k: int, l: int| 0 <= k < l < r@.len() implies (#[trigger] r@[k])@ != (
    #[trigger] r@[l])@ by {
        assert(all[k] != all[l]);
    }
}

/// The name of a blob is what stands behind the first colon of its digest; a digest
/// without a colon has none.
pub proof fn law_digests_are_cut_at_a_colon(digest: &str, r: Option<String>)
    requires
        call_ensures(modelpack::digest_hex, (digest,), r),
    ensures
        r is Some <==> digest@.contains(':'),
        forall|kind: Seq<char>, hex: Seq<char>|
            digest@ == #[trigger] (kind + seq![':'] + hex) && !kind.contains(':') ==> r is Some
                && r.unwrap()@ == hex,
{
    text::lemma_position_bound(digest@, ':');
    assert forall|kind: Seq<char>, hex: Seq<char>|
        digest@ == #[trigger] (kind + seq![':'] + hex) && !kind.contains(':') implies r is Some
        && r.unwrap()@ == hex by {
        assert forall|j: int| 0 <= j < kind.len() implies digest@[j] != ':' by {
            assert(kind[j] == digest@[j]);
        }
        text::lemma_position(digest@, ':', kind.len() as int);
        assert(digest@.skip(kind.len() as int + 1) =~= hex);
    }
}

/// What is known of a GGUF layer: the name of its blob, whether the blob is the
/// file, and the path of the file, which has a name of its own where it has none.
pub proof fn law_what_is_known_of_a_layer(
    l: &Descriptor,
    digest: &str,
    hex: Option<String>,
    r: Option<GgufPlan>,
)
    requires
        call_ensures(modelpack::plan_gguf, (l,), r),
        digest@ == l.digest@,
        call_ensures(modelpack::digest_hex, (digest,), hex),
    ensures
        r is Some <==> hex is Some,
        r is Some ==> ({
            let p = r.unwrap();
            &&& p.hex@ == hex.unwrap()@
            &&& p.raw <==> l.media_type@ == "application/vnd.docker.ai.gguf.v3"@
            &&& path_in(*l) is Some ==> p.title@ == path_in(*l).unwrap()
            &&& path_in(*l) is None ==> p.title@ == "model.gguf"@
        }),
{
}

/// Whether a path leads to a GGUF file.
pub open spec fn is_gguf_path(p: Seq<char>, style: Style) -> bool {
    paths::extension_of(p, style) == Some("gguf"@)
}

/// Of some paths the first that leads to a GGUF file is found, if there is one.
pub proof fn law_the_first_gguf_is_found(names: &Vec<String>, style: Style, r: Option<usize>)
    requires
        call_ensures(modelpack::find_gguf, (names, style), r),
    ensures
        r is Some <==> exists|i: int|
            0 <= i < names@.len() && is_gguf_path((#[trigger] names@[i])@, style),
        r is Some ==> r.unwrap() < names@.len() && is_gguf_path(
            names@[r.unwrap() as int]@,
            style,
        ) && forall|j: int|
            0 <= j < r.unwrap() ==> !is_gguf_path((#[trigger] names@[j])@, style),
{
    assert(modelpack::first_gguf(names@, style, r));
    if r is Some {
        assert(is_gguf_path(names@[r.unwrap() as int]@, style));
        assert forall|j: int| 0 <= j < r.unwrap() implies !is_gguf_path(
            (#[trigger] names@[j])@,
            style,
        ) by {
            assert(!modelpack::is_gguf_path(names@[j]@, style));
        }
    } else {
        assert forall|i: int| 0 <= i < names@.len() implies !is_gguf_path(
            (#[trigger] names@[i])@,
            style,
        ) by {
            assert(!modelpack::is_gguf_path(names@[i]@, style));
        }
    }
}

/// A blob that is the file and is there is taken; otherwise the first GGUF file of
/// the cache; otherwise there is none yet.
pub proof fn law_what_is_there_is_taken(
    plan: &GgufPlan,
    blob_exists: bool,
    cached: &Vec<String>,
    style: Style,
    found: Option<usize>,
    r: Present,
)
    requires
        call_ensures(modelpack::find_present, (plan, blob_exists, cached, style), r),
        call_ensures(modelpack::find_gguf, (cached, style), found),
    ensures
        plan.raw && blob_exists ==> r == Present::Blob,
        !(plan.raw && blob_exists) && found is Some ==> r == Present::Cached(found.unwrap()),
        !(plan.raw && blob_exists) && found is None ==> r == Present::Nowhere,
{
    law_the_first_gguf_is_found(cached, style, found);
    if let Present::Cached(i) = r {
        assert(modelpack::first_gguf(cached@, style, Some(i)));
        assert(is_gguf_path(cached@[i as int]@, style));
        if found is Some {
            let k = found.unwrap();
            assert(is_gguf_path(cached@[k as int]@, style));
            if k < i {
                assert(!modelpack::is_gguf_path(cached@[k as int]@, style));
            }
        }
    }
    if r is Nowhere && found is Some {
        assert(!modelpack::is_gguf_path(cached@[found.unwrap() as int]@, style));
    }
}

/// A blob is a GGUF file exactly where its first four bytes are the letters GGUF,
/// whatever follows.
pub proof fn law_gguf_blobs_begin_with_their_name(blob: &[u8], r: bool)
    requires
        call_ensures(modelpack::is_gguf_blob, (blob,), r),
    ensures
        r <==> blob@.len() >= 4 && blob@.take(4) == seq!['G' as u8, 'G' as u8, 'U' as u8, 'F' as u8],
{
    let name = seq!['G' as u8, 'G' as u8, 'U' as u8, 'F' as u8];
    if blob@.len() >= 4 {
        let start = blob@.take(4);
        assert(start[0] == blob@[0] && start[1] == blob@[1] && start[2] == blob@[2] && start[3]
            == blob@[3]);
        if r {
            assert(start =~= name);
        }
        if start == name {
            assert(start[0] == name[0] && start[1] == name[1] && start[2] == name[2] && start[3]
                == name[3]);
        }
    }
}

/// A file has in the cache the name that it has elsewhere, without its directory;
/// a path without a name gives one of its own.
pub proof fn law_names_in_the_cache(path: &str, style: Style, name: Option<String>, r: String)
    requires
        call_ensures(modelpack::cached_name, (path, style), r),
        call_ensures(paths::file_name, (path, style), name),
    ensures
        name is Some ==> r@ == name.unwrap()@,
        name is None ==> r@ == "model.gguf"@,
{
}

/// Whether a member of an archive can be read: its path is known, and on Windows it
/// is a text.
pub open spec fn can_be_read(p: Option<Vec<u8>>, style: Style) -> bool {
    p is Some && (style is Windows ==> valid_utf8(p.unwrap()@))
}

/// Whether a member of an archive whose path is known is a GGUF file.
pub open spec fn is_gguf_member(p: Option<Vec<u8>>, style: Style) -> bool {
    p is Some && is_gguf_path(paths::as_chars(p.unwrap()@), style)
}

/// Of the members of an archive the first counts that cannot be read or is a GGUF
/// file: one that cannot be read is a fault, and a GGUF file is found, under the
/// name that its path has. Where there is neither, there is nothing.
pub proof fn law_the_first_member_counts(
    members: &Vec<Option<Vec<u8>>>,
    style: Style,
    i: int,
    r: Member,
)
    requires
        call_ensures(modelpack::find_member, (members, style), r),
        0 <= i <= members@.len(),
        forall|j: int|
            0 <= j < i ==> can_be_read(#[trigger] members@[j], style) && !is_gguf_member(
                members@[j],
                style,
            ),
        i < members@.len() ==> !can_be_read(members@[i], style) || is_gguf_member(
            members@[i],
            style,
        ),
    ensures
        i == members@.len() ==> r is Nothing,
        i < members@.len() && !can_be_read(members@[i], style) ==> r == Member::Unreadable(
            i as usize,
        ),
        i < members@.len() && can_be_read(members@[i], style) ==> r is Gguf && r->Gguf_0 == i && ({
            let path = paths::as_chars(members@[i].unwrap()@);
            let name = paths::as_chars(r->Gguf_1@);
            &&& paths::name_of(path, style) is Some ==> name == paths::name_of(path, style).unwrap()
            &&& paths::name_of(path, style) is None ==> name == "model.gguf"@
        }),
{
    let all = archive::optional_bytes(members@);
    assert(all.len() == members@.len());
    assert forall|j: int| 0 <= j < all.len() implies #[trigger] modelpack::is_passed_over(
        all[j],
        style,
    ) == (can_be_read(members@[j], style) && !is_gguf_member(members@[j], style)) by {}
    assert(modelpack::is_held(all, style, r));
    let k = match r {
        Member::Gguf(k, _) => k as int,
        Member::Unreadable(k) => k as int,
        Member::Nothing => all.len() as int,
    };
    if k < i {
        assert(modelpack::is_passed_over(all[k], style));
    }
    if i < k {
        assert(modelpack::is_passed_over(all[i], style));
    }
}

/// What an archive holds is what its members hold, as far as it can be read.
pub proof fn law_archives_hold_their_members(
    blob: &[u8],
    style: Style,
    members: Vec<Option<Vec<u8>>>,
    m: Member,
    r: Member,
)
    requires
        call_ensures(archive::members, (blob,), members),
        call_ensures(modelpack::find_member, (&members, style), m),
        call_ensures(modelpack::find_in_archive, (blob, style), r),
    ensures
        m is Nothing <==> r is Nothing,
        m is Gguf <==> r is Gguf,
        m is Gguf ==> m->Gguf_0 == r->Gguf_0 && paths::as_chars(m->Gguf_1@) == paths::as_chars(
            r->Gguf_1@,
        ),
        m is Unreadable ==> r == m,
{
    lemma_held_once(archive::optional_bytes(members@), style, m, r);
}

proof fn lemma_held_once(all: Seq<Option<Seq<u8>>>, style: Style, m: Member, r: Member)
    requires
        modelpack::is_held(all, style, m),
        modelpack::is_held(all, style, r),
    ensures
        m is Nothing <==> r is Nothing,
        m is Gguf <==> r is Gguf,
        m is Gguf ==> m->Gguf_0 == r->Gguf_0 && paths::as_chars(m->Gguf_1@) == paths::as_chars(
            r->Gguf_1@,
        ),
        m is Unreadable ==> r == m,
{
    let k = match r {
        Member::Gguf(k, _) => k as int,
        Member::Unreadable(k) => k as int,
        Member::Nothing => all.len() as int,
    };
    let i = match m {
        Member::Gguf(k, _) => k as int,
        Member::Unreadable(k) => k as int,
        Member::Nothing => all.len() as int,
    };
    if k < i {
        assert(modelpack::is_passed_over(all[k], style));
    }
    if i < k {
        assert(modelpack::is_passed_over(all[i], style));
    }
}

/// A blob that is a GGUF file is written whole, under the name that its path has;
/// any other blob is an archive, and what is found in it is unpacked or refused.
pub proof fn law_how_a_blob_is_unpacked(
    plan: &GgufPlan,
    title: &str,
    blob: &[u8],
    style: Style,
    gguf: bool,
    name: String,
    m: Member,
    r: Unpacking,
)
    requires
        call_ensures(modelpack::plan_unpacking, (plan, blob, style), r),
        call_ensures(modelpack::is_gguf_blob, (blob,), gguf),
        title@ == plan.title@,
        call_ensures(modelpack::cached_name, (title, style), name),
        call_ensures(modelpack::find_in_archive, (blob, style), m),
    ensures
        gguf <==> r is Whole,
        gguf ==> r->Whole_0@ == name@,
        !gguf ==> (m is Nothing <==> r is Nothing),
        !gguf && m is Unreadable ==> r == Unpacking::Unreadable(m->Unreadable_0),
        !gguf && m is Gguf ==> r is Member && r->Member_0 == m->Gguf_0 && paths::as_chars(
            r->Member_1@,
        ) == paths::as_chars(m->Gguf_1@),
{
    let all = archive::tar_paths(archive::readable(blob@));
    match r {
        Unpacking::Member(i, n) => lemma_held_once(all, style, m, Member::Gguf(i, n)),
        Unpacking::Unreadable(i) => lemma_held_once(all, style, m, Member::Unreadable(i)),
        Unpacking::Nothing => lemma_held_once(all, style, m, Member::Nothing),
        Unpacking::Whole(_) => {},
    }
}

/// Whether a layer's file is a configuration: its name is `config.json`.
pub open spec fn is_configuration(l: Descriptor, style: Style) -> bool {
    path_in(l) is Some && paths::name_of(path_in(l).unwrap(), style) == Some("config.json"@)
}

/// The configuration of a model is the first file of that name, whatever its
/// directory and the media type of its layer; without one there is none.
pub proof fn law_the_first_configuration_counts(
    layers: &Vec<Descriptor>,
    style: Style,
    i: int,
    r: Option<&String>,
)
    requires
        call_ensures(modelpack::config_path, (layers, style), r),
        0 <= i <= layers@.len(),
        forall|j: int| 0 <= j < i ==> !is_configuration(#[trigger] layers@[j], style),
        i < layers@.len() ==> is_configuration(layers@[i], style),
    ensures
        i == layers@.len() ==> r is None,
        i < layers@.len() ==> r is Some && r.unwrap()@ == path_in(layers@[i]).unwrap(),
{
    let all = layers@;
    assert forall|j: int| 0 <= j < all.len() implies #[trigger] modelpack::is_config(all[j], style)
        == is_configuration(all[j], style) by {}
    if r is Some {
        let k = choose|k: int|
            0 <= k < all.len() && modelpack::is_config(#[trigger] all[k], style)
                && modelpack::filepath(all[k]) == Some(r.unwrap()@) && forall|j: int|
                0 <= j < k ==> !modelpack::is_config(#[trigger] all[j], style);
        if k < i {
            assert(!is_configuration(all[k], style));
        }
        if i < k {
            assert(!modelpack::is_config(all[i], style));
        }
    } else if i < all.len() {
        assert(!modelpack::is_config(all[i], style));
    }
}

/// The refusals name what they refuse.
pub proof fn law_refusals_name_what_they_refuse(
    digest: &str,
    reference: &str,
    malformed: String,
    missing: String,
)
    requires
        call_ensures(modelpack::malformed_digest, (digest,), malformed),
        call_ensures(modelpack::no_gguf_in_archive, (reference,), missing),
    ensures
        malformed@ == "malformed digest: "@ + digest@,
        missing@ == "no .gguf in tar layer of "@ + reference@,
{
}

/// A model that cannot be served is refused with all the extensions that its files
/// have, in their order.
pub proof fn law_unservable_models_are_refused(reference: &str, exts: &Vec<String>, r: String)
    requires
        call_ensures(modelpack::unservable, (reference, exts), r),
    ensures
        exts@.len() == 0 ==> r@ == "no servable model layer found in "@ + reference@,
        exts@.len() > 0 ==> r@ == "no servable model layer in "@ + reference@ + " — found {"@
            + text::join_spec(exts@.map_values(|e: String| text::debug_text(e@)), ", "@)
            + "} files; llmman serve supports GGUF (llama-server) and safetensors (vllm)"@,
{
    assert(modelpack::quoted(text::texts(exts@)) =~= exts@.map_values(
        |e: String| text::debug_text(e@),
    ));
}

} // verus!
