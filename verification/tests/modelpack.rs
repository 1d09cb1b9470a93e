use std::path::{Path, PathBuf};

use llmman::keyed::TextMap;
use llmman::modelpack::{
    cached_name, config_path, digest_hex, extracted_path, find_in_archive, find_member,
    find_present, is_gguf_blob, is_gguf_layer, is_safetensors_layer, layer_filepath,
    malformed_digest, no_gguf_in_archive, plan_gguf, plan_unpacking, servable, unservable, Member,
    ModelPath, Present, Servable, Unpacking, HF_GGUF_MEDIA_TYPE,
};
use llmman::archive::{members, readable_len, size_in_records};
use llmman::paths::{extension, file_name, Style};
use llmman::storage::{Descriptor, Manifest};

#[test]
fn format_matches_variant() {
    assert_eq!(ModelPath::Gguf(PathBuf::from("/x/m.gguf")).format(), "gguf");
    assert_eq!(ModelPath::SafeTensors(PathBuf::from("/x")).format(), "safetensors");
}

#[test]
fn path_returns_inner_pathbuf() {
    let p = ModelPath::SafeTensors(PathBuf::from("/models/foo"));
    assert_eq!(p.path(), Path::new("/models/foo"));
}

fn layer(media_type: &str, digest: &str, annotations: &[(&str, &str)]) -> Descriptor {
    let mut map = TextMap::new();
    for (k, v) in annotations {
        map = map.with(k.to_string(), v.to_string());
    }
    Descriptor {
        media_type: media_type.to_string(),
        digest: digest.to_string(),
        size: 1,
        annotations: if annotations.is_empty() { None } else { Some(map) },
    }
}

fn file(path: &str) -> Descriptor {
    layer("x", "sha256:00ff", &[("org.cncf.model.filepath", path)])
}

fn manifest(layers: Vec<Descriptor>) -> Manifest {
    Manifest { layers }
}

#[test]
fn digests_are_split_at_the_first_colon() {
    assert_eq!(digest_hex("sha256:abcd"), Some("abcd".to_string()));
    assert_eq!(digest_hex("a:b:c"), Some("b:c".to_string()));
    assert_eq!(digest_hex("abcd"), None);
}

#[test]
fn a_layers_path_is_its_own_before_its_title() {
    let both = layer(
        "x",
        "d",
        &[("org.opencontainers.image.title", "t"), ("org.cncf.model.filepath", "p")],
    );
    assert_eq!(layer_filepath(&both).unwrap(), "p");
    let title = layer("x", "d", &[("org.opencontainers.image.title", "t")]);
    assert_eq!(layer_filepath(&title).unwrap(), "t");
    assert!(layer_filepath(&layer("x", "d", &[])).is_none());
}

#[test]
fn layers_are_known_by_type_or_by_name_in_any_case() {
    assert!(is_gguf_layer(&layer(HF_GGUF_MEDIA_TYPE, "d", &[])));
    assert!(is_gguf_layer(&file("dir/M.GGUF")));
    assert!(is_gguf_layer(&file("a.GguF")));
    assert!(!is_gguf_layer(&file("a.gguf.md")));
    assert!(is_safetensors_layer(&file("w.SafeTensors")));
    assert!(!is_safetensors_layer(&layer(HF_GGUF_MEDIA_TYPE, "d", &[])));
    // Case is Unicode's: the Kelvin sign is a letter k in lower case.
    assert!(!is_gguf_layer(&file("x.\u{212a}")));
}

#[test]
fn gguf_comes_before_safetensors() {
    let m = manifest(vec![file("w.safetensors"), file("a.gguf"), file("b.gguf")]);
    assert!(matches!(servable(&m, Style::Unix), Servable::Gguf(1)));
    let m = manifest(vec![file("config.json"), file("w.safetensors")]);
    assert!(matches!(servable(&m, Style::Unix), Servable::SafeTensors));
    let m = manifest(vec![file("a.TXT"), file("b.txt"), file("README"), file("c.onnx")]);
    match servable(&m, Style::Unix) {
        Servable::Nothing(exts) => assert_eq!(exts, vec!["txt", "onnx"]),
        _ => panic!(),
    }
    match servable(&manifest(vec![]), Style::Unix) {
        Servable::Nothing(exts) => assert!(exts.is_empty()),
        _ => panic!(),
    }
}

#[test]
fn a_gguf_file_that_is_there_is_not_unpacked() {
    let raw = plan_gguf(&layer(HF_GGUF_MEDIA_TYPE, "sha256:ab", &[])).unwrap();
    assert_eq!((raw.hex.as_str(), raw.raw, raw.title.as_str()), ("ab", true, "model.gguf"));
    let cached = vec!["notes.txt".to_string(), "m.gguf".to_string(), "n.gguf".to_string()];
    assert!(find_present(&raw, true, &cached, Style::Unix) == Present::Blob);
    assert!(find_present(&raw, false, &cached, Style::Unix) == Present::Cached(1));
    assert!(find_present(&raw, false, &vec![], Style::Unix) == Present::Nowhere);
    let packed = plan_gguf(&file("dir/m.gguf")).unwrap();
    assert_eq!((packed.raw, packed.title.as_str()), (false, "dir/m.gguf"));
    assert!(find_present(&packed, true, &cached, Style::Unix) == Present::Cached(1));
    assert!(plan_gguf(&layer("x", "no digest", &[])).is_none());
}

#[test]
fn blobs_are_told_from_archives_by_their_first_bytes() {
    assert!(is_gguf_blob(b"GGUF\x03\0\0\0"));
    assert!(is_gguf_blob(b"GGUF"));
    assert!(!is_gguf_blob(b"GGU"));
    assert!(!is_gguf_blob(b"GGUG...."));
}

#[test]
fn names_in_the_cache() {
    assert_eq!(cached_name("a/b/m.gguf", Style::Unix), "m.gguf");
    assert_eq!(cached_name("m.gguf/", Style::Unix), "m.gguf");
    assert_eq!(cached_name("..", Style::Unix), "model.gguf");
    assert_eq!(cached_name("", Style::Unix), "model.gguf");
}

#[test]
fn parts_of_paths_are_those_of_std() {
    for p in [
        "", "/", ".", "..", "a", "a/", "a//", "a/.", "./a", "a/..", "../a", "/a/b.c", "a.b/c", ".hidden",
        ".hidden.txt", "x.", "x..", "a.b.c", "...", "a/./b.gguf/.", "dir.ext/",
    ] {
        let std = Path::new(p);
        assert_eq!(file_name(p, Style::Unix), std.file_name().map(|n| n.to_str().unwrap().to_string()));
        assert_eq!(extension(p, Style::Unix), std.extension().map(|n| n.to_str().unwrap().to_string()));
    }
}

#[test]
fn prefixes_on_windows_are_no_names() {
    for (p, name) in [
        // A server and its share.
        (r"\\server\share", None),
        (r"\\server\share.gguf", None),
        (r"//server/share", None),
        (r"\\server\share\", None),
        (r"\\server\share\m.gguf", Some("m.gguf")),
        (r"\\server", Some("server")),
        (r"\\server\", Some("server")),
        (r"\\\a\b", Some("b")),
        // A device.
        (r"\\.\COM42", None),
        (r"\\.\COM42\m.gguf", Some("m.gguf")),
        (r"//./COM42", None),
        // Verbatim prefixes.
        (r"\\?\C:", None),
        (r"\\?\C:\m.gguf", Some("m.gguf")),
        (r"\\?\C:m.gguf", None),
        (r"\\?\pictures", None),
        (r"\\?\pictures\m.gguf", Some("m.gguf")),
        (r"\\?\UNC\server\share", None),
        (r"\\?\UNC\server\share\m.gguf", Some("m.gguf")),
        (r"\\?\UNC\server", None),
        // Behind them a slash is part of a name, and a dot is one.
        (r"\\?\C:\a/b.gguf", Some("a/b.gguf")),
        (r"\\?\C:\a\.", None),
        (r"\\?\C:\a\", Some("a")),
        // With slashes the prefix is that of a server and its share.
        (r"//?/C:", None),
        (r"//?/C:/a/.", Some("a")),
        // An ordinary path.
        (r"\m.gguf", Some("m.gguf")),
        (r"c:..\m.gguf", Some("m.gguf")),
    ] {
        assert_eq!(file_name(p, Style::Windows).as_deref(), name, "{p}");
    }
    assert_eq!(file_name(r"\\server\share", Style::Unix).as_deref(), Some(r"\\server\share"));
}

#[test]
fn windows_has_two_separators_and_drives() {
    for (p, name, ext) in [
        ("a\\b/m.gguf", Some("m.gguf"), Some("gguf")),
        ("a/b\\m.gguf", Some("m.gguf"), Some("gguf")),
        ("C:m.gguf", Some("m.gguf"), Some("gguf")),
        ("z:\\m", Some("m"), None),
        ("C:", None, None),
        ("a\\..", None, None),
        ("1:m.gguf", Some("1:m.gguf"), Some("gguf")),
    ] {
        assert_eq!(file_name(p, Style::Windows).as_deref(), name);
        assert_eq!(extension(p, Style::Windows).as_deref(), ext);
    }
    assert_eq!(file_name("a\\b.gguf", Style::Unix).as_deref(), Some("a\\b.gguf"));
    assert_eq!(cached_name("dir\\m.gguf", Style::Windows), "m.gguf");
}

#[test]
fn names_that_are_no_text_keep_their_bytes() {
    let members = vec![Some(b"dir/m\xff\xc3.gguf".to_vec())];
    match find_member(&members, Style::Unix) {
        Member::Gguf(0, name) => assert_eq!(name, b"m\xff\xc3.gguf"),
        _ => panic!(),
    }
    assert!(matches!(find_member(&members, Style::Windows), Member::Unreadable(0)));
    let text = vec![Some("dir\\m\u{e9}.gguf".as_bytes().to_vec())];
    match find_member(&text, Style::Windows) {
        Member::Gguf(0, name) => assert_eq!(name, "m\u{e9}.gguf".as_bytes()),
        _ => panic!(),
    }
}

/// The header of a sparse member whose map goes on, with a size in binary, and one
/// more block for the map.
fn sparse(path: &str, size: u64) -> Vec<u8> {
    let mut header = tar::Header::new_gnu();
    header.set_path(path).unwrap();
    header.set_entry_type(tar::EntryType::GNUSparse);
    header.set_size(size);
    header.as_gnu_mut().unwrap().set_is_extended(true);
    header.as_gnu_mut().unwrap().set_real_size(0);
    header.set_cksum();
    let mut blob = header.as_bytes().to_vec();
    blob.extend([0u8; 512]);
    blob
}

#[test]
fn archives_are_read_up_to_a_size_that_would_overflow() {
    // 2^64 - 1024, as the size of a sparse member.
    let vast = sparse("m.gguf", u64::MAX - 1023);
    assert_eq!(readable_len(&vast), 511);
    assert_eq!(members(&vast), vec![None]);
    assert!(matches!(find_in_archive(&vast, Style::Unix), Member::Unreadable(0)));
    // A GGUF file before it counts.
    let mut behind = archive(&["one.gguf"]);
    behind.truncate(1024);
    behind.extend(&vast);
    assert_eq!(readable_len(&behind), 1024 + 511);
    assert_eq!(members(&behind), vec![Some(b"one.gguf".to_vec()), None]);
    assert!(matches!(find_in_archive(&behind, Style::Unix), Member::Gguf(0, _)));
    // With a small size of its own, a record before it can still make it vast.
    let small = sparse("m.gguf", 0);
    assert_eq!(readable_len(&small), small.len());
    let mut builder = tar::Builder::new(Vec::new());
    let size = (u64::MAX - 1023).to_string();
    builder.append_pax_extensions([("size", size.as_bytes())]).unwrap();
    let mut pax = builder.into_inner().unwrap();
    pax.truncate(1024);
    pax.extend(&small);
    assert_eq!(readable_len(&pax), 1024 + 511);
    assert!(matches!(find_in_archive(&pax, Style::Unix), Member::Unreadable(0)));
    assert_eq!(members(&small), vec![Some(b"m.gguf".to_vec())]);
    // A size that does not bring the position to its end is left to the reader.
    let large = sparse("m.gguf", 1 << 62);
    assert_eq!(readable_len(&large), large.len());
    // An ordinary size of a record is no reason either.
    let mut builder = tar::Builder::new(Vec::new());
    builder.append_pax_extensions([("size", &b"123456789012345678"[..])]).unwrap();
    let mut plain = builder.into_inner().unwrap();
    plain.truncate(1024);
    plain.extend(&small);
    assert_eq!(readable_len(&plain), plain.len());
    assert_eq!(readable_len(&archive(&["a", "b"])), archive(&["a", "b"]).len());
}

#[test]
fn what_stands_in_a_file_is_no_header() {
    let record = b"27 size=18446744073709550592\n";
    let mut builder = tar::Builder::new(Vec::new());
    for (path, data) in [("notes", &record[..]), ("inner.tar", &sparse("x", u64::MAX - 1023)[..])] {
        let mut header = tar::Header::new_gnu();
        header.set_size(data.len() as u64);
        builder.append_data(&mut header, path, data).unwrap();
    }
    let mut blob = builder.into_inner().unwrap();
    blob.truncate(blob.len() - 1024);
    blob.extend(sparse("m.gguf", 0));
    assert_eq!(readable_len(&blob), blob.len());
    assert_eq!(
        members(&blob),
        ["notes", "inner.tar", "m.gguf"].map(|p| Some(p.as_bytes().to_vec())).to_vec()
    );
    assert!(matches!(find_in_archive(&blob, Style::Unix), Member::Gguf(2, _)));
}

#[test]
fn a_record_counts_for_the_member_behind_it() {
    let record = |key: &str, value: &str| Some((key.as_bytes().to_vec(), value.as_bytes().to_vec()));
    assert_eq!(size_in_records(&vec![record("path", "p"), record("size", "12")]), Some(12));
    assert_eq!(size_in_records(&vec![record("size", "+7"), record("size", "8")]), Some(7));
    assert_eq!(size_in_records(&vec![None, record("size", "12")]), None);
    assert_eq!(size_in_records(&vec![record("size", "x"), record("size", "12")]), None);
    assert_eq!(size_in_records(&vec![record("size", "18446744073709551616")]), None);
    let vast = record("size", "18446744073709551615");
    assert_eq!(size_in_records(&vec![vast]), Some(u64::MAX));
    // A member between the records and the sparse one uses them up, and ends what can
    // be read.
    let mut builder = tar::Builder::new(Vec::new());
    builder.append_pax_extensions([("size", &b"3"[..])]).unwrap();
    let mut header = tar::Header::new_gnu();
    header.set_size(0);
    builder.append_data(&mut header, "small", &b"abc"[..]).unwrap();
    let mut blob = builder.into_inner().unwrap();
    blob.truncate(blob.len() - 1024);
    let n = blob.len();
    blob.extend(sparse("m.gguf", 0));
    assert_eq!(readable_len(&blob), blob.len());
    blob.truncate(n);
    blob.extend(sparse("m.gguf", u64::MAX - 511));
    assert_eq!(readable_len(&blob), n + 511);
    assert_eq!(members(&blob), vec![Some(b"small".to_vec()), None]);
}

fn archive(members: &[&str]) -> Vec<u8> {
    let mut builder = tar::Builder::new(Vec::new());
    for m in members {
        let mut header = tar::Header::new_gnu();
        header.set_size(3);
        header.set_mode(0o644);
        builder.append_data(&mut header, m, &b"abc"[..]).unwrap();
    }
    builder.into_inner().unwrap()
}

#[test]
fn the_first_gguf_member_of_an_archive_counts() {
    let blob = archive(&["readme.md", "dir/one.gguf", "two.gguf"]);
    match find_in_archive(&blob, Style::Unix) {
        Member::Gguf(i, name) => assert_eq!((i, name.as_slice()), (1, &b"one.gguf"[..])),
        _ => panic!(),
    }
    assert!(matches!(find_in_archive(&archive(&["readme.md"]), Style::Unix), Member::Nothing));
    assert!(matches!(find_in_archive(&[], Style::Unix), Member::Nothing));
    assert!(matches!(find_in_archive(&[1u8; 512], Style::Unix), Member::Unreadable(0)));
    // What comes before a broken member counts.
    let mut torn = archive(&["dir/one.gguf", "two.gguf"]);
    torn.truncate(1024 + 100);
    assert!(matches!(find_in_archive(&torn, Style::Unix), Member::Gguf(0, _)));
}

#[test]
fn a_broken_member_hides_what_follows() {
    let members = vec![Some(b"a.txt".to_vec()), None, Some(b"b.gguf".to_vec())];
    assert!(matches!(find_member(&members, Style::Unix), Member::Unreadable(1)));
}

#[test]
fn weights_and_configuration_are_extracted() {
    let weight = layer(
        "application/vnd.cncf.model.weight.v1.raw",
        "sha256:1",
        &[("org.cncf.model.filepath", "m/w.safetensors")],
    );
    let config = layer(
        "application/vnd.cncf.model.weight.config.v1.raw",
        "sha256:2",
        &[("org.cncf.model.filepath", "m/config.json")],
    );
    let doc = layer(
        "application/vnd.cncf.model.doc.v1.raw",
        "sha256:3",
        &[("org.cncf.model.filepath", "README.md")],
    );
    let nameless = layer("application/vnd.cncf.model.weight.v1.raw", "sha256:4", &[]);
    assert_eq!(extracted_path(&weight).unwrap(), "m/w.safetensors");
    assert_eq!(extracted_path(&config).unwrap(), "m/config.json");
    assert!(extracted_path(&doc).is_none());
    assert!(extracted_path(&nameless).is_none());
    let layers = vec![weight, doc, config, file("other/config.json")];
    assert_eq!(config_path(&layers, Style::Unix).unwrap(), "m/config.json");
    assert!(config_path(&vec![file("myconfig.json")], Style::Unix).is_none());
}

#[test]
fn a_blob_is_written_whole_or_unpacked() {
    let plan = plan_gguf(&file("dir/m.gguf")).unwrap();
    assert!(matches!(plan_unpacking(&plan, b"GGUF...", Style::Unix), Unpacking::Whole(n) if n == "m.gguf"));
    let blob = archive(&["readme.md", "dir/one.gguf"]);
    assert!(matches!(plan_unpacking(&plan, &blob, Style::Unix), Unpacking::Member(1, n) if n == b"one.gguf"));
    assert!(matches!(plan_unpacking(&plan, &archive(&["a"]), Style::Unix), Unpacking::Nothing));
    assert!(matches!(plan_unpacking(&plan, &[1u8; 512], Style::Unix), Unpacking::Unreadable(0)));
}

#[test]
fn refusals_tell_what_is_there() {
    assert_eq!(malformed_digest("abc"), "malformed digest: abc");
    assert_eq!(no_gguf_in_archive("m"), "no .gguf in tar layer of m");
    assert_eq!(unservable("m", &vec![]), "no servable model layer found in m");
    let exts = vec!["txt".to_string(), "a\"b".to_string()];
    assert_eq!(
        unservable("m", &exts),
        "no servable model layer in m — found {\"txt\", \"a\\\"b\"} files; \
         llmman serve supports GGUF (llama-server) and safetensors (vllm)"
    );
}
