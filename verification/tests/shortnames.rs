use llmman::keyed::TextMap;
use llmman::shortnames::{
    config_paths, has_host, is_bare, load_aliases, resolve, resolve_ollama_api, Alias, Aliases,
    Conf, ConfigBase,
};
use llmman::storage::{canonical_ref, default_tag, Descriptor};

fn none() -> Aliases {
    TextMap::new()
}

fn conf(entries: &[(&str, &str)]) -> Option<Conf> {
    Some(Conf {
        aliases: entries
            .iter()
            .map(|(n, t)| Alias { name: n.to_string(), target: t.to_string() })
            .collect(),
    })
}

#[test]
fn resolve_ollama_api_defaults_bare_names_to_docker_ai() {
    assert_eq!(resolve_ollama_api("gemma4", &none()), "docker.io/ai/gemma4");
    assert_eq!(resolve_ollama_api("gemma4:e4b", &none()), "docker.io/ai/gemma4:e4b");
}

#[test]
fn resolve_ollama_api_leaves_structured_references_to_resolve() {
    let t = none();
    // Owner/repo (has a "/") falls back to resolve()'s hf.co default.
    assert_eq!(
        resolve_ollama_api("unsloth/Qwen3.5-0.8B-GGUF", &t),
        resolve("unsloth/Qwen3.5-0.8B-GGUF", &t)
    );
    // Already has an explicit host.
    assert_eq!(resolve_ollama_api("hf.co/foo/bar", &t), "hf.co/foo/bar");
    assert_eq!(resolve_ollama_api("docker.io/ai/gemma4", &t), "docker.io/ai/gemma4");
    // A dot (e.g. a dotted version number) disqualifies "bare" even without a "/".
    assert_eq!(resolve_ollama_api("qwen3.5", &t), resolve("qwen3.5", &t));
}

#[test]
fn resolve_ollama_api_matches_resolve_for_uri_schemes_and_paths() {
    let t = none();
    assert_eq!(
        resolve_ollama_api("hf://unsloth/Qwen3.5-0.8B-GGUF", &t),
        resolve("hf://unsloth/Qwen3.5-0.8B-GGUF", &t)
    );
    assert_eq!(resolve_ollama_api("/abs/path/model.gguf", &t), "/abs/path/model.gguf");
}

#[test]
fn is_bare_rejects_slashes_and_dots() {
    assert!(is_bare("gemma4"));
    assert!(is_bare("gemma4:e4b"));
    assert!(!is_bare("unsloth/gemma4"));
    assert!(!is_bare("qwen3.5"));
    assert!(!is_bare("hf.co/gemma4"));
}

#[test]
fn has_host_looks_at_the_first_part_only() {
    assert!(has_host("hf.co/a/b"));
    assert!(has_host("localhost/a"));
    assert!(has_host("LocalHost/a"));
    assert!(has_host("qwen3.5"));
    assert!(!has_host("owner/repo.v2"));
    assert!(!has_host("localhost:5000/a"));
    assert!(!has_host(""));
}

#[test]
fn resolve_follows_schemes_hosts_and_the_default() {
    let none = none();
    assert_eq!(resolve("owner/repo", &none), "hf.co/owner/repo");
    assert_eq!(resolve("hf://owner/repo", &none), "hf.co/owner/repo");
    assert_eq!(resolve("huggingface://owner/repo", &none), "hf.co/owner/repo");
    assert_eq!(resolve("modelscope://owner/repo", &none), "ms://owner/repo");
    assert_eq!(resolve("ms://owner/repo", &none), "ms://owner/repo");
    assert_eq!(resolve("registry.example.com/a:b", &none), "registry.example.com/a:b");
    for verbatim in ["ngc://a/b", "s3://bucket/key", "gs://bucket/key", "/abs/model"] {
        assert_eq!(resolve(verbatim, &none), verbatim);
    }
    assert_eq!(resolve("gemma4", &none), "hf.co/gemma4");
}

#[test]
fn resolving_twice_is_resolving_once() {
    let none = none();
    for r in ["owner/repo", "hf://a/b", "modelscope://x", "qwen3.5", "/p", "s3://b", "", "hf://hf.co/x"] {
        let once = resolve(r, &none);
        assert_eq!(resolve(&once, &none), once);
        let api = resolve_ollama_api(r, &none);
        assert_eq!(resolve_ollama_api(&api, &none), api);
    }
}

#[test]
fn aliases_come_before_defaults_and_later_files_win() {
    let table = load_aliases(&vec![
        conf(&[("small", "docker.io/ai/one"), ("big", "hf.co/big/one")]),
        None,
        conf(&[("small", "docker.io/ai/two")]),
    ]);
    assert_eq!(resolve("small", &table), "docker.io/ai/two");
    assert_eq!(resolve_ollama_api("small", &table), "docker.io/ai/two");
    assert_eq!(resolve("hf://big", &table), "hf.co/big/one");
    assert_eq!(resolve("other", &table), "hf.co/other");
    // A verbatim reference is never an alias.
    let odd = load_aliases(&vec![conf(&[("/p", "x"), ("ms://m", "y")])]);
    assert_eq!(resolve("/p", &odd), "/p");
    assert_eq!(resolve("ms://m", &odd), "ms://m");
}

#[test]
fn config_paths_are_in_ascending_priority() {
    let all = config_paths(true, true, Some("/my/conf"));
    let shown: Vec<(ConfigBase, &str)> = all.iter().map(|p| (p.base, p.rest.as_str())).collect();
    assert!(
        shown
            == vec![
                (ConfigBase::Root, "/usr/share/llmman/shortnames.conf"),
                (ConfigBase::Root, "/etc/llmman/shortnames.conf"),
                (ConfigBase::ProgramDir, "../share/llmman/shortnames.conf"),
                (ConfigBase::ProgramDir, "shortnames.conf"),
                (ConfigBase::ConfigDir, "llmman/shortnames.conf"),
                (ConfigBase::Environment, "/my/conf"),
            ]
    );
    assert_eq!(config_paths(false, false, None).len(), 2);
    assert_eq!(config_paths(false, false, Some("")).len(), 2);
}

#[test]
fn default_tag_is_given_once_and_only_where_one_is_missing() {
    assert_eq!(default_tag("docker.io/ai/gemma4"), "docker.io/ai/gemma4:latest");
    assert_eq!(default_tag("docker.io/ai/gemma4:e4b"), "docker.io/ai/gemma4:e4b");
    // The colon of a port is no tag.
    assert_eq!(default_tag("localhost:5000/repo"), "localhost:5000/repo:latest");
    assert_eq!(default_tag("repo@sha256:abc"), "repo@sha256:abc");
    assert_eq!(default_tag(&default_tag("a/b")), "a/b:latest");
}

#[test]
fn tagless_and_latest_come_down_to_one_name() {
    for r in ["gemma4", "owner/repo", "hf://owner/repo", "modelscope://a", "/abs/p", "s3://b/k", "q3.5"] {
        let a = default_tag(&resolve_ollama_api(r, &none()));
        let b = default_tag(&resolve_ollama_api(&format!("{r}:latest"), &none()));
        assert_eq!(a, b);
    }
}

#[test]
fn canonical_ref_is_the_name_in_the_store() {
    let key = "org.opencontainers.image.ref.name".to_string();
    let with = |annotations| {
        Some(Descriptor {
            media_type: String::new(),
            digest: "sha256:ab".to_string(),
            size: 1,
            annotations,
        })
    };
    let named = with(Some(TextMap::new().with(key, "hf.co/repo:latest".to_string())));
    assert_eq!(canonical_ref(&named, "hf.co/repo"), "hf.co/repo:latest");
    assert_eq!(canonical_ref(&with(Some(TextMap::new())), "hf.co/repo"), "hf.co/repo");
    assert_eq!(canonical_ref(&with(None), "hf.co/repo"), "hf.co/repo");
    assert_eq!(canonical_ref(&None, "hf.co/repo"), "hf.co/repo");
}

#[test]
fn a_resolved_name_is_resolved_to_itself() {
    let t = none();
    for name in ["gemma4", "gemma4:3.5", "owner/repo", "hf://a/b", "modelscope://x", "/a/b", "s3://b"] {
        let once = resolve_ollama_api(name, &t);
        assert_eq!(resolve_ollama_api(&once, &t), once);
    }
    // A local host behind a scheme is left bare, and is taken for a name.
    let once = resolve_ollama_api("hf://localhost", &t);
    assert_eq!(once, "localhost");
    assert_eq!(resolve_ollama_api(&once, &t), "docker.io/ai/localhost");
}
