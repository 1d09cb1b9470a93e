use std::sync::Arc;
use std::time::{Duration, SystemTime};

use llmman::cmd::list::Image;
use llmman::cmd::serve::api::{
    context_length, end_line, error_body, error_line, model_info, not_found, openai_model,
    openai_models, progress_line, running_info, show_response, status_line, version_response,
    wants_html, OllamaPullRequest, OllamaPushRequest, OllamaShowRequest, TransferEnd, MODEL_REQUIRED,
};
use llmman::cmd::serve::engine::{
    binary_source, binary_step, engine_url, gpu_visible_device_vars, llama_server_args,
    not_on_path, start_failure, vllm_args, BinarySource, BinaryStep, Engine, EngineKind,
    OutputTail, TAIL_LINES,
};
use llmman::cmd::serve::load::{LoadAction, LoadEvent, Loader, Phase};
use llmman::cmd::serve::props::props;
use llmman::cmd::serve::registry::{KeyedLocks, ModelManager, RunningModel};
use llmman::cmd::serve::start::{ServeArgs, ServePlan, LISTEN_ADDRESS};
use llmman::container::ContainerManager;
use llmman::ffi::ProgressSnapshot;
use llmman::keyed::TextMap;
use llmman::shortnames::resolve_ollama_api;
use llmman::storage::{default_tag, Descriptor};
use serde_json::Value;

fn json(s: &str) -> Value {
    serde_json::from_str(s).unwrap()
}

// ---------------------------------------------------------------------------
// Locks
// ---------------------------------------------------------------------------

fn lock(registry: &mut KeyedLocks<Arc<()>>, key: &str) -> Arc<()> {
    registry.keyed_lock(key, Arc::new(()));
    registry.get(key).unwrap().clone()
}

fn release(registry: &mut KeyedLocks<Arc<()>>, key: &str) {
    let holders = registry.get(key).map_or(0, Arc::strong_count);
    registry.release_keyed_lock(key, holders);
}

#[test]
fn keyed_lock_is_per_key_and_release_only_drops_unreferenced_entries() {
    let mut registry: KeyedLocks<Arc<()>> = KeyedLocks::new();

    let a1 = lock(&mut registry, "model-a");
    let a2 = lock(&mut registry, "model-a");
    assert!(Arc::ptr_eq(&a1, &a2), "same key must return the same lock");

    let b = lock(&mut registry, "model-b");
    assert!(!Arc::ptr_eq(&a1, &b), "different keys must not share a lock");

    // The first caller lets go of its copy, but the second still holds one, so
    // the entry must survive.
    drop(a1);
    release(&mut registry, "model-a");
    assert!(registry.get("model-a").is_some());

    // The second one lets go too: only the registry itself holds it now.
    drop(a2);
    release(&mut registry, "model-a");
    assert!(registry.get("model-a").is_none());

    drop(b);
    assert!(registry.get("model-b").is_some());
}

/// Aliases of a model that was not pulled yet must key into one lock.
#[test]
fn ensure_model_key_pipeline_converges_aliases_before_the_lock() {
    let none = TextMap::new();
    let tagless = default_tag(&resolve_ollama_api("regression-test-model", &none));
    let tagged = default_tag(&resolve_ollama_api("regression-test-model:latest", &none));
    assert_eq!(tagless, tagged, "tagless and :latest aliases must resolve to one key");

    let mut registry: KeyedLocks<Arc<()>> = KeyedLocks::new();
    let a = lock(&mut registry, &tagless);
    let b = lock(&mut registry, &tagged);
    assert!(Arc::ptr_eq(&a, &b), "both aliases must take the same load lock");

    drop(a);
    drop(b);
    release(&mut registry, &tagless);
    assert!(registry.get(&tagless).is_none());
}

#[test]
fn a_lock_nobody_has_is_released_without_harm() {
    let mut registry: KeyedLocks<Arc<()>> = KeyedLocks::new();
    release(&mut registry, "none");
    assert!(registry.get("none").is_none());
}

// ---------------------------------------------------------------------------
// Running models
// ---------------------------------------------------------------------------

fn running(process: u32, port: u16) -> RunningModel<u32> {
    RunningModel {
        process,
        kind: EngineKind::Local(Engine::LlamaServer),
        port,
        digest: format!("sha256:{port}"),
        size: 1,
        started_at: "2024-01-02T03:04:05Z".to_string(),
    }
}

#[test]
fn a_model_runs_until_its_process_ends_or_it_is_unloaded() {
    let mut models: ModelManager<u32> = ModelManager::new();
    assert_eq!(models.check_running("a", true), None);
    models.publish("a".to_string(), running(1, 10));
    models.publish("b".to_string(), running(2, 20));
    assert_eq!(models.check_running("a", true), Some(10));
    *models.process_mut("a").unwrap() = 7;
    assert_eq!(*models.process_mut("a").unwrap(), 7);
    assert!(models.process_mut("c").is_none());
    // Its process has ended.
    assert_eq!(models.check_running("a", false), None);
    assert!(!models.is_loaded("a"));
    assert!(models.is_loaded("b"));
    assert_eq!(models.unload("b").unwrap().port, 20);
    assert!(models.unload("b").is_none());
    assert_eq!(models.len(), 0);
}

#[test]
fn a_model_is_stamped_when_it_comes_to_run() {
    let kind = EngineKind::Local(Engine::Vllm);
    let m = RunningModel::started(7u32, kind, 80, "sha256:1".to_string(), 5);
    assert_eq!((m.process, m.kind, m.port, m.digest.as_str(), m.size), (7, kind, 80, "sha256:1", 5));
    assert!(m.started_at.ends_with('Z'));
    assert!(chrono::DateTime::parse_from_rfc3339(&m.started_at).unwrap().timestamp() > 1_577_836_800);
}

#[test]
fn every_running_model_is_listed_once() {
    let mut models: ModelManager<u32> = ModelManager::new();
    models.publish("a".to_string(), running(1, 10));
    models.publish("b".to_string(), running(2, 20));
    models.publish("a".to_string(), running(3, 30));
    let mut all: Vec<(String, u16)> = (0..models.len())
        .map(|i| {
            let (name, m) = models.entry(i);
            (name.clone(), m.port)
        })
        .collect();
    all.sort();
    assert_eq!(all, vec![("a".to_string(), 30), ("b".to_string(), 20)]);
    models.clear();
    assert_eq!(models.len(), 0);
    assert!(!models.is_loaded("a"));
}

// ---------------------------------------------------------------------------
// Loading
// ---------------------------------------------------------------------------

fn found(reference: Option<&str>) -> LoadEvent {
    let mut annotations = TextMap::new();
    if let Some(r) = reference {
        annotations =
            annotations.with("org.opencontainers.image.ref.name".to_string(), r.to_string());
    }
    LoadEvent::Found(Some(Descriptor {
        media_type: "application/vnd.oci.image.manifest.v1+json".to_string(),
        digest: "sha256:00".to_string(),
        size: 1,
        annotations: Some(annotations),
    }))
}

#[test]
fn a_model_that_runs_is_used_without_a_lock() {
    let mut l = Loader::begin("gemma", &TextMap::new());
    assert_eq!(l.name(), "docker.io/ai/gemma:latest");
    assert_eq!(l.step(LoadEvent::Found(None)), LoadAction::Look);
    assert_eq!(l.step(LoadEvent::Port(Some(9))), LoadAction::Done { port: 9, fresh: false });
    assert!(l.lock_key().is_none());
    assert_eq!(l.phase(), Phase::Running);
}

#[test]
fn a_missing_model_is_pulled_and_started_under_its_lock() {
    let mut l = Loader::begin("gemma", &TextMap::new());
    assert_eq!(l.step(LoadEvent::Found(None)), LoadAction::Look);
    assert_eq!(l.step(LoadEvent::Port(None)), LoadAction::Lock);
    assert_eq!(l.step(LoadEvent::Locked), LoadAction::Look);
    assert_eq!(l.lock_key().unwrap(), "docker.io/ai/gemma:latest");
    assert_eq!(l.step(LoadEvent::Port(None)), LoadAction::Find);
    assert_eq!(l.step(LoadEvent::Found(None)), LoadAction::Pull);
    assert_eq!(l.step(LoadEvent::Pulled), LoadAction::Find);
    assert_eq!(l.step(found(Some("docker.io/ai/gemma:E2B"))), LoadAction::Look);
    // The store has another name for it; the lock stays.
    assert_eq!(l.name(), "docker.io/ai/gemma:E2B");
    assert_eq!(l.lock_key().unwrap(), "docker.io/ai/gemma:latest");
    assert_eq!(l.step(LoadEvent::Port(None)), LoadAction::Launch);
    assert_eq!(l.step(LoadEvent::Launched(80)), LoadAction::Done { port: 80, fresh: true });
}

#[test]
fn a_model_that_came_to_run_meanwhile_is_not_started_again() {
    let mut l = Loader::begin("gemma", &TextMap::new());
    l.step(found(None));
    l.step(LoadEvent::Port(None));
    l.step(LoadEvent::Locked);
    assert_eq!(l.step(LoadEvent::Port(Some(4))), LoadAction::Done { port: 4, fresh: false });
    // Found in the store, and running under the store's name for it.
    let mut l = Loader::begin("gemma", &TextMap::new());
    l.step(LoadEvent::Found(None));
    l.step(LoadEvent::Port(None));
    l.step(LoadEvent::Locked);
    l.step(LoadEvent::Port(None));
    assert_eq!(l.step(found(None)), LoadAction::Look);
    assert_eq!(l.step(LoadEvent::Port(Some(5))), LoadAction::Done { port: 5, fresh: false });
}

#[test]
fn tagless_and_latest_share_a_lock() {
    let none = TextMap::new();
    for name in ["gemma", "owner/repo", "hf.co/owner/repo", "/a/b"] {
        let tagged = format!("{name}:latest");
        assert_eq!(Loader::begin(name, &none).name(), Loader::begin(&tagged, &none).name());
    }
}

// ---------------------------------------------------------------------------
// Engines
// ---------------------------------------------------------------------------

#[test]
fn engines_are_chosen_by_the_format() {
    let k = EngineKind::for_model(true, None);
    assert_eq!((k, k.processor().as_str()), (EngineKind::Local(Engine::LlamaServer), "llama-server (local)"));
    let k = EngineKind::for_model(true, Some(ContainerManager::Podman));
    assert_eq!(k.processor(), "llama-server (container/podman)");
    let k = EngineKind::for_model(false, Some(ContainerManager::Docker));
    assert_eq!((k, k.processor().as_str()), (EngineKind::Local(Engine::Vllm), "vllm (local)"));
}

#[test]
fn arguments_of_engines() {
    assert_eq!(
        llama_server_args("/m.gguf", 8080, None),
        vec!["--model", "/m.gguf", "--port", "8080", "--host", "127.0.0.1"]
    );
    assert_eq!(
        llama_server_args("/m.gguf", 1, Some(4096)),
        vec!["--model", "/m.gguf", "--port", "1", "--host", "127.0.0.1", "--ctx-size", "4096"]
    );
    let plain = vllm_args("/dir", 8080, "name", None);
    assert_eq!(
        plain,
        vec!["serve", "/dir", "--port", "8080", "--host", "127.0.0.1", "--served-model-name", "name"]
    );
    let more = vllm_args("/dir", 8080, "name", Some("  --a  b\t--c\n"));
    assert_eq!(more[..8], plain[..]);
    assert_eq!(more[8..], ["--a", "b", "--c"]);
    assert_eq!(
        gpu_visible_device_vars(),
        vec!["CUDA_VISIBLE_DEVICES", "HIP_VISIBLE_DEVICES", "ROCR_VISIBLE_DEVICES", "GGML_VK_VISIBLE_DEVICES"]
    );
    assert_eq!(engine_url(8080, "/health"), "http://127.0.0.1:8080/health");
    assert_eq!(not_on_path("vllm"), "vllm not found on PATH");
}

#[test]
fn the_program_of_the_engine() {
    assert_eq!(binary_source(false, true), BinarySource::OnPath);
    assert_eq!(binary_source(true, true), BinarySource::Release);
    assert_eq!(binary_source(false, false), BinarySource::Release);
    assert_eq!(binary_step(false, true), BinaryStep::Missing);
    assert_eq!(binary_step(true, true), BinaryStep::Use);
    assert_eq!(binary_step(true, false), BinaryStep::Resolve);
}

#[test]
fn the_last_lines_of_an_engine_are_kept() {
    let mut tail = OutputTail::new();
    assert!(tail.detail().is_none());
    for i in 0..TAIL_LINES + 5 {
        tail.push(i.to_string());
    }
    let expected: Vec<String> = (5..TAIL_LINES + 5).map(|i| i.to_string()).collect();
    assert_eq!(tail.detail().unwrap(), expected.join(" | "));
}

#[test]
fn a_start_fails_late_or_with_the_process() {
    let mut tail = OutputTail::new();
    assert_eq!(start_failure(80, false, true, Some(&tail)), None);
    assert_eq!(
        start_failure(80, true, false, None).unwrap(),
        "inference server on port 80 did not become ready within 600s"
    );
    let exited = "inference server on port 80 exited before becoming ready";
    assert_eq!(start_failure(80, false, false, None).unwrap(), exited);
    assert_eq!(start_failure(80, false, false, Some(&tail)).unwrap(), exited);
    tail.push("a".to_string());
    tail.push("b".to_string());
    assert_eq!(start_failure(80, false, false, Some(&tail)).unwrap(), format!("{exited}: a | b"));
}

fn serve_args() -> ServeArgs<String> {
    ServeArgs {
        model: None,
        store: None,
        ociman: None,
        llama_cpp_version: None,
        pull_oci: false,
        pull_bin: false,
        ctx_size: None,
    }
}

#[test]
fn what_a_server_does_first() {
    assert_eq!(LISTEN_ADDRESS, "127.0.0.1:17434");
    let mut a = serve_args();
    assert_eq!(a.plan(false), ServePlan::Serve { needs_binary: true });
    a.pull_bin = true;
    assert_eq!(a.plan(false), ServePlan::PullBinary);
    a.pull_oci = true;
    assert_eq!(a.plan(true), ServePlan::NoManager);
    assert_eq!(a.plan(true).refusal(), Some("--pull-oci requires --ociman"));
    a.ociman = Some(ContainerManager::Docker);
    assert_eq!(a.plan(true), ServePlan::PullImage(ContainerManager::Docker));
    assert_eq!(a.plan(false).refusal(), Some("--ociman is only supported on Linux"));
    a.pull_oci = false;
    a.pull_bin = false;
    assert_eq!(a.plan(true), ServePlan::Serve { needs_binary: false });
    assert_eq!(a.plan(true).refusal(), None);
}

// ---------------------------------------------------------------------------
// Replies
// ---------------------------------------------------------------------------

#[test]
fn ollama_pull_request_accepts_a_name_only_body() {
    let none = TextMap::new();
    let req = OllamaPullRequest { model: String::new(), name: "docker.io/ai/gemma4:E2B".to_string() };
    assert_eq!(req.model, "");
    assert_eq!(req.name, "docker.io/ai/gemma4:E2B");
    assert_eq!(req.reference(&none).unwrap(), "docker.io/ai/gemma4:E2B");
}

#[test]
fn ollama_pull_request_accepts_a_model_only_body() {
    let none = TextMap::new();
    let req = OllamaPullRequest { model: "docker.io/ai/gemma4:E2B".to_string(), name: String::new() };
    assert_eq!(req.model, "docker.io/ai/gemma4:E2B");
    assert_eq!(req.name, "");
    assert_eq!(req.reference(&none).unwrap(), "docker.io/ai/gemma4:E2B");
}

#[test]
fn ollama_push_request_accepts_a_name_only_body() {
    let none = TextMap::new();
    let req = OllamaPushRequest { model: String::new(), name: "docker.io/ai/gemma4:E2B".to_string() };
    assert_eq!(req.model, "");
    assert_eq!(req.name, "docker.io/ai/gemma4:E2B");
    assert_eq!(req.reference(&none).unwrap(), "docker.io/ai/gemma4:E2B");
}

#[test]
fn models_are_named_in_two_ways() {
    let none = TextMap::new();
    let nameless = OllamaPullRequest { model: String::new(), name: String::new() };
    assert!(nameless.reference(&none).is_none());
    let both = OllamaPullRequest { model: "a".to_string(), name: "b".to_string() };
    assert_eq!(both.reference(&none).unwrap(), "docker.io/ai/a");
    let show = OllamaShowRequest { model: "a".to_string(), name: Some("b".to_string()) };
    assert_eq!(show.reference(&none), "docker.io/ai/b");
    let show = OllamaShowRequest { model: "a".to_string(), name: Some(String::new()) };
    assert_eq!(show.reference(&none), "docker.io/ai/a");
    let show = OllamaShowRequest { model: "a".to_string(), name: None };
    assert_eq!(show.reference(&none), "docker.io/ai/a");
    assert_eq!(MODEL_REQUIRED, "model is required");
    assert_eq!(not_found("x"), "model not found: x");
}

#[test]
fn browsers_get_the_page() {
    assert!(wants_html(Some("text/html,application/xhtml+xml")));
    assert!(!wants_html(Some("*/*")));
    assert!(!wants_html(None));
}

#[test]
fn transfers_are_reported_line_by_line() {
    assert_eq!(status_line("pulling x"), "{\"status\":\"pulling x\"}\n");
    assert_eq!(error_line("a \"b\""), "{\"error\":\"a \\\"b\\\"\"}\n");
    assert_eq!(error_body("e"), json(r#"{"error":"e"}"#));
    assert_eq!(end_line("pull", &TransferEnd::Success), "{\"status\":\"success\"}\n");
    assert_eq!(end_line("pull", &TransferEnd::Failed("no".to_string())), "{\"error\":\"no\"}\n");
    assert_eq!(
        end_line("push", &TransferEnd::Broken("why".to_string())),
        "{\"error\":\"push task panicked: why\"}\n"
    );
}

fn progress(status: &str, total: i64, completed: i64) -> ProgressSnapshot {
    ProgressSnapshot { status: status.to_string(), total, completed }
}

#[test]
fn progress_never_leaves_its_range() {
    let line = |p: Option<&ProgressSnapshot>| json(&progress_line("pull", "m", p));
    assert_eq!(line(None), json(r#"{"status":"pulling m"}"#));
    assert_eq!(line(Some(&progress("", 0, 5))), json(r#"{"status":"pulling m"}"#));
    assert_eq!(line(Some(&progress("checking", -1, 5))), json(r#"{"status":"checking"}"#));
    let bytes = |completed| line(Some(&progress("s", 10, completed)))["completed"].clone();
    assert_eq!((bytes(-3), bytes(4), bytes(11)), (json("0"), json("4"), json("10")));
    assert_eq!(
        line(Some(&progress("", 10, 3))),
        json(r#"{"status":"pulling m","total":10,"completed":3}"#)
    );
}

#[test]
fn models_of_the_store_are_listed_with_their_time() {
    let mut image = Image {
        reference: "r".to_string(),
        digest: "sha256:1".to_string(),
        size: u64::MAX,
        modified_at: Some(SystemTime::UNIX_EPOCH + Duration::new(1_704_164_645, 999)),
    };
    let info = model_info(&image);
    assert_eq!((info.name.as_str(), info.model.as_str(), info.size), ("r", "r", u64::MAX));
    assert_eq!((info.digest.as_str(), info.modified_at.as_str()), ("sha256:1", "2024-01-02T03:04:05+00:00"));
    assert_eq!((info.details.format.as_str(), info.details.family.as_str()), ("gguf", ""));
    // Without a time, or with one before 1970, the clock is taken.
    for t in [None, Some(SystemTime::UNIX_EPOCH - Duration::new(1, 0))] {
        image.modified_at = t;
        let stamp = model_info(&image).modified_at;
        assert!(chrono::DateTime::parse_from_rfc3339(&stamp).unwrap().timestamp() > 1_577_836_800);
    }
}

#[test]
fn running_models_are_listed_with_their_engine() {
    let r = running_info(
        "n",
        "d",
        3,
        80,
        Some(7),
        EngineKind::Container(ContainerManager::Docker),
        "t",
        Some(4096),
    );
    assert_eq!((r.name.as_str(), r.model.as_str(), r.digest.as_str()), ("n", "n", "d"));
    assert_eq!((r.size, r.size_vram, r.port, r.pid), (3, 0, 80, Some(7)));
    assert_eq!(r.processor, "llama-server (container/docker)");
    assert_eq!((r.context_length, r.started_at.as_str()), (Some(4096), "t"));
}

#[test]
fn contexts_are_read_from_what_engines_tell() {
    assert_eq!(context_length(&json(r#"{"default_generation_settings":{"n_ctx":4096}}"#)), Some(4096));
    assert_eq!(
        context_length(&json(r#"{"default_generation_settings":{"n_ctx":18446744073709551615}}"#)),
        Some(u64::MAX)
    );
    assert_eq!(context_length(&json(r#"{"default_generation_settings":{"n_ctx":-1}}"#)), None);
    assert_eq!(context_length(&json(r#"{"default_generation_settings":{}}"#)), None);
    assert_eq!(context_length(&json(r#"{"n_ctx":1}"#)), None);
    assert_eq!(context_length(&json("[]")), None);
}

#[test]
fn single_models() {
    assert!(show_response(&None).is_none());
    let d = Descriptor {
        media_type: String::new(),
        digest: "sha256:1".to_string(),
        size: 18446744073709551615,
        annotations: None,
    };
    let shown = show_response(&Some(d)).unwrap();
    assert_eq!(shown.model_info, json(r#"{"digest":"sha256:1","size":18446744073709551615}"#));
    assert_eq!(shown.details.format, "gguf");
    let a = openai_model("r", true);
    assert_eq!(
        a,
        json(r#"{"id":"r","object":"model","created":0,"owned_by":"llmman","status":{"value":"loaded"}}"#)
    );
    let b = openai_model("s", false);
    assert_eq!(b["status"], json(r#"{"value":"unloaded"}"#));
    let all = openai_models(vec![a.clone(), b.clone()]);
    assert_eq!(all["object"], "list");
    assert_eq!(all["data"], Value::Array(vec![a, b]));
}

#[test]
fn the_version_tells_the_program() {
    assert_eq!(
        version_response("1.2", Some("/bin/x"), 7),
        json(r#"{"version":"1.2","exe":"/bin/x","pid":7}"#)
    );
    assert_eq!(version_response("1.2", None, 7), json(r#"{"version":"1.2","exe":null,"pid":7}"#));
}

#[test]
fn the_web_page_finds_a_router() {
    let expected = json(
        r#"{
        "role": "router",
        "total_slots": 0,
        "model_path": "",
        "chat_template": "",
        "bos_token": "",
        "eos_token": "",
        "build_info": "1.2.3",
        "modalities": { "vision": false, "audio": false },
        "default_generation_settings": {
            "id": 0,
            "id_task": 0,
            "n_ctx": 4096,
            "speculative": false,
            "is_processing": false,
            "params": {
                "n_predict": -1,
                "seed": 0,
                "temperature": 0.8,
                "dynatemp_range": 0.0,
                "dynatemp_exponent": 1.0,
                "top_k": 40,
                "top_p": 0.95,
                "min_p": 0.05,
                "top_n_sigma": 0.0,
                "xtc_probability": 0.0,
                "xtc_threshold": 0.1,
                "typ_p": 1.0,
                "repeat_last_n": 64,
                "repeat_penalty": 1.0,
                "presence_penalty": 0.0,
                "frequency_penalty": 0.0,
                "dry_multiplier": 0.0,
                "dry_base": 1.75,
                "dry_allowed_length": 2,
                "dry_penalty_last_n": -1,
                "dry_sequence_breakers": [],
                "mirostat": 0,
                "mirostat_tau": 5.0,
                "mirostat_eta": 0.1,
                "stop": [],
                "max_tokens": -1,
                "n_keep": 0,
                "n_discard": 0,
                "ignore_eos": false,
                "stream": true,
                "logit_bias": [],
                "n_probs": 0,
                "min_keep": 0,
                "grammar": "",
                "grammar_lazy": false,
                "grammar_triggers": [],
                "preserved_tokens": [],
                "chat_format": "",
                "reasoning_format": "",
                "reasoning_in_content": false,
                "generation_prompt": "",
                "samplers": ["top_k", "top_p", "min_p", "temperature"],
                "backend_sampling": false,
                "speculative.n_max": 16,
                "speculative.n_min": 5,
                "speculative.p_min": 0.9,
                "timings_per_token": false,
                "post_sampling_probs": false,
                "lora": []
            },
            "prompt": "",
            "next_token": {
                "has_next_token": false,
                "has_new_line": false,
                "n_remain": 0,
                "n_decoded": 0,
                "stopping_word": ""
            }
        }
    }"#,
    );
    assert_eq!(props("1.2.3"), expected);
}
