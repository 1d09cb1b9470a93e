//! Laws of the server's own replies.

use vstd::prelude::*;

use crate::clock;
use crate::cmd::list::Image;
use crate::cmd::serve::api;
use crate::cmd::serve::api::{
    OllamaModelDetails, OllamaModelInfo, OllamaPullRequest, OllamaRunningModelInfo,
    OllamaShowRequest, OllamaShowResponse, TransferEnd,
};
use crate::cmd::serve::engine::EngineKind;
use crate::cmd::serve::props;
use crate::ffi::ProgressSnapshot;
use crate::json as js;
use crate::json::Json;
use crate::laws::replies;
use crate::laws::texts;
use crate::shortnames;
use crate::shortnames::Aliases;
use crate::storage::Descriptor;
use crate::text;

verus! {

/// A request to show or to delete a model speaks of the one under its second name,
/// or under its first where the second is missing or empty.
pub proof fn law_which_model_is_shown(
    req: &OllamaShowRequest,
    aliases: &Aliases,
    named: &str,
    resolved: String,
    r: String,
)
    requires
        call_ensures(OllamaShowRequest::reference, (req, aliases), r),
        req.name is Some && req.name.unwrap()@.len() > 0 ==> named@ == req.name.unwrap()@,
        req.name is None || req.name.unwrap()@.len() == 0 ==> named@ == req.model@,
        call_ensures(shortnames::resolve_ollama_api, (named, aliases), resolved),
    ensures
        r@ == resolved@,
{
}

/// A request to pull or to push a model speaks of the one under its first name, or
/// under its second where the first is empty; one without either is refused.
pub proof fn law_which_model_is_pulled(
    req: &OllamaPullRequest,
    aliases: &Aliases,
    named: &str,
    resolved: String,
    r: Option<String>,
)
    requires
        call_ensures(OllamaPullRequest::reference, (req, aliases), r),
        req.model@.len() > 0 ==> named@ == req.model@,
        req.model@.len() == 0 ==> named@ == req.name@,
        call_ensures(shortnames::resolve_ollama_api, (named, aliases), resolved),
    ensures
        r is None <==> req.model@.len() == 0 && req.name@.len() == 0,
        r is Some ==> r.unwrap()@ == resolved@,
{
}

/// A client gets the web page exactly where the type of one stands anywhere in what
/// it accepts.
pub proof fn law_who_gets_the_page(accept: Option<&str>, r: bool)
    requires
        call_ensures(api::wants_html, (accept,), r),
    ensures
        r <==> accept is Some && exists|i: int| #[trigger]
            texts::stands_at(accept.unwrap()@, "text/html"@, i),
{
    if accept is Some {
        texts::lemma_find(accept.unwrap()@, "text/html"@, 0);
        if r {
            let i = text::find(accept.unwrap()@, "text/html"@).unwrap();
            assert(texts::stands_at(accept.unwrap()@, "text/html"@, i));
        }
    }
}

/// A line that holds a document.
pub open spec fn line(j: Json) -> Seq<char> {
    js::json_text(j) + "\n"@
}

/// An error is told as it is, under one key.
pub proof fn law_errors_are_told(message: &str, body: serde_json::Value, r: String)
    requires
        call_ensures(api::error_body, (message,), body),
        call_ensures(api::error_line, (message,), r),
    ensures
        js::json(body) == Json::Object(map!["error"@ => Json::Str(message@)]),
        r@ == line(Json::Object(map!["error"@ => Json::Str(message@)])),
{
}

/// A status is told as it is, under one key.
pub proof fn law_statuses_are_told(status: &str, r: String)
    requires
        call_ensures(api::status_line, (status,), r),
    ensures
        r@ == line(Json::Object(map!["status"@ => Json::Str(status@)])),
{
}

/// A model that is not there is named.
pub proof fn law_missing_models_are_named(reference: &str, r: String)
    requires
        call_ensures(api::not_found, (reference,), r),
    ensures
        r@ == "model not found: "@ + reference@,
{
}

/// A transfer ends with success exactly where it had it, and else with its error.
pub proof fn law_how_a_transfer_ends(verb: &str, end: &TransferEnd, r: String)
    requires
        call_ensures(api::end_line, (verb, end), r),
    ensures
        end is Success ==> r@ == line(
            Json::Object(map!["status"@ => Json::Str("success"@)]),
        ),
        end matches TransferEnd::Failed(m) ==> r@ == line(
            Json::Object(map!["error"@ => Json::Str(m@)]),
        ),
        end matches TransferEnd::Broken(m) ==> r@ == line(
            Json::Object(map!["error"@ => Json::Str(verb@ + " task panicked: "@ + m@)]),
        ),
{
}

/// A transfer that goes on is told by its status, or by what it does where it has
/// none, and with its bytes exactly where their number is known: all of them, and
/// those that have come, of which there are never less than none or more than all.
pub proof fn law_how_a_transfer_goes_on(
    verb: &str,
    model: &str,
    p: Option<&ProgressSnapshot>,
    r: String,
)
    requires
        call_ensures(api::progress_line, (verb, model, p), r),
    ensures
        ({
            let status = if p is Some && p.unwrap().status@.len() > 0 {
                p.unwrap().status@
            } else {
                verb@ + "ing "@ + model@
            };
            &&& p is None || p.unwrap().total <= 0 ==> r@ == line(
                Json::Object(map!["status"@ => Json::Str(status)]),
            )
            &&& p is Some && p.unwrap().total > 0 ==> ({
                let all = p.unwrap().total as int;
                let come = p.unwrap().completed as int;
                let done = if come < 0 {
                    0
                } else if come > all {
                    all
                } else {
                    come
                };
                r@ == line(
                    Json::Object(
                        map![
                        "status"@ => Json::Str(status),
                        "total"@ => Json::Int(all),
                        "completed"@ => Json::Int(done),
                    ],
                    ),
                )
            })
        }),
{
}

/// Whether nothing is told of a model but that it is a GGUF file.
pub open spec fn says_gguf_alone(d: OllamaModelDetails) -> bool {
    d.format@ == "gguf"@ && d.family@.len() == 0 && d.parameter_size@.len() == 0
        && d.quantization_level@.len() == 0
}

/// The text of the second of a point in time, where it has one: it lies behind the
/// Unix epoch, and not too far.
pub open spec fn second_of(t: Option<std::time::SystemTime>) -> Option<Seq<char>> {
    if t is Some && clock::system_nanos(t.unwrap()) >= 0 {
        clock::rfc3339_text(((clock::system_nanos(t.unwrap()) / 1_000_000_000) as u64) as i64)
    } else {
        None
    }
}

/// A model of the store is listed under its reference, with its size, its digest and
/// its time, or that of now where it has none.
pub proof fn law_models_are_listed(image: &Image, r: OllamaModelInfo)
    requires
        call_ensures(api::model_info, (image,), r),
    ensures
        r.name@ == image.reference@,
        r.model@ == image.reference@,
        r.size == image.size,
        r.digest@ == image.digest@,
        second_of(image.modified_at) is Some ==> r.modified_at@ == second_of(
            image.modified_at,
        ).unwrap(),
        second_of(image.modified_at) is None ==> replies::is_of_now(r.modified_at@),
        says_gguf_alone(r.details),
{
}

/// A model that runs is listed with all that is known of it, each as it is.
pub proof fn law_running_models_are_listed(
    name: &str,
    digest: &str,
    size: u64,
    port: u16,
    pid: Option<u32>,
    kind: EngineKind,
    started_at: &str,
    context_length: Option<u64>,
    processor: String,
    r: OllamaRunningModelInfo,
)
    requires
        call_ensures(
            api::running_info,
            (name, digest, size, port, pid, kind, started_at, context_length),
            r,
        ),
        call_ensures(EngineKind::processor, (kind,), processor),
    ensures
        r.name@ == name@,
        r.model@ == name@,
        r.digest@ == digest@,
        r.size == size,
        r.size_vram == 0,
        r.pid == pid,
        r.port == port,
        r.processor@ == processor@,
        r.context_length == context_length,
        r.started_at@ == started_at@,
{
}

/// The size of the context is read where an engine tells it, as far as it is a
/// number of 64 bits, and nowhere else.
pub proof fn law_sizes_of_contexts(props: &serde_json::Value, r: Option<u64>)
    requires
        call_ensures(api::context_length, (props,), r),
    ensures
        forall|n: int| #[trigger]
            tells_context(js::json(*props), n) && 0 <= n <= u64::MAX ==> r == Some(n as u64),
        r is Some ==> tells_context(js::json(*props), r.unwrap() as int),
{
}

/// Whether an engine tells this as the size of its context.
pub open spec fn tells_context(props: Json, n: int) -> bool {
    &&& props matches Json::Object(p)
    &&& p.contains_key("default_generation_settings"@)
    &&& p["default_generation_settings"@] matches Json::Object(s)
    &&& s.contains_key("n_ctx"@)
    &&& s["n_ctx"@] == Json::Int(n)
}

/// A model that the store has is shown with its digest and its size; one that it
/// does not have is not shown.
pub proof fn law_models_are_shown(found: &Option<Descriptor>, r: Option<OllamaShowResponse>)
    requires
        call_ensures(api::show_response, (found,), r),
    ensures
        r is Some <==> found is Some,
        r is Some ==> js::json(r.unwrap().model_info) == Json::Object(
            map![
            "digest"@ => Json::Str(found.unwrap().digest@),
            "size"@ => Json::Int(found.unwrap().size as int),
        ],
        ) && says_gguf_alone(r.unwrap().details),
{
}

/// A model is listed by the OpenAI API under its reference, as loaded exactly where
/// it is.
pub proof fn law_models_of_the_openai_api(reference: &str, loaded: bool, r: serde_json::Value)
    requires
        call_ensures(api::openai_model, (reference, loaded), r),
    ensures
        ({
            let status = if loaded {
                "loaded"@
            } else {
                "unloaded"@
            };
            js::json(r) == Json::Object(
                map![
                "id"@ => Json::Str(reference@),
                "object"@ => Json::Str("model"@),
                "created"@ => Json::Int(0),
                "owned_by"@ => Json::Str("llmman"@),
                "status"@ => Json::Object(map!["value"@ => Json::Str(status)]),
            ],
            )
        }),
{
}

/// The list of the OpenAI API holds all models that are given, in their order.
pub proof fn law_the_list_of_the_openai_api(
    models: Vec<serde_json::Value>,
    r: serde_json::Value,
)
    requires
        call_ensures(api::openai_models, (models,), r),
    ensures
        js::json(r) == Json::Object(
            map![
            "object"@ => Json::Str("list"@),
            "data"@ => Json::Array(Seq::new(models@.len(), |i: int| js::json(models@[i]))),
        ],
        ),
{
    assert(js::json_seq(models@) =~= Seq::new(models@.len(), |i: int| js::json(models@[i])));
}

/// The server tells its version, its program where that is known, and its process.
pub proof fn law_the_version_is_told(
    version: &str,
    exe: Option<&str>,
    pid: u32,
    r: serde_json::Value,
)
    requires
        call_ensures(api::version_response, (version, exe, pid), r),
    ensures
        ({
            let program = if exe is Some {
                Json::Str(exe.unwrap()@)
            } else {
                Json::Null
            };
            js::json(r) == Json::Object(
                map![
                "version"@ => Json::Str(version@),
                "exe"@ => program,
                "pid"@ => Json::Int(pid as int),
            ],
            )
        }),
{
}

/// The parameters of a generation, of which the page shows the defaults.
pub open spec fn default_params() -> Json {
    Json::Object(
        map![
        "temperature"@ => props::decimal_number("0.8"@),
        "dynatemp_range"@ => props::decimal_number("0.0"@),
        "dynatemp_exponent"@ => props::decimal_number("1.0"@),
        "top_k"@ => Json::Int(40),
        "top_p"@ => props::decimal_number("0.95"@),
        "min_p"@ => props::decimal_number("0.05"@),
        "top_n_sigma"@ => props::decimal_number("0.0"@),
        "xtc_probability"@ => props::decimal_number("0.0"@),
        "xtc_threshold"@ => props::decimal_number("0.1"@),
        "typ_p"@ => props::decimal_number("1.0"@),
        "repeat_last_n"@ => Json::Int(64),
        "repeat_penalty"@ => props::decimal_number("1.0"@),
        "presence_penalty"@ => props::decimal_number("0.0"@),
        "frequency_penalty"@ => props::decimal_number("0.0"@),
        "dry_multiplier"@ => props::decimal_number("0.0"@),
        "dry_base"@ => props::decimal_number("1.75"@),
        "dry_allowed_length"@ => Json::Int(2),
        "dry_penalty_last_n"@ => Json::Int(-1),
        "dry_sequence_breakers"@ => Json::Array(seq![]),
        "mirostat"@ => Json::Int(0),
        "mirostat_tau"@ => props::decimal_number("5.0"@),
        "mirostat_eta"@ => props::decimal_number("0.1"@),
        "n_predict"@ => Json::Int(-1),
        "seed"@ => Json::Int(0),
        "stop"@ => Json::Array(seq![]),
        "max_tokens"@ => Json::Int(-1),
        "n_keep"@ => Json::Int(0),
        "n_discard"@ => Json::Int(0),
        "ignore_eos"@ => Json::Bool(false),
        "stream"@ => Json::Bool(true),
        "logit_bias"@ => Json::Array(seq![]),
        "n_probs"@ => Json::Int(0),
        "min_keep"@ => Json::Int(0),
        "grammar"@ => Json::Str(""@),
        "grammar_lazy"@ => Json::Bool(false),
        "grammar_triggers"@ => Json::Array(seq![]),
        "preserved_tokens"@ => Json::Array(seq![]),
        "chat_format"@ => Json::Str(""@),
        "reasoning_format"@ => Json::Str(""@),
        "reasoning_in_content"@ => Json::Bool(false),
        "generation_prompt"@ => Json::Str(""@),
        "samplers"@ => Json::Array(seq![
            Json::Str("top_k"@),
            Json::Str("top_p"@),
            Json::Str("min_p"@),
            Json::Str("temperature"@),
        ]),
        "backend_sampling"@ => Json::Bool(false),
        "speculative.n_max"@ => Json::Int(16),
        "speculative.n_min"@ => Json::Int(5),
        "speculative.p_min"@ => props::decimal_number("0.9"@),
        "timings_per_token"@ => Json::Bool(false),
        "post_sampling_probs"@ => Json::Bool(false),
        "lora"@ => Json::Array(seq![]),
    ],
    )
}

/// The settings with which a generation starts.
pub open spec fn default_settings() -> Json {
    Json::Object(
        map![
        "id"@ => Json::Int(0),
        "id_task"@ => Json::Int(0),
        "n_ctx"@ => Json::Int(4096),
        "speculative"@ => Json::Bool(false),
        "is_processing"@ => Json::Bool(false),
        "params"@ => default_params(),
        "prompt"@ => Json::Str(""@),
        "next_token"@ => Json::Object(map![
            "has_next_token"@ => Json::Bool(false),
            "has_new_line"@ => Json::Bool(false),
            "n_remain"@ => Json::Int(0),
            "n_decoded"@ => Json::Int(0),
            "stopping_word"@ => Json::Str(""@),
        ]),
    ],
    )
}

/// The web page learns that the server is the router of more than one model, its
/// version, that neither pictures nor sound are taken, and the settings that it is
/// to show.
pub proof fn law_what_the_page_learns(version: &str, r: serde_json::Value)
    requires
        call_ensures(props::props, (version,), r),
    ensures
        js::json(r) == Json::Object(
            map![
            "role"@ => Json::Str("router"@),
            "total_slots"@ => Json::Int(0),
            "model_path"@ => Json::Str(""@),
            "chat_template"@ => Json::Str(""@),
            "bos_token"@ => Json::Str(""@),
            "eos_token"@ => Json::Str(""@),
            "build_info"@ => Json::Str(version@),
            "modalities"@ => Json::Object(map![
                "vision"@ => Json::Bool(false),
                "audio"@ => Json::Bool(false),
            ]),
            "default_generation_settings"@ => default_settings(),
        ],
        ),
{
}

} // verus!
