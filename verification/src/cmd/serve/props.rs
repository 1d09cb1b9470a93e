//! What the server tells of itself to the web page: the properties of an engine,
//! of which the page learns that there is more than one model.

use vstd::prelude::*;
use vstd::utf8::*;

use crate::json as js;
use crate::json::Json;
use crate::text;

verus! {

/// The number that a decimal text stands for, as `serde_json` reads it.
pub open spec fn decimal_number(s: Seq<char>) -> Json {
    match js::json_parse(encode_utf8(s)) {
        Some(j) => j,
        None => Json::Null,
    }
}

fn number(s: &str) -> (r: serde_json::Value)
    ensures
        js::json(r) == decimal_number(s@),
{
    let bytes = text::to_bytes(s);
    match js::parse(bytes.as_slice()) {
        Ok(v) => v,
        Err(_) => js::null(),
    }
}

/// An array without elements.
pub open spec fn no_elements() -> Json {
    Json::Array(Seq::empty())
}

fn empty() -> (r: serde_json::Value)
    ensures
        js::json(r) == no_elements(),
{
    let v: Vec<serde_json::Value> = Vec::new();
    assert(js::json_seq(v@) =~= Seq::<Json>::empty());
    js::array(v)
}

/// The parameters by which tokens are chosen.
pub open spec fn sampling_params() -> Json {
    js::no_keys().with("temperature"@, decimal_number("0.8"@)).with(
        "dynatemp_range"@,
        decimal_number("0.0"@),
    ).with("dynatemp_exponent"@, decimal_number("1.0"@)).with("top_k"@, Json::Int(40)).with(
        "top_p"@,
        decimal_number("0.95"@),
    ).with("min_p"@, decimal_number("0.05"@)).with("top_n_sigma"@, decimal_number("0.0"@)).with(
        "xtc_probability"@,
        decimal_number("0.0"@),
    ).with("xtc_threshold"@, decimal_number("0.1"@)).with("typ_p"@, decimal_number("1.0"@)).with(
        "repeat_last_n"@,
        Json::Int(64),
    ).with("repeat_penalty"@, decimal_number("1.0"@)).with(
        "presence_penalty"@,
        decimal_number("0.0"@),
    ).with("frequency_penalty"@, decimal_number("0.0"@)).with(
        "dry_multiplier"@,
        decimal_number("0.0"@),
    ).with("dry_base"@, decimal_number("1.75"@)).with("dry_allowed_length"@, Json::Int(2)).with(
        "dry_penalty_last_n"@,
        Json::Int(-1),
    ).with("dry_sequence_breakers"@, no_elements()).with("mirostat"@, Json::Int(0)).with(
        "mirostat_tau"@,
        decimal_number("5.0"@),
    ).with("mirostat_eta"@, decimal_number("0.1"@))
}

fn set_sampling_params(params: &mut serde_json::Value)
    requires
        js::json(*old(params)) == js::no_keys(),
    ensures
        js::json(*final(params)) == sampling_params(),
{
    js::set(params, "temperature", number("0.8"));
    js::set(params, "dynatemp_range", number("0.0"));
    js::set(params, "dynatemp_exponent", number("1.0"));
    js::set(params, "top_k", js::integer(40));
    js::set(params, "top_p", number("0.95"));
    js::set(params, "min_p", number("0.05"));
    js::set(params, "top_n_sigma", number("0.0"));
    js::set(params, "xtc_probability", number("0.0"));
    js::set(params, "xtc_threshold", number("0.1"));
    js::set(params, "typ_p", number("1.0"));
    js::set(params, "repeat_last_n", js::integer(64));
    js::set(params, "repeat_penalty", number("1.0"));
    js::set(params, "presence_penalty", number("0.0"));
    js::set(params, "frequency_penalty", number("0.0"));
    js::set(params, "dry_multiplier", number("0.0"));
    js::set(params, "dry_base", number("1.75"));
    js::set(params, "dry_allowed_length", js::integer(2));
    js::set(params, "dry_penalty_last_n", js::integer(-1));
    js::set(params, "dry_sequence_breakers", empty());
    js::set(params, "mirostat", js::integer(0));
    js::set(params, "mirostat_tau", number("5.0"));
    js::set(params, "mirostat_eta", number("0.1"));
}

/// The names of the samplers.
pub open spec fn sampler_names() -> Json {
    Json::Array(
        seq![
            Json::Str("top_k"@),
            Json::Str("top_p"@),
            Json::Str("min_p"@),
            Json::Str("temperature"@),
        ],
    )
}

fn samplers() -> (r: serde_json::Value)
    ensures
        js::json(r) == sampler_names(),
{
    let mut v: Vec<serde_json::Value> = Vec::new();
    v.push(js::lit("top_k"));
    v.push(js::lit("top_p"));
    v.push(js::lit("min_p"));
    v.push(js::lit("temperature"));
    assert(js::json_seq(v@) =~= seq![
        Json::Str("top_k"@),
        Json::Str("top_p"@),
        Json::Str("min_p"@),
        Json::Str("temperature"@),
    ]);
    js::array(v)
}

/// The parameters of a generation.
pub open spec fn generation_params() -> Json {
    sampling_params().with("n_predict"@, Json::Int(-1)).with("seed"@, Json::Int(0)).with(
        "stop"@,
        no_elements(),
    ).with("max_tokens"@, Json::Int(-1)).with("n_keep"@, Json::Int(0)).with(
        "n_discard"@,
        Json::Int(0),
    ).with("ignore_eos"@, Json::Bool(false)).with("stream"@, Json::Bool(true)).with(
        "logit_bias"@,
        no_elements(),
    ).with("n_probs"@, Json::Int(0)).with("min_keep"@, Json::Int(0)).with(
        "grammar"@,
        Json::Str(""@),
    ).with("grammar_lazy"@, Json::Bool(false)).with("grammar_triggers"@, no_elements()).with(
        "preserved_tokens"@,
        no_elements(),
    ).with("chat_format"@, Json::Str(""@)).with("reasoning_format"@, Json::Str(""@)).with(
        "reasoning_in_content"@,
        Json::Bool(false),
    ).with("generation_prompt"@, Json::Str(""@)).with("samplers"@, sampler_names()).with(
        "backend_sampling"@,
        Json::Bool(false),
    ).with("speculative.n_max"@, Json::Int(16)).with("speculative.n_min"@, Json::Int(5)).with(
        "speculative.p_min"@,
        decimal_number("0.9"@),
    ).with("timings_per_token"@, Json::Bool(false)).with("post_sampling_probs"@, Json::Bool(false)).with(
        "lora"@,
        no_elements(),
    )
}

fn params() -> (r: serde_json::Value)
    ensures
        js::json(r) == generation_params(),
{
    let mut v = js::object();
    set_sampling_params(&mut v);
    js::set(&mut v, "n_predict", js::integer(-1));
    js::set(&mut v, "seed", js::integer(0));
    js::set(&mut v, "stop", empty());
    js::set(&mut v, "max_tokens", js::integer(-1));
    js::set(&mut v, "n_keep", js::integer(0));
    js::set(&mut v, "n_discard", js::integer(0));
    js::set(&mut v, "ignore_eos", js::boolean(false));
    js::set(&mut v, "stream", js::boolean(true));
    js::set(&mut v, "logit_bias", empty());
    js::set(&mut v, "n_probs", js::integer(0));
    js::set(&mut v, "min_keep", js::integer(0));
    js::set(&mut v, "grammar", js::lit(""));
    js::set(&mut v, "grammar_lazy", js::boolean(false));
    js::set(&mut v, "grammar_triggers", empty());
    js::set(&mut v, "preserved_tokens", empty());
    js::set(&mut v, "chat_format", js::lit(""));
    js::set(&mut v, "reasoning_format", js::lit(""));
    js::set(&mut v, "reasoning_in_content", js::boolean(false));
    js::set(&mut v, "generation_prompt", js::lit(""));
    js::set(&mut v, "samplers", samplers());
    js::set(&mut v, "backend_sampling", js::boolean(false));
    js::set(&mut v, "speculative.n_max", js::integer(16));
    js::set(&mut v, "speculative.n_min", js::integer(5));
    js::set(&mut v, "speculative.p_min", number("0.9"));
    js::set(&mut v, "timings_per_token", js::boolean(false));
    js::set(&mut v, "post_sampling_probs", js::boolean(false));
    js::set(&mut v, "lora", empty());
    v
}

/// The token that would come next: none.
pub open spec fn next_token() -> Json {
    js::no_keys().with("has_next_token"@, Json::Bool(false)).with(
        "has_new_line"@,
        Json::Bool(false),
    ).with("n_remain"@, Json::Int(0)).with("n_decoded"@, Json::Int(0)).with(
        "stopping_word"@,
        Json::Str(""@),
    )
}

/// The settings with which a generation starts.
pub open spec fn generation_settings() -> Json {
    js::no_keys().with("id"@, Json::Int(0)).with("id_task"@, Json::Int(0)).with(
        "n_ctx"@,
        Json::Int(4096),
    ).with("speculative"@, Json::Bool(false)).with("is_processing"@, Json::Bool(false)).with(
        "params"@,
        generation_params(),
    ).with("prompt"@, Json::Str(""@)).with("next_token"@, next_token())
}

fn settings() -> (r: serde_json::Value)
    ensures
        js::json(r) == generation_settings(),
{
    let mut token = js::object();
    js::set(&mut token, "has_next_token", js::boolean(false));
    js::set(&mut token, "has_new_line", js::boolean(false));
    js::set(&mut token, "n_remain", js::integer(0));
    js::set(&mut token, "n_decoded", js::integer(0));
    js::set(&mut token, "stopping_word", js::lit(""));
    let mut v = js::object();
    js::set(&mut v, "id", js::integer(0));
    js::set(&mut v, "id_task", js::integer(0));
    js::set(&mut v, "n_ctx", js::integer(4096));
    js::set(&mut v, "speculative", js::boolean(false));
    js::set(&mut v, "is_processing", js::boolean(false));
    js::set(&mut v, "params", params());
    js::set(&mut v, "prompt", js::lit(""));
    js::set(&mut v, "next_token", token);
    v
}

/// The properties of the server: it is the router of more than one model.
pub open spec fn router_props(version: Seq<char>) -> Json {
    js::no_keys().with("role"@, Json::Str("router"@)).with("total_slots"@, Json::Int(0)).with(
        "model_path"@,
        Json::Str(""@),
    ).with("chat_template"@, Json::Str(""@)).with("bos_token"@, Json::Str(""@)).with(
        "eos_token"@,
        Json::Str(""@),
    ).with("build_info"@, Json::Str(version)).with(
        "modalities"@,
        js::no_keys().with("vision"@, Json::Bool(false)).with("audio"@, Json::Bool(false)),
    ).with("default_generation_settings"@, generation_settings())
}

/// The reply to `/props`.
pub fn props(version: &str) -> (r: serde_json::Value)
    ensures
        js::json(r) == router_props(version@),
{
    let mut modalities = js::object();
    js::set(&mut modalities, "vision", js::boolean(false));
    js::set(&mut modalities, "audio", js::boolean(false));
    let mut v = js::object();
    js::set(&mut v, "role", js::lit("router"));
    js::set(&mut v, "total_slots", js::integer(0));
    js::set(&mut v, "model_path", js::lit(""));
    js::set(&mut v, "chat_template", js::lit(""));
    js::set(&mut v, "bos_token", js::lit(""));
    js::set(&mut v, "eos_token", js::lit(""));
    js::set(&mut v, "build_info", js::lit(version));
    js::set(&mut v, "modalities", modalities);
    js::set(&mut v, "default_generation_settings", settings());
    v
}

} // verus!
