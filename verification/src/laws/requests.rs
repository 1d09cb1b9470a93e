//! Laws of the requests that an engine gets for requests of the Ollama API.

use vstd::prelude::*;

use crate::cmd::serve::chat;
use crate::cmd::serve::chat::{
    GenerateKind, OAIChatRequest, OllamaChatRequest, OllamaGenerateRequest, Sampling,
};
use crate::json as js;
use crate::json::Json;

verus! {

/// Whether the options of a request are an object that holds this at a key.
pub open spec fn holds(opts: Option<serde_json::Value>, key: Seq<char>, v: Json) -> bool {
    &&& opts is Some
    &&& js::json(opts.unwrap()) matches Json::Object(o)
    &&& o.contains_key(key)
    &&& o[key] == v
}

/// An unsigned integer among the options is read whatever the key, cut to its low
/// 32 bits; anything else there, and nothing there, is none.
pub proof fn law_integers_among_options(
    opts: &Option<serde_json::Value>,
    key: &str,
    r: Option<u32>,
)
    requires
        call_ensures(chat::opt_u32, (opts, key), r),
    ensures
        forall|n: int| #[trigger]
            holds(*opts, key@, Json::Int(n)) && 0 <= n <= u32::MAX ==> r == Some(n as u32),
        forall|n: int| #[trigger]
            holds(*opts, key@, Json::Int(n)) && u32::MAX < n <= u64::MAX ==> r is Some && (n
                - r.unwrap()) % 0x1_0000_0000 == 0,
        r is Some ==> exists|n: int| #[trigger]
            holds(*opts, key@, Json::Int(n)) && 0 <= n <= u64::MAX,
{
    if r is Some {
        let n = js::json(opts.unwrap())->Object_0[key@]->Int_0;
        assert(holds(*opts, key@, Json::Int(n)));
    }
}

/// A number among the options is handed on as it stands; anything else is none.
pub proof fn law_numbers_among_options(
    opts: &Option<serde_json::Value>,
    key: &str,
    r: Option<&serde_json::Value>,
)
    requires
        call_ensures(chat::opt_number, (opts, key), r),
    ensures
        forall|v: Json| #[trigger]
            holds(*opts, key@, v) && (v is Int || v is Float) ==> r is Some && js::json(*r.unwrap())
                == v,
        r is Some ==> holds(*opts, key@, js::json(*r.unwrap())) && (js::json(*r.unwrap()) is Int
            || js::json(*r.unwrap()) is Float),
{
}

/// A boolean turns thinking on or off in a chat's template; anything else says
/// nothing to it.
pub proof fn law_thinking_is_turned_on_or_off(
    think: &Option<serde_json::Value>,
    r: Option<serde_json::Value>,
)
    requires
        call_ensures(chat::think_to_chat_template_kwargs, (think,), r),
    ensures
        r is Some <==> think is Some && js::json(think.unwrap()) is Bool,
        r is Some ==> js::json(r.unwrap()) == Json::Object(
            map!["enable_thinking"@ => js::json(think.unwrap())],
        ),
{
}

/// What two documents that may be missing have in common where they say the same.
pub open spec fn same_document(
    a: Option<serde_json::Value>,
    b: Option<serde_json::Value>,
) -> bool {
    &&& a is Some <==> b is Some
    &&& a is Some ==> js::json(a.unwrap()) == js::json(b.unwrap())
}

/// A chat comes to an engine whole: each message, in its order, with its role and
/// its text; streamed in any case, and with each parameter that the client gave.
pub proof fn law_chats_are_taken_over<F: Copy>(
    req: &OllamaChatRequest,
    model: String,
    sampling: Sampling<F>,
    penalty: F,
    limit: Option<u32>,
    kwargs: Option<serde_json::Value>,
    key: &str,
    r: OAIChatRequest<F>,
)
    requires
        call_ensures(chat::chat_request::<F>, (req, model, sampling, penalty), r),
        key@ == "num_predict"@,
        call_ensures(chat::opt_u32, (&req.options, key), limit),
        call_ensures(chat::think_to_chat_template_kwargs, (&req.think,), kwargs),
    ensures
        r.model@ == model@,
        r.messages@.len() == req.messages@.len(),
        forall|i: int|
            0 <= i < req.messages@.len() ==> (#[trigger] r.messages@[i]).role@
                == req.messages@[i].role@ && r.messages@[i].content@ == req.messages@[i].content@,
        r.stream,
        r.temperature == sampling.temperature,
        r.top_p == sampling.top_p,
        sampling.repeat_penalty is Some ==> r.repeat_penalty == sampling.repeat_penalty,
        sampling.repeat_penalty is None ==> r.repeat_penalty == Some(penalty),
        r.max_tokens == limit,
        same_document(r.chat_template_kwargs, kwargs),
{
    let a = chat::messages_view(r.messages@);
    let b = chat::chat_messages(req.messages@);
    assert(a.len() == r.messages@.len() && b.len() == req.messages@.len());
    assert forall|i: int| 0 <= i < req.messages@.len() implies (#[trigger] r.messages@[i]).role@
        == req.messages@[i].role@ && r.messages@[i].content@ == req.messages@[i].content@ by {
        assert(a[i] == r.messages@[i]@);
        assert(b[i].role == req.messages@[i].role@ && b[i].content == req.messages@[i].content@);
    }
}

/// A prompt comes to an engine as a chat of one message of the user, which is the
/// prompt.
pub proof fn law_prompts_are_taken_over<F: Copy>(
    req: &OllamaGenerateRequest,
    model: String,
    sampling: Sampling<F>,
    penalty: F,
    limit: Option<u32>,
    kwargs: Option<serde_json::Value>,
    key: &str,
    r: OAIChatRequest<F>,
)
    requires
        call_ensures(chat::generate_request::<F>, (req, model, sampling, penalty), r),
        key@ == "num_predict"@,
        call_ensures(chat::opt_u32, (&req.options, key), limit),
        call_ensures(chat::think_to_chat_template_kwargs, (&req.think,), kwargs),
    ensures
        r.model@ == model@,
        r.messages@.len() == 1,
        r.messages@[0].role@ == "user"@,
        r.messages@[0].content@ == req.prompt@,
        r.stream,
        r.temperature == sampling.temperature,
        r.top_p == sampling.top_p,
        sampling.repeat_penalty is Some ==> r.repeat_penalty == sampling.repeat_penalty,
        sampling.repeat_penalty is None ==> r.repeat_penalty == Some(penalty),
        r.max_tokens == limit,
        same_document(r.chat_template_kwargs, kwargs),
{
    let a = chat::messages_view(r.messages@);
    assert(a.len() == r.messages@.len());
    assert(a[0] == r.messages@[0]@);
}

/// A request with a prompt is answered whatever else it says; one without loads the
/// model, or unloads it where it is to be kept for no time at all.
pub proof fn law_what_is_asked_for(req: &OllamaGenerateRequest, r: GenerateKind)
    requires
        call_ensures(chat::generate_kind, (req,), r),
    ensures
        r is Generate <==> req.prompt@.len() > 0,
        r is Unload <==> req.prompt@.len() == 0 && req.keep_alive is Some && js::json(
            req.keep_alive.unwrap(),
        ) == Json::Int(0),
{
}

/// Requests stream unless they say otherwise.
pub proof fn law_streaming_is_the_default(r: bool)
    requires
        call_ensures(chat::bool_true, (), r),
    ensures
        r,
{
}

} // verus!
