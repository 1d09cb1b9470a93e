//! Requests of the Ollama API, turned into the chat requests of an engine.
//!
//! Sampling parameters are numbers of a type `F` that only passes through here.

use vstd::prelude::*;

use crate::json as js;
use crate::json::Json;

verus! {

/// A message as an engine takes it.
pub struct OAIMessage {
    pub role: String,
    pub content: String,
}

/// A message's role and its content.
#[verifier::ext_equal]
pub struct MessageView {
    pub role: Seq<char>,
    pub content: Seq<char>,
}

impl View for OAIMessage {
    type V = MessageView;

    open spec fn view(&self) -> MessageView {
        MessageView { role: self.role@, content: self.content@ }
    }
}

/// The messages of a list.
pub open spec fn messages_view(s: Seq<OAIMessage>) -> Seq<MessageView> {
    s.map_values(|m: OAIMessage| m@)
}

/// A chat request as an engine takes it.
pub struct OAIChatRequest<F> {
    pub model: String,
    pub messages: Vec<OAIMessage>,
    pub stream: bool,
    pub temperature: Option<F>,
    pub top_p: Option<F>,
    pub max_tokens: Option<u32>,
    pub repeat_penalty: Option<F>,
    pub chat_template_kwargs: Option<serde_json::Value>,
}

/// A message of the Ollama API.
pub struct OllamaMessage {
    pub role: String,
    pub content: String,
    pub thinking: Option<String>,
}

/// A request to `/api/chat`.
pub struct OllamaChatRequest {
    pub model: String,
    pub messages: Vec<OllamaMessage>,
    pub stream: bool,
    pub options: Option<serde_json::Value>,
    pub think: Option<serde_json::Value>,
}

/// A request to `/api/generate`.
pub struct OllamaGenerateRequest {
    pub model: String,
    pub prompt: String,
    pub stream: bool,
    pub options: Option<serde_json::Value>,
    pub keep_alive: Option<serde_json::Value>,
    pub think: Option<serde_json::Value>,
}

/// The sampling parameters that a request's options hold.
pub struct Sampling<F> {
    pub temperature: Option<F>,
    pub top_p: Option<F>,
    pub repeat_penalty: Option<F>,
}

/// Requests stream unless they say otherwise.
pub fn bool_true() -> (r: bool)
    ensures
        r,
{
    true
}

/// What a `think` field means to a chat template: a boolean turns thinking on or
/// off, and everything else leaves the template's own default.
pub open spec fn template_kwargs(think: Option<Json>) -> Option<Json> {
    match think {
        Some(Json::Bool(b)) => Some(js::no_keys().with("enable_thinking"@, Json::Bool(b))),
        _ => None,
    }
}

/// The tree of a value that may be missing.
pub open spec fn optional(v: Option<serde_json::Value>) -> Option<Json> {
    match v {
        Some(v) => Some(js::json(v)),
        None => None,
    }
}

/// What a `think` field means to a chat template.
pub fn think_to_chat_template_kwargs(think: &Option<serde_json::Value>) -> (r: Option<
    serde_json::Value,
>)
    ensures
        optional(r) == template_kwargs(optional(*think)),
{
    match think {
        Some(v) => match v.as_bool() {
            Some(b) => {
                let mut kwargs = js::object();
                js::set(&mut kwargs, "enable_thinking", js::boolean(b));
                Some(kwargs)
            },
            None => None,
        },
        None => None,
    }
}

/// The unsigned integer at a key of an options object, cut to its low 32 bits.
pub open spec fn u32_option(opts: Option<Json>, key: Seq<char>) -> Option<u32> {
    match opts {
        Some(o) => match o.at(key) {
            Some(Json::Int(n)) => if 0 <= n <= u64::MAX {
                Some((n % 0x1_0000_0000) as u32)
            } else {
                None
            },
            _ => None,
        },
        None => None,
    }
}

/// The unsigned integer at a key of an options object.
pub fn opt_u32(opts: &Option<serde_json::Value>, key: &str) -> (r: Option<u32>)
    ensures
        r == u32_option(optional(*opts), key@),
{
    match opts {
        Some(o) => match js::get(o, key) {
            Some(v) => match v.as_u64() {
                Some(n) => {
                    assert(n as u32 == n % 0x1_0000_0000) by (bit_vector);
                    Some(
                        #[verifier::truncate]
                        (n as u32),
                    )
                },
                None => None,
            },
            None => None,
        },
        None => None,
    }
}

/// The number at a key of an options object.
pub open spec fn number_option(opts: Option<Json>, key: Seq<char>) -> Option<Json> {
    match opts {
        Some(o) => match o.at(key) {
            Some(v) => if v is Int || v is Float {
                Some(v)
            } else {
                None
            },
            None => None,
        },
        None => None,
    }
}

/// The number at a key of an options object, as it stands there.
pub fn opt_number<'a>(opts: &'a Option<serde_json::Value>, key: &str) -> (r: Option<
    &'a serde_json::Value,
>)
    ensures
        match r {
            Some(v) => number_option(optional(*opts), key@) == Some(js::json(*v)),
            None => number_option(optional(*opts), key@) is None,
        },
{
    match opts {
        Some(o) => match js::get(o, key) {
            Some(v) => if v.is_number() {
                Some(v)
            } else {
                None
            },
            None => None,
        },
        None => None,
    }
}

/// The given value, or else the default.
pub open spec fn or_default<F>(given: Option<F>, default: F) -> Option<F> {
    match given {
        Some(f) => Some(f),
        None => Some(default),
    }
}

/// Messages of the Ollama API as an engine takes them.
pub open spec fn chat_messages(s: Seq<OllamaMessage>) -> Seq<MessageView> {
    s.map_values(|m: OllamaMessage| MessageView { role: m.role@, content: m.content@ })
}

/// The request to an engine for a chat: always streamed, under the name by which
/// the engine knows the model, and with a repetition penalty in any case.
pub fn chat_request<F: Copy>(
    req: &OllamaChatRequest,
    model: String,
    sampling: Sampling<F>,
    default_penalty: F,
) -> (r: OAIChatRequest<F>)
    ensures
        r.model@ == model@,
        messages_view(r.messages@) == chat_messages(req.messages@),
        r.stream,
        r.temperature == sampling.temperature,
        r.top_p == sampling.top_p,
        r.repeat_penalty == or_default(sampling.repeat_penalty, default_penalty),
        r.max_tokens == u32_option(optional(req.options), "num_predict"@),
        optional(r.chat_template_kwargs) == template_kwargs(optional(req.think)),
{
    let mut messages: Vec<OAIMessage> = Vec::new();
    let mut i: usize = 0;
    while i < req.messages.len()
        invariant
            i <= req.messages@.len(),
            messages_view(messages@) == chat_messages(req.messages@.take(i as int)),
        decreases req.messages.len() - i,
    {
        let m = &req.messages[i];
        let ghost before = messages@;
        messages.push(OAIMessage { role: m.role.clone(), content: m.content.clone() });
        i += 1;
        proof {
            assert(messages_view(messages@) =~= messages_view(before).push(messages@.last()@));
            assert(chat_messages(req.messages@.take(i as int)) =~= chat_messages(
                req.messages@.take(i - 1),
            ).push(messages@.last()@));
        }
    }
    assert(req.messages@.take(i as int) =~= req.messages@);
    OAIChatRequest {
        model,
        messages,
        stream: true,
        temperature: sampling.temperature,
        top_p: sampling.top_p,
        max_tokens: opt_u32(&req.options, "num_predict"),
        repeat_penalty: match sampling.repeat_penalty {
            Some(p) => Some(p),
            None => Some(default_penalty),
        },
        chat_template_kwargs: think_to_chat_template_kwargs(&req.think),
    }
}

/// The request to an engine for a prompt: a chat of one turn.
pub fn generate_request<F: Copy>(
    req: &OllamaGenerateRequest,
    model: String,
    sampling: Sampling<F>,
    default_penalty: F,
) -> (r: OAIChatRequest<F>)
    ensures
        r.model@ == model@,
        messages_view(r.messages@) == seq![MessageView { role: "user"@, content: req.prompt@ }],
        r.stream,
        r.temperature == sampling.temperature,
        r.top_p == sampling.top_p,
        r.repeat_penalty == or_default(sampling.repeat_penalty, default_penalty),
        r.max_tokens == u32_option(optional(req.options), "num_predict"@),
        optional(r.chat_template_kwargs) == template_kwargs(optional(req.think)),
{
    let mut messages: Vec<OAIMessage> = Vec::new();
    messages.push(OAIMessage { role: "user".to_owned(), content: req.prompt.clone() });
    assert(messages_view(messages@) =~= seq![
        MessageView { role: "user"@, content: req.prompt@ },
    ]);
    OAIChatRequest {
        model,
        messages,
        stream: true,
        temperature: sampling.temperature,
        top_p: sampling.top_p,
        max_tokens: opt_u32(&req.options, "num_predict"),
        repeat_penalty: match sampling.repeat_penalty {
            Some(p) => Some(p),
            None => Some(default_penalty),
        },
        chat_template_kwargs: think_to_chat_template_kwargs(&req.think),
    }
}

/// What a request to `/api/generate` asks for.
#[derive(Clone, Copy, PartialEq, Eq, Structural)]
pub enum GenerateKind {
    /// To unload the model: an empty prompt that is to be kept for no time.
    Unload,
    /// To load the model: an empty prompt.
    Load,
    /// To answer the prompt.
    Generate,
}

/// What a request to `/api/generate` asks for.
pub open spec fn generate_kind_of(prompt: Seq<char>, keep_alive: Option<Json>) -> GenerateKind {
    if prompt.len() > 0 {
        GenerateKind::Generate
    } else if keep_alive == Some(Json::Int(0)) {
        GenerateKind::Unload
    } else {
        GenerateKind::Load
    }
}

/// What a request to `/api/generate` asks for.
pub fn generate_kind(req: &OllamaGenerateRequest) -> (r: GenerateKind)
    ensures
        r == generate_kind_of(req.prompt@, optional(req.keep_alive)),
{
    if !req.prompt.as_str().is_empty() {
        return GenerateKind::Generate;
    }
    let zero = match &req.keep_alive {
        Some(v) => match v.as_i64() {
            Some(n) => n == 0,
            None => false,
        },
        None => false,
    };
    if zero {
        GenerateKind::Unload
    } else {
        GenerateKind::Load
    }
}

} // verus!
