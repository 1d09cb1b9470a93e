//! The Anthropic Messages API.

use vstd::prelude::*;

use crate::clock;
use crate::cmd::serve::chat;
use crate::cmd::serve::chat::{MessageView, OAIChatRequest, OAIMessage};
use crate::cmd::serve::stream;
use crate::cmd::serve::stream::OAIChunk;
use crate::json as js;
use crate::json::Json;
use crate::text;

verus! {

/// A request to `/v1/messages`.
pub struct AnthropicRequest<F> {
    pub model: String,
    pub messages: Vec<AnthropicMessage>,
    pub max_tokens: Option<u32>,
    pub stream: bool,
    pub system: Option<AnthropicContent>,
    pub temperature: Option<F>,
    pub top_p: Option<F>,
}

pub struct AnthropicMessage {
    pub role: String,
    pub content: AnthropicContent,
}

/// The content of a message: a text, or blocks of which some are texts.
pub enum AnthropicContent {
    Text(String),
    Blocks(Vec<AnthropicBlock>),
}

pub struct AnthropicBlock {
    pub type_: String,
    pub text: Option<String>,
}

/// The texts of the text blocks, one behind the other.
pub open spec fn blocks_text(blocks: Seq<AnthropicBlock>) -> Seq<char>
    decreases blocks.len(),
{
    if blocks.len() == 0 {
        Seq::empty()
    } else {
        let b = blocks.last();
        blocks_text(blocks.drop_last()) + if b.type_@ == "text"@ && b.text is Some {
            b.text.unwrap()@
        } else {
            Seq::empty()
        }
    }
}

impl AnthropicContent {
    /// The text of a message.
    pub open spec fn text(self) -> Seq<char> {
        match self {
            AnthropicContent::Text(s) => s@,
            AnthropicContent::Blocks(blocks) => blocks_text(blocks@),
        }
    }

    /// The text of a message; blocks of other types than text do not count.
    pub fn as_text(&self) -> (r: String)
        ensures
            r@ == self.text(),
    {
        match self {
            AnthropicContent::Text(s) => s.clone(),
            AnthropicContent::Blocks(blocks) => {
                let mut out = String::new();
                let mut i: usize = 0;
                while i < blocks.len()
                    invariant
                        i <= blocks@.len(),
                        out@ == blocks_text(blocks@.take(i as int)),
                    decreases blocks.len() - i,
                {
                    let b = &blocks[i];
                    proof {
                        assert(blocks@.take(i + 1).drop_last() =~= blocks@.take(i as int));
                        assert(blocks@.take(i + 1).last() == *b);
                    }
                    if text::same(b.type_.as_str(), "text") {
                        if let Some(t) = &b.text {
                            out.append(t.as_str());
                        }
                    }
                    assert(out@ =~= blocks_text(blocks@.take(i + 1)));
                    i += 1;
                }
                assert(blocks@.take(i as int) =~= blocks@);
                out
            },
        }
    }
}

// ---------------------------------------------------------------------------
// The request
// ---------------------------------------------------------------------------

/// All the system text of a request: that of the request itself and that of the
/// system messages wherever they stand, as paragraphs in their order.
pub open spec fn system_text(system: Seq<char>, messages: Seq<AnthropicMessage>) -> Seq<char>
    decreases messages.len(),
{
    if messages.len() == 0 {
        system
    } else {
        let before = system_text(system, messages.drop_last());
        let m = messages.last();
        if m.role@ != "system"@ {
            before
        } else if before.len() > 0 {
            before + "\n\n"@ + m.content.text()
        } else {
            m.content.text()
        }
    }
}

/// The messages of a request but for the system messages, in their order.
pub open spec fn other_messages(messages: Seq<AnthropicMessage>) -> Seq<MessageView>
    decreases messages.len(),
{
    if messages.len() == 0 {
        Seq::empty()
    } else {
        let before = other_messages(messages.drop_last());
        let m = messages.last();
        if m.role@ == "system"@ {
            before
        } else {
            before.push(MessageView { role: m.role@, content: m.content.text() })
        }
    }
}

/// The messages that an engine gets: one system message in front where there is
/// any system text, and then all the others.
pub open spec fn engine_messages(system: Seq<char>, messages: Seq<AnthropicMessage>) -> Seq<
    MessageView,
> {
    let all = system_text(system, messages);
    if all.len() > 0 {
        seq![MessageView { role: "system"@, content: all }] + other_messages(messages)
    } else {
        other_messages(messages)
    }
}

impl<F> AnthropicRequest<F> {
    /// The system text of the request itself.
    pub open spec fn own_system(self) -> Seq<char> {
        match self.system {
            Some(c) => c.text(),
            None => Seq::empty(),
        }
    }
}

/// The messages that an engine gets for a request.
pub fn build_anthropic_messages<F>(req: &AnthropicRequest<F>) -> (r: Vec<OAIMessage>)
    ensures
        chat::messages_view(r@) == engine_messages(req.own_system(), req.messages@),
{
    let mut system = match &req.system {
        Some(c) => c.as_text(),
        None => String::new(),
    };
    let ghost own = req.own_system();
    assert(system@ =~= own);
    let mut messages: Vec<OAIMessage> = Vec::new();
    let mut i: usize = 0;
    assert(chat::messages_view(messages@) =~= Seq::empty());
    while i < req.messages.len()
        invariant
            i <= req.messages@.len(),
            system@ == system_text(own, req.messages@.take(i as int)),
            chat::messages_view(messages@) == other_messages(req.messages@.take(i as int)),
        decreases req.messages.len() - i,
    {
        let m = &req.messages[i];
        proof {
            assert(req.messages@.take(i + 1).drop_last() =~= req.messages@.take(i as int));
            assert(req.messages@.take(i + 1).last() == *m);
        }
        let ghost before = messages@;
        if text::same(m.role.as_str(), "system") {
            if !system.as_str().is_empty() {
                system.append("\n\n");
            }
            system.append(m.content.as_text().as_str());
            assert(system@ =~= system_text(own, req.messages@.take(i + 1)));
        } else {
            messages.push(OAIMessage { role: m.role.clone(), content: m.content.as_text() });
            assert(chat::messages_view(messages@) =~= chat::messages_view(before).push(
                messages@.last()@,
            ));
        }
        i += 1;
    }
    assert(req.messages@.take(i as int) =~= req.messages@);
    if !system.as_str().is_empty() {
        let ghost before = messages@;
        messages.insert(0, OAIMessage { role: "system".to_owned(), content: system });
        assert(chat::messages_view(messages@) =~= seq![
            MessageView { role: "system"@, content: system@ },
        ] + chat::messages_view(before));
    }
    messages
}

/// The request that an engine gets: as the client asks for it, under the name by
/// which the engine knows the model, and with the default repetition penalty,
/// since the API has none.
pub fn anthropic_request<F: Copy>(
    req: &AnthropicRequest<F>,
    model: String,
    default_penalty: F,
) -> (r: OAIChatRequest<F>)
    ensures
        r.model@ == model@,
        chat::messages_view(r.messages@) == engine_messages(req.own_system(), req.messages@),
        r.stream == req.stream,
        r.temperature == req.temperature,
        r.top_p == req.top_p,
        r.max_tokens == req.max_tokens,
        r.repeat_penalty == Some(default_penalty),
        r.chat_template_kwargs is None,
{
    OAIChatRequest {
        model,
        messages: build_anthropic_messages(req),
        stream: req.stream,
        temperature: req.temperature,
        top_p: req.top_p,
        max_tokens: req.max_tokens,
        repeat_penalty: Some(default_penalty),
        chat_template_kwargs: None,
    }
}

proof fn lemma_others_are_no_system(messages: Seq<AnthropicMessage>)
    ensures
        forall|i: int|
            0 <= i < other_messages(messages).len() ==> (#[trigger] other_messages(messages)[i]).role
                != "system"@,
    decreases messages.len(),
{
    if messages.len() > 0 {
        let before = other_messages(messages.drop_last());
        lemma_others_are_no_system(messages.drop_last());
        assert forall|i: int| 0 <= i < other_messages(messages).len() implies (
        #[trigger] other_messages(messages)[i]).role != "system"@ by {
            if i < before.len() {
                assert(other_messages(messages)[i] == before[i]);
            }
        }
    }
}

/// An engine never gets a system message behind the first message, and one in
/// front exactly where there is any system text.
pub proof fn law_one_system_message_in_front(system: Seq<char>, messages: Seq<AnthropicMessage>)
    ensures
        ({
            let out = engine_messages(system, messages);
            &&& forall|i: int| 1 <= i < out.len() ==> (#[trigger] out[i]).role != "system"@
            &&& system_text(system, messages).len() > 0 <==> (out.len() > 0 && out[0].role
                == "system"@)
        }),
{
    lemma_others_are_no_system(messages);
    let out = engine_messages(system, messages);
    let others = other_messages(messages);
    assert forall|i: int| 1 <= i < out.len() implies (#[trigger] out[i]).role != "system"@ by {
        if system_text(system, messages).len() > 0 {
            assert(out[i] == others[i - 1]);
        }
    }
}

// ---------------------------------------------------------------------------
// The reply
// ---------------------------------------------------------------------------

/// The name of a message: a point in time as 32 hexadecimal digits.
pub fn id_at(nanos: u128) -> (r: String)
    ensures
        r@ == text::hex(nanos as nat, 32, false),
{
    text::hex_str(nanos, 32, false)
}

/// A name for a message: the nanoseconds of a reading of the clock.
pub fn gen_id() -> (r: String)
    ensures
        exists|now: std::time::SystemTime|
            clock::is_system_reading(now) && r@ == text::hex(
                #[trigger] clock::epoch_nanos(now),
                32,
                false,
            ),
{
    id_at(clock::nanos_since_epoch(clock::system_reading()))
}

/// Messages of two points in time have different names.
pub proof fn law_ids_differ(a: u128, b: u128)
    requires
        a != b,
    ensures
        text::hex(a as nat, 32, false) != text::hex(b as nat, 32, false),
{
    use_pow();
    if text::hex(a as nat, 32, false) == text::hex(b as nat, 32, false) {
        text::lemma_hex_injective(a as nat, b as nat, 32, false);
    }
}

proof fn use_pow()
    ensures
        vstd::arithmetic::power::pow(16, 32) == 0x1_0000_0000_0000_0000_0000_0000_0000_0000,
{
    let p8 = vstd::arithmetic::power::pow(16, 8);
    assert(p8 == 0x1_0000_0000) by {
        reveal(vstd::arithmetic::power::pow);
        reveal_with_fuel(vstd::arithmetic::power::pow, 9);
    }
    vstd::arithmetic::power::lemma_pow_adds(16, 8, 8);
    vstd::arithmetic::power::lemma_pow_adds(16, 16, 16);
    let p16 = vstd::arithmetic::power::pow(16, 16);
    assert(p8 * p8 == 0x1_0000_0000_0000_0000) by (nonlinear_arith)
        requires
            p8 == 0x1_0000_0000,
    ;
    assert(p16 * p16 == 0x1_0000_0000_0000_0000_0000_0000_0000_0000) by (nonlinear_arith)
        requires
            p16 == 0x1_0000_0000_0000_0000,
    ;
}

/// The count of tokens, which is not kept.
pub open spec fn no_usage() -> Json {
    js::no_keys().with("input_tokens"@, Json::Int(0)).with("output_tokens"@, Json::Int(0))
}

/// The event that starts a message.
pub open spec fn message_start(id: Seq<char>, model: Seq<char>) -> Json {
    js::no_keys().with("type"@, Json::Str("message_start"@)).with(
        "message"@,
        js::no_keys().with("id"@, Json::Str(id)).with("type"@, Json::Str("message"@)).with(
            "role"@,
            Json::Str("assistant"@),
        ).with("content"@, Json::Array(Seq::empty())).with("model"@, Json::Str(model)).with(
            "stop_reason"@,
            Json::Null,
        ).with("usage"@, no_usage()),
    )
}

/// A text block.
pub open spec fn text_block(s: Seq<char>) -> Json {
    js::no_keys().with("type"@, Json::Str("text"@)).with("text"@, Json::Str(s))
}

/// The event that starts the one block of a message.
pub open spec fn block_start() -> Json {
    js::no_keys().with("type"@, Json::Str("content_block_start"@)).with("index"@, Json::Int(0)).with(
        "content_block"@,
        text_block(Seq::empty()),
    )
}

/// The event that adds content to the block.
pub open spec fn block_delta(content: Seq<char>) -> Json {
    js::no_keys().with("type"@, Json::Str("content_block_delta"@)).with("index"@, Json::Int(0)).with(
        "delta"@,
        js::no_keys().with("type"@, Json::Str("text_delta"@)).with("text"@, Json::Str(content)),
    )
}

/// The event that says why a message ends.
pub open spec fn message_delta() -> Json {
    js::no_keys().with("type"@, Json::Str("message_delta"@)).with(
        "delta"@,
        js::no_keys().with("stop_reason"@, Json::Str("end_turn"@)).with("stop_sequence"@, Json::Null),
    ).with("usage"@, js::no_keys().with("output_tokens"@, Json::Int(0)))
}

/// The event that ends a message.
pub open spec fn message_stop() -> Json {
    js::no_keys().with("type"@, Json::Str("message_stop"@))
}

/// An event on the wire: its name and its data.
pub open spec fn event(name: Seq<char>, data: Seq<char>) -> Seq<char> {
    "event: "@ + name + "\ndata: "@ + data + "\n\n"@
}

fn event_text(name: &str, data: &str) -> (r: String)
    ensures
        r@ == event(name@, data@),
{
    let mut s = "event: ".to_owned();
    s.append(name);
    s.append("\ndata: ");
    s.append(data);
    s.append("\n\n");
    s
}

fn new_text_block(s: String) -> (r: serde_json::Value)
    ensures
        js::json(r) == text_block(s@),
{
    let mut block = js::object();
    js::set(&mut block, "type", js::lit("text"));
    js::set(&mut block, "text", js::string(s));
    block
}

fn usage() -> (r: serde_json::Value)
    ensures
        js::json(r) == no_usage(),
{
    let mut usage = js::object();
    js::set(&mut usage, "input_tokens", js::integer(0));
    js::set(&mut usage, "output_tokens", js::integer(0));
    usage
}

/// What is sent before the first event of the engine: the start of the message
/// and of its block.
pub fn anthropic_preamble(id: String, model: &str) -> (r: String)
    ensures
        r@ == event("message_start"@, js::json_text(message_start(id@, model@))) + event(
            "content_block_start"@,
            js::json_text(block_start()),
        ),
{
    let mut message = js::object();
    js::set(&mut message, "id", js::string(id));
    js::set(&mut message, "type", js::lit("message"));
    js::set(&mut message, "role", js::lit("assistant"));
    let none: Vec<serde_json::Value> = Vec::new();
    assert(js::json_seq(none@) =~= Seq::<Json>::empty());
    js::set(&mut message, "content", js::array(none));
    js::set(&mut message, "model", js::lit(model));
    js::set(&mut message, "stop_reason", js::null());
    js::set(&mut message, "usage", usage());
    let mut start = js::object();
    js::set(&mut start, "type", js::lit("message_start"));
    js::set(&mut start, "message", message);
    let mut block = js::object();
    js::set(&mut block, "type", js::lit("content_block_start"));
    js::set(&mut block, "index", js::integer(0));
    let empty = String::new();
    assert(empty@ =~= Seq::<char>::empty());
    js::set(&mut block, "content_block", new_text_block(empty));
    let mut out = event_text("message_start", js::to_text(&start).as_str());
    out.append(event_text("content_block_start", js::to_text(&block).as_str()).as_str());
    out
}

/// The content of the first choice of a chunk.
pub open spec fn first_content(chunk: OAIChunk) -> Seq<char> {
    if chunk.choices@.len() == 0 {
        Seq::empty()
    } else {
        stream::text_or_empty(chunk.choices@[0].delta.content)
    }
}

/// The events for a payload of the engine. The chunk is what the payload holds,
/// if it is one.
pub open spec fn events(payload: Seq<char>, chunk: Option<OAIChunk>) -> Seq<char> {
    if payload == "[DONE]"@ {
        event("content_block_stop"@, "{\"type\":\"content_block_stop\",\"index\":0}"@) + event(
            "message_delta"@,
            js::json_text(message_delta()),
        ) + event("message_stop"@, js::json_text(message_stop()))
    } else {
        match chunk {
            Some(c) => if first_content(c).len() > 0 {
                event("content_block_delta"@, js::json_text(block_delta(first_content(c))))
            } else {
                Seq::empty()
            },
            None => Seq::empty(),
        }
    }
}

fn end_events() -> (r: String)
    ensures
        r@ == events("[DONE]"@, None),
{
    let mut out = event_text(
        "content_block_stop",
        "{\"type\":\"content_block_stop\",\"index\":0}",
    );
    let mut delta = js::object();
    js::set(&mut delta, "stop_reason", js::lit("end_turn"));
    js::set(&mut delta, "stop_sequence", js::null());
    let mut count = js::object();
    js::set(&mut count, "output_tokens", js::integer(0));
    let mut last = js::object();
    js::set(&mut last, "type", js::lit("message_delta"));
    js::set(&mut last, "delta", delta);
    js::set(&mut last, "usage", count);
    let mut stop = js::object();
    js::set(&mut stop, "type", js::lit("message_stop"));
    out.append(event_text("message_delta", js::to_text(&last).as_str()).as_str());
    out.append(event_text("message_stop", js::to_text(&stop).as_str()).as_str());
    out
}

fn delta_event(content: String) -> (r: String)
    ensures
        r@ == event("content_block_delta"@, js::json_text(block_delta(content@))),
{
    let mut delta = js::object();
    js::set(&mut delta, "type", js::lit("text_delta"));
    js::set(&mut delta, "text", js::string(content));
    let mut whole = js::object();
    js::set(&mut whole, "type", js::lit("content_block_delta"));
    js::set(&mut whole, "index", js::integer(0));
    js::set(&mut whole, "delta", delta);
    event_text("content_block_delta", js::to_text(&whole).as_str())
}

/// The events that are sent for a payload of the engine.
pub fn anthropic_events(payload: &str, chunk: Option<&OAIChunk>) -> (r: String)
    ensures
        r@ == events(
            payload@,
            match chunk {
                Some(c) => Some(*c),
                None => None,
            },
        ),
{
    if text::same(payload, "[DONE]") {
        return end_events();
    }
    match chunk {
        Some(c) => {
            if c.choices.len() == 0 {
                return String::new();
            }
            match &c.choices[0].delta.content {
                Some(s) => {
                    if s.as_str().is_empty() {
                        String::new()
                    } else {
                        delta_event(s.clone())
                    }
                },
                None => String::new(),
            }
        },
        None => String::new(),
    }
}

/// The content in an engine's whole reply: that of the message of its first
/// choice, and empty where there is none.
pub open spec fn reply_content(body: Json) -> Seq<char> {
    match body.at("choices"@) {
        Some(Json::Array(choices)) => if choices.len() > 0 {
            match choices[0].at("message"@) {
                Some(m) => match m.text_at("content"@) {
                    Some(s) => s,
                    None => Seq::empty(),
                },
                None => Seq::empty(),
            }
        } else {
            Seq::empty()
        },
        _ => Seq::empty(),
    }
}

/// The reply to a request that does not stream.
pub open spec fn whole_reply(id: Seq<char>, model: Seq<char>, content: Seq<char>) -> Json {
    js::no_keys().with("id"@, Json::Str("msg_"@ + id)).with("type"@, Json::Str("message"@)).with(
        "role"@,
        Json::Str("assistant"@),
    ).with("content"@, Json::Array(seq![text_block(content)])).with("model"@, Json::Str(model)).with(
        "stop_reason"@,
        Json::Str("end_turn"@),
    ).with("stop_sequence"@, Json::Null).with("usage"@, no_usage())
}

fn content_of(body: &serde_json::Value) -> (r: String)
    ensures
        r@ == reply_content(js::json(*body)),
{
    if let Some(c) = js::get(body, "choices") {
        if let Some(choices) = c.as_array() {
            if choices.len() > 0 {
                assert(js::json_seq(choices@)[0] == js::json(choices@[0]));
                if let Some(m) = js::get(&choices[0], "message") {
                    if let Some(v) = js::get(m, "content") {
                        if let Some(s) = v.as_str() {
                            return s.to_owned();
                        }
                    }
                }
            }
        }
    }
    String::new()
}

/// The reply to a request that does not stream, made of the engine's reply. The
/// model is named as the client named it.
pub fn anthropic_response(id: &str, model: &str, body: &serde_json::Value) -> (r: serde_json::Value)
    ensures
        js::json(r) == whole_reply(id@, model@, reply_content(js::json(*body))),
{
    let content = content_of(body);
    let mut name = "msg_".to_owned();
    name.append(id);
    let mut reply = js::object();
    js::set(&mut reply, "id", js::string(name));
    js::set(&mut reply, "type", js::lit("message"));
    js::set(&mut reply, "role", js::lit("assistant"));
    let mut blocks: Vec<serde_json::Value> = Vec::new();
    blocks.push(new_text_block(content));
    assert(js::json_seq(blocks@) =~= seq![text_block(content@)]);
    js::set(&mut reply, "content", js::array(blocks));
    js::set(&mut reply, "model", js::lit(model));
    js::set(&mut reply, "stop_reason", js::lit("end_turn"));
    js::set(&mut reply, "stop_sequence", js::null());
    js::set(&mut reply, "usage", usage());
    reply
}

} // verus!
