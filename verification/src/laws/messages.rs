//! Laws of the messages that an engine gets for a request of the Messages API, and
//! of the reply to it.

use vstd::prelude::*;

use crate::clock;
use crate::cmd::serve::anthropic;
use crate::cmd::serve::anthropic::{
    AnthropicBlock, AnthropicContent, AnthropicMessage, AnthropicRequest,
};
use crate::cmd::serve::chat;
use crate::cmd::serve::chat::{MessageView, OAIChatRequest, OAIMessage};
use crate::cmd::serve::stream::OAIChunk;
use crate::json as js;
use crate::json::Json;
use crate::text;

verus! {

/// The text of a block: that of a text block, and none of any other.
pub open spec fn block_chars(b: AnthropicBlock) -> Seq<char> {
    if b.type_@ == "text"@ && b.text is Some {
        b.text.unwrap()@
    } else {
        seq![]
    }
}

proof fn lemma_blocks(blocks: Seq<AnthropicBlock>)
    ensures
        anthropic::blocks_text(blocks) == blocks.map_values(
            |b: AnthropicBlock| block_chars(b),
        ).flatten(),
    decreases blocks.len(),
{
    let f = |b: AnthropicBlock| block_chars(b);
    let parts = blocks.map_values(f);
    parts.lemma_flatten_and_flatten_alt_are_equivalent();
    if blocks.len() > 0 {
        let before = blocks.drop_last();
        lemma_blocks(before);
        before.map_values(f).lemma_flatten_and_flatten_alt_are_equivalent();
        assert(parts.drop_last() =~= before.map_values(f));
        assert(parts.last() =~= block_chars(blocks.last()));
    }
}

/// The text of a content is the text itself, or the texts of all its text blocks
/// in their order, with nothing between them.
pub proof fn law_all_blocks_are_read(c: &AnthropicContent, r: String)
    requires
        call_ensures(AnthropicContent::as_text, (c,), r),
    ensures
        c matches AnthropicContent::Text(s) ==> r@ == s@,
        c matches AnthropicContent::Blocks(blocks) ==> r@ == blocks@.map_values(
            |b: AnthropicBlock| block_chars(b),
        ).flatten(),
{
    if let AnthropicContent::Blocks(blocks) = c {
        lemma_blocks(blocks@);
    }
}

/// The system text that an engine gets: that of a system message in front.
pub open spec fn front(messages: Seq<OAIMessage>) -> Seq<char> {
    if messages.len() > 0 && messages[0].role@ == "system"@ {
        messages[0].content@
    } else {
        seq![]
    }
}

/// The messages behind a system message in front.
pub open spec fn behind(messages: Seq<OAIMessage>) -> Seq<MessageView> {
    if messages.len() > 0 && messages[0].role@ == "system"@ {
        chat::messages_view(messages).skip(1)
    } else {
        chat::messages_view(messages)
    }
}

proof fn lemma_engine_messages<F>(req: &AnthropicRequest<F>, r: Vec<OAIMessage>)
    requires
        call_ensures(anthropic::build_anthropic_messages::<F>, (req,), r),
    ensures
        front(r@) == anthropic::system_text(req.own_system(), req.messages@),
        behind(r@) == anthropic::other_messages(req.messages@),
        front(r@).len() == 0 ==> !(r@.len() > 0 && r@[0].role@ == "system"@),
{
    let all = anthropic::system_text(req.own_system(), req.messages@);
    let others = anthropic::other_messages(req.messages@);
    let out = anthropic::engine_messages(req.own_system(), req.messages@);
    let view = chat::messages_view(r@);
    anthropic::law_one_system_message_in_front(req.own_system(), req.messages@);
    if r@.len() > 0 {
        assert(view[0] == r@[0]@);
    }
    if all.len() > 0 {
        assert(out.skip(1) =~= others);
    } else {
        assert(all =~= seq![]);
    }
}

/// Without messages an engine gets the system text of the request, where it has
/// any, and nothing else: for blocks the texts of all of them.
pub proof fn law_a_request_without_messages<F>(
    req: &AnthropicRequest<F>,
    text: String,
    r: Vec<OAIMessage>,
)
    requires
        call_ensures(anthropic::build_anthropic_messages::<F>, (req,), r),
        req.messages@.len() == 0,
        req.system is Some ==> call_ensures(
            AnthropicContent::as_text,
            (&req.system.unwrap(),),
            text,
        ),
        req.system is None ==> text@.len() == 0,
    ensures
        front(r@) == text@,
        behind(r@).len() == 0,
        text@.len() == 0 ==> r@.len() == 0,
{
    lemma_engine_messages(req, r);
    assert(chat::messages_view(r@).len() == r@.len());
}

/// What one more message does to what an engine gets: a system message is a further
/// paragraph of the system text, and any other message comes last, under its role
/// and with its text; nothing else changes.
pub proof fn law_one_more_message<F>(
    req: &AnthropicRequest<F>,
    longer: &AnthropicRequest<F>,
    m: AnthropicMessage,
    text: String,
    r: Vec<OAIMessage>,
    s: Vec<OAIMessage>,
)
    requires
        longer.system == req.system,
        longer.messages@ == req.messages@.push(m),
        call_ensures(AnthropicContent::as_text, (&m.content,), text),
        call_ensures(anthropic::build_anthropic_messages::<F>, (req,), r),
        call_ensures(anthropic::build_anthropic_messages::<F>, (longer,), s),
    ensures
        m.role@ == "system"@ && front(r@).len() > 0 ==> front(s@) == front(r@) + "\n\n"@ + text@,
        m.role@ == "system"@ && front(r@).len() == 0 ==> front(s@) == text@,
        m.role@ == "system"@ ==> behind(s@) == behind(r@),
        m.role@ != "system"@ ==> front(s@) == front(r@),
        m.role@ != "system"@ ==> behind(s@) == behind(r@).push(
            (MessageView { role: m.role@, content: text@ }),
        ),
{
    lemma_engine_messages(req, r);
    lemma_engine_messages(longer, s);
    assert(longer.messages@.drop_last() =~= req.messages@);
    assert(longer.messages@.last() == m);
}

proof fn lemma_begins(own: Seq<char>, messages: Seq<AnthropicMessage>)
    requires
        own.len() > 0,
    ensures
        own.is_prefix_of(anthropic::system_text(own, messages)),
        (forall|i: int|
            0 <= i < messages.len() ==> (#[trigger] messages[i]).role@ != "system"@) ==> own
            == anthropic::system_text(own, messages),
    decreases messages.len(),
{
    let all = anthropic::system_text(own, messages);
    if messages.len() == 0 {
        assert(own =~= all.subrange(0, own.len() as int));
    } else {
        lemma_begins(own, messages.drop_last());
        let before = anthropic::system_text(own, messages.drop_last());
        assert(own =~= before.subrange(0, own.len() as int));
        assert(before.len() > 0);
        assert(own =~= all.subrange(0, own.len() as int));
        if forall|i: int|
            0 <= i < messages.len() ==> (#[trigger] messages[i]).role@ != "system"@ {
            assert(messages[messages.len() - 1].role@ != "system"@);
            assert forall|i: int| 0 <= i < messages.drop_last().len() implies (
            #[trigger] messages.drop_last()[i]).role@ != "system"@ by {
                assert(messages.drop_last()[i] == messages[i]);
            }
        }
    }
}

/// Whatever the messages of a request: where its own system field has any text, the
/// engine gets a system message that begins with the whole of it, and that is it
/// where no message is a system message.
pub proof fn law_the_whole_system_field_is_in_front<F>(
    req: &AnthropicRequest<F>,
    text: String,
    r: Vec<OAIMessage>,
)
    requires
        call_ensures(anthropic::build_anthropic_messages::<F>, (req,), r),
        req.system is Some,
        call_ensures(AnthropicContent::as_text, (&req.system.unwrap(),), text),
        text@.len() > 0,
    ensures
        r@.len() > 0,
        r@[0].role@ == "system"@,
        text@.is_prefix_of(r@[0].content@),
        (forall|i: int|
            0 <= i < req.messages@.len() ==> (#[trigger] req.messages@[i]).role@ != "system"@)
            ==> r@[0].content@ == text@,
{
    lemma_engine_messages(req, r);
    lemma_begins(text@, req.messages@);
}

/// The same, block by block: the system text that an engine gets for a system field
/// of blocks begins with the texts of all its text blocks, in their order.
pub proof fn law_all_system_blocks_are_in_front<F>(
    req: &AnthropicRequest<F>,
    blocks: Vec<AnthropicBlock>,
    r: Vec<OAIMessage>,
)
    requires
        call_ensures(anthropic::build_anthropic_messages::<F>, (req,), r),
        req.system == Some(AnthropicContent::Blocks(blocks)),
    ensures
        blocks@.map_values(|b: AnthropicBlock| block_chars(b)).flatten().is_prefix_of(front(r@)),
{
    let own = req.own_system();
    lemma_blocks(blocks@);
    lemma_engine_messages(req, r);
    if own.len() > 0 {
        lemma_begins(own, req.messages@);
    } else {
        assert(own =~= front(r@).subrange(0, 0));
    }
}

/// The request to an engine takes over what the client asks for: the messages made
/// of it, whether it streams, and each parameter as it is.
pub proof fn law_requests_are_taken_over<F: Copy>(
    req: &AnthropicRequest<F>,
    model: String,
    penalty: F,
    messages: Vec<OAIMessage>,
    r: OAIChatRequest<F>,
)
    requires
        call_ensures(anthropic::anthropic_request::<F>, (req, model, penalty), r),
        call_ensures(anthropic::build_anthropic_messages::<F>, (req,), messages),
    ensures
        r.model@ == model@,
        r.messages@.len() == messages@.len(),
        forall|i: int|
            0 <= i < messages@.len() ==> (#[trigger] r.messages@[i]).role@ == messages@[i].role@
                && r.messages@[i].content@ == messages@[i].content@,
        r.stream == req.stream,
        r.temperature == req.temperature,
        r.top_p == req.top_p,
        r.max_tokens == req.max_tokens,
        r.repeat_penalty == Some(penalty),
        r.chat_template_kwargs is None,
{
    let a = chat::messages_view(r.messages@);
    let b = chat::messages_view(messages@);
    assert(a.len() == r.messages@.len() && b.len() == messages@.len());
    assert forall|i: int| 0 <= i < messages@.len() implies (#[trigger] r.messages@[i]).role@
        == messages@[i].role@ && r.messages@[i].content@ == messages@[i].content@ by {
        assert(a[i] == r.messages@[i]@ && b[i] == messages@[i]@);
    }
}

/// The name of a message is the point in time at which it is made, in thirty-two
/// digits.
pub proof fn law_names_of_messages(nanos: u128, hex: String, r: String, now: String)
    requires
        call_ensures(anthropic::id_at, (nanos,), r),
        call_ensures(text::hex_str, (nanos, 32usize, false), hex),
        call_ensures(anthropic::gen_id, (), now),
    ensures
        r@ == hex@,
        exists|t: std::time::SystemTime|
            #![trigger clock::is_system_reading(t)]
            clock::is_system_reading(t) && (clock::system_nanos(t) >= 0 ==> now@ == text::hex(
                clock::system_nanos(t) as nat,
                32,
                false,
            )),
{
    let t = choose|t: std::time::SystemTime|
        clock::is_system_reading(t) && now@ == text::hex(
            #[trigger] clock::epoch_nanos(t),
            32,
            false,
        );
    assert(clock::is_system_reading(t));
}

/// An event of a stream: a line with its name, a line with its data, and an empty
/// line.
pub open spec fn on_the_wire(name: Seq<char>, data: Json) -> Seq<char> {
    "event: "@ + name + "\ndata: "@ + js::json_text(data) + "\n\n"@
}

/// The content that an engine sends comes out, character for character, as the text
/// of one event; a payload without content comes to nothing.
pub proof fn law_each_content_is_an_event(payload: &str, chunk: Option<&OAIChunk>, r: String)
    requires
        call_ensures(anthropic::anthropic_events, (payload, chunk), r),
        payload@ != "[DONE]"@,
    ensures
        ({
            let content = if chunk is Some && chunk.unwrap().choices@.len() > 0 {
                chunk.unwrap().choices@[0].delta.content
            } else {
                None
            };
            &&& content is None || content.unwrap()@.len() == 0 ==> r@.len() == 0
            &&& content is Some && content.unwrap()@.len() > 0 ==> r@ == on_the_wire(
                "content_block_delta"@,
                Json::Object(
                    map![
                    "type"@ => Json::Str("content_block_delta"@),
                    "index"@ => Json::Int(0),
                    "delta"@ => Json::Object(map![
                        "type"@ => Json::Str("text_delta"@),
                        "text"@ => Json::Str(content.unwrap()@),
                    ]),
                ],
                ),
            )
        }),
{
}

/// The end of a stream comes out as three events: the end of the block, the reason
/// for the end, and the end of the message.
pub proof fn law_the_end_is_three_events(payload: &str, chunk: Option<&OAIChunk>, r: String)
    requires
        call_ensures(anthropic::anthropic_events, (payload, chunk), r),
        payload@ == "[DONE]"@,
    ensures
        r@ == "event: "@ + "content_block_stop"@ + "\ndata: "@
            + "{\"type\":\"content_block_stop\",\"index\":0}"@ + "\n\n"@ + on_the_wire(
            "message_delta"@,
            Json::Object(
                map![
                "type"@ => Json::Str("message_delta"@),
                "delta"@ => Json::Object(map![
                    "stop_reason"@ => Json::Str("end_turn"@),
                    "stop_sequence"@ => Json::Null,
                ]),
                "usage"@ => Json::Object(map!["output_tokens"@ => Json::Int(0)]),
            ],
            ),
        ) + on_the_wire(
            "message_stop"@,
            Json::Object(map!["type"@ => Json::Str("message_stop"@)]),
        ),
{
}

/// The counts of tokens, both zero.
pub open spec fn zero_tokens() -> Json {
    Json::Object(map!["input_tokens"@ => Json::Int(0), "output_tokens"@ => Json::Int(0)])
}

/// A stream starts with the start of a message, under its name and for the model
/// asked for, and of its one block, which is an empty text.
pub proof fn law_a_stream_starts(id: String, model: &str, r: String)
    requires
        call_ensures(anthropic::anthropic_preamble, (id, model), r),
    ensures
        r@ == on_the_wire(
            "message_start"@,
            Json::Object(
                map![
                "type"@ => Json::Str("message_start"@),
                "message"@ => Json::Object(map![
                    "id"@ => Json::Str(id@),
                    "type"@ => Json::Str("message"@),
                    "role"@ => Json::Str("assistant"@),
                    "content"@ => Json::Array(seq![]),
                    "model"@ => Json::Str(model@),
                    "stop_reason"@ => Json::Null,
                    "usage"@ => zero_tokens(),
                ]),
            ],
            ),
        ) + on_the_wire(
            "content_block_start"@,
            Json::Object(
                map![
                "type"@ => Json::Str("content_block_start"@),
                "index"@ => Json::Int(0),
                "content_block"@ => Json::Object(map![
                    "type"@ => Json::Str("text"@),
                    "text"@ => Json::Str(seq![]),
                ]),
            ],
            ),
        ),
{
}

/// Whether a reply of an engine has this text as the content of the message of its
/// first choice.
pub open spec fn has_content(body: Json, s: Seq<char>) -> bool {
    &&& body matches Json::Object(b)
    &&& b.contains_key("choices"@)
    &&& b["choices"@] matches Json::Array(choices)
    &&& choices.len() > 0
    &&& choices[0] matches Json::Object(c)
    &&& c.contains_key("message"@)
    &&& c["message"@] matches Json::Object(m)
    &&& m.contains_key("content"@)
    &&& m["content"@] == Json::Str(s)
}

/// The reply to a request that does not stream holds one text: the content that the
/// engine gave, character for character, and an empty one where it gave none.
pub proof fn law_a_whole_reply_is_one_text(
    id: &str,
    model: &str,
    body: &serde_json::Value,
    content: Seq<char>,
    r: serde_json::Value,
)
    requires
        call_ensures(anthropic::anthropic_response, (id, model, body), r),
        has_content(js::json(*body), content) || (content.len() == 0 && forall|s: Seq<char>|
            !has_content(js::json(*body), s)),
    ensures
        js::json(r) == Json::Object(
            map![
            "id"@ => Json::Str("msg_"@ + id@),
            "type"@ => Json::Str("message"@),
            "role"@ => Json::Str("assistant"@),
            "content"@ => Json::Array(seq![Json::Object(map![
                "type"@ => Json::Str("text"@),
                "text"@ => Json::Str(content),
            ])]),
            "model"@ => Json::Str(model@),
            "stop_reason"@ => Json::Str("end_turn"@),
            "stop_sequence"@ => Json::Null,
            "usage"@ => zero_tokens(),
        ],
        ),
{
    let got = anthropic::reply_content(js::json(*body));
    if got.len() > 0 {
        assert(has_content(js::json(*body), got));
    }
    assert(got =~= content);
}

} // verus!
