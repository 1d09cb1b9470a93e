use llmman::cmd::serve::anthropic::{
    anthropic_events, anthropic_preamble, anthropic_request, anthropic_response,
    build_anthropic_messages, gen_id, id_at, AnthropicBlock, AnthropicContent, AnthropicMessage,
    AnthropicRequest,
};
use llmman::cmd::serve::chat::OAIMessage;
use llmman::cmd::serve::stream::{OAIChunk, OAIChunkChoice, OAIChunkDelta};
use serde_json::Value;

fn json(s: &str) -> Value {
    serde_json::from_str(s).unwrap()
}

fn block(type_: &str, text: Option<&str>) -> AnthropicBlock {
    AnthropicBlock { type_: type_.to_string(), text: text.map(str::to_string) }
}

fn plain(s: &str) -> AnthropicContent {
    AnthropicContent::Text(s.to_string())
}

fn message(role: &str, content: &str) -> AnthropicMessage {
    AnthropicMessage { role: role.to_string(), content: plain(content) }
}

fn request(
    system: Option<AnthropicContent>,
    messages: Vec<AnthropicMessage>,
) -> AnthropicRequest<f64> {
    AnthropicRequest {
        model: "docker.io/ai/qwen3.5:0.8b".to_string(),
        messages,
        max_tokens: None,
        stream: false,
        system,
        temperature: None,
        top_p: None,
    }
}

fn pairs(messages: &[OAIMessage]) -> Vec<(&str, &str)> {
    messages.iter().map(|m| (m.role.as_str(), m.content.as_str())).collect()
}

/// A system message anywhere in the conversation, not just in the field for it,
/// is folded into one message in front.
#[test]
fn build_anthropic_messages_merges_system_role_messages_anywhere_in_the_conversation() {
    let req = request(
        Some(AnthropicContent::Blocks(vec![block("text", Some("leading system prompt"))])),
        vec![
            message("user", "hi"),
            message("assistant", "hello"),
            message("system", "a mid-conversation reminder"),
            message("user", "bye"),
        ],
    );
    let messages = build_anthropic_messages(&req);
    assert_eq!(
        pairs(&messages),
        vec![
            ("system", "leading system prompt\n\na mid-conversation reminder"),
            ("user", "hi"),
            ("assistant", "hello"),
            ("user", "bye"),
        ]
    );
}

#[test]
fn build_anthropic_messages_with_no_system_content_has_no_leading_system_message() {
    let req = request(None, vec![message("user", "hi")]);
    let messages = build_anthropic_messages(&req);
    assert_eq!(pairs(&messages), vec![("user", "hi")]);
}

#[test]
fn build_anthropic_messages_accepts_a_plain_string_system_field() {
    let req = request(Some(plain("you are a helpful assistant")), vec![message("user", "hi")]);
    let messages = build_anthropic_messages(&req);
    assert_eq!(
        pairs(&messages),
        vec![("system", "you are a helpful assistant"), ("user", "hi")]
    );
}

#[test]
fn anthropic_content_as_text_joins_text_blocks_and_ignores_other_types() {
    assert_eq!(plain("plain").as_text(), "plain");
    let blocks = AnthropicContent::Blocks(vec![
        block("text", Some("a")),
        block("image", None),
        block("text", Some("b")),
    ]);
    assert_eq!(blocks.as_text(), "ab");
    assert_eq!(AnthropicContent::Blocks(vec![]).as_text(), "");
}

#[test]
fn texts_of_other_blocks_and_text_blocks_without_text_add_nothing() {
    let blocks = AnthropicContent::Blocks(vec![
        block("thinking", Some("hidden")),
        block("text", None),
        block("text", Some("shown")),
    ]);
    assert_eq!(blocks.as_text(), "shown");
}

#[test]
fn an_empty_system_message_still_sets_a_paragraph_off() {
    let req = request(Some(plain("a")), vec![message("system", ""), message("user", "u")]);
    assert_eq!(pairs(&build_anthropic_messages(&req)), vec![("system", "a\n\n"), ("user", "u")]);
    let req = request(Some(plain("")), vec![message("system", ""), message("user", "u")]);
    assert_eq!(pairs(&build_anthropic_messages(&req)), vec![("user", "u")]);
}

#[test]
fn a_request_is_passed_on_with_the_default_penalty() {
    let mut req = request(Some(plain("s")), vec![message("user", "hi")]);
    req.max_tokens = Some(7);
    req.stream = true;
    req.temperature = Some(0.5);
    let out = anthropic_request(&req, "engine-name".to_string(), 1.1);
    assert_eq!(out.model, "engine-name");
    assert_eq!(pairs(&out.messages), vec![("system", "s"), ("user", "hi")]);
    assert!(out.stream);
    assert_eq!((out.temperature, out.top_p, out.max_tokens), (Some(0.5), None, Some(7)));
    assert_eq!(out.repeat_penalty, Some(1.1));
    assert!(out.chat_template_kwargs.is_none());
    req.stream = false;
    assert!(!anthropic_request(&req, String::new(), 1.1).stream);
}

#[test]
fn ids_are_the_time_in_hexadecimal() {
    assert_eq!(id_at(0), "00000000000000000000000000000000");
    assert_eq!(id_at(0xdead_beef), "000000000000000000000000deadbeef");
    assert_eq!(id_at(u128::MAX), "ffffffffffffffffffffffffffffffff");
    assert_ne!(id_at(1), id_at(2));
    let id = gen_id();
    assert_eq!(id.len(), 32);
    // The clock stands behind the year 2020.
    assert!(u128::from_str_radix(&id, 16).unwrap() > 1_577_836_800_000_000_000);
}

fn events(wire: &str) -> Vec<(String, Value)> {
    assert!(wire.ends_with("\n\n") || wire.is_empty());
    wire.split("\n\n")
        .filter(|e| !e.is_empty())
        .map(|e| {
            let (name, data) = e.split_once('\n').unwrap();
            (
                name.strip_prefix("event: ").unwrap().to_string(),
                json(data.strip_prefix("data: ").unwrap()),
            )
        })
        .collect()
}

#[test]
fn a_stream_starts_with_a_message_and_its_block() {
    let got = events(&anthropic_preamble("0a".to_string(), "qwen"));
    assert_eq!(got.len(), 2);
    assert_eq!(got[0].0, "message_start");
    assert_eq!(
        got[0].1,
        json(
            r#"{"type":"message_start","message":{"id":"0a","type":"message","role":"assistant",
            "content":[],"model":"qwen","stop_reason":null,
            "usage":{"input_tokens":0,"output_tokens":0}}}"#
        )
    );
    assert_eq!(got[1].0, "content_block_start");
    assert_eq!(
        got[1].1,
        json(
            r#"{"type":"content_block_start","index":0,"content_block":{"type":"text","text":""}}"#
        )
    );
}

fn chunk(content: Option<&str>) -> OAIChunk {
    OAIChunk {
        choices: vec![OAIChunkChoice {
            delta: OAIChunkDelta {
                content: content.map(str::to_string),
                reasoning_content: None,
                thinking: None,
            },
            finish_reason: None,
        }],
    }
}

#[test]
fn content_becomes_a_delta_and_the_end_three_events() {
    let got = events(&anthropic_events("x", Some(&chunk(Some("a\"b")))));
    assert_eq!(got.len(), 1);
    assert_eq!(got[0].0, "content_block_delta");
    assert_eq!(
        got[0].1,
        json(
            r#"{"type":"content_block_delta","index":0,"delta":{"type":"text_delta","text":"a\"b"}}"#
        )
    );
    let names: Vec<String> =
        events(&anthropic_events("[DONE]", None)).into_iter().map(|e| e.0).collect();
    assert_eq!(names, vec!["content_block_stop", "message_delta", "message_stop"]);
    let end = events(&anthropic_events("[DONE]", None));
    assert_eq!(end[0].1, json(r#"{"type":"content_block_stop","index":0}"#));
    assert_eq!(
        end[1].1,
        json(
            r#"{"type":"message_delta","delta":{"stop_reason":"end_turn","stop_sequence":null},
            "usage":{"output_tokens":0}}"#
        )
    );
    assert_eq!(end[2].1, json(r#"{"type":"message_stop"}"#));
}

#[test]
fn payloads_without_content_become_no_event() {
    assert_eq!(anthropic_events("x", Some(&chunk(Some("")))), "");
    assert_eq!(anthropic_events("x", Some(&chunk(None))), "");
    assert_eq!(anthropic_events("x", Some(&OAIChunk { choices: vec![] })), "");
    assert_eq!(anthropic_events("not json", None), "");
}

#[test]
fn a_whole_reply_holds_the_first_choice() {
    let body = json(r#"{"choices":[{"message":{"content":"hi"}},{"message":{"content":"no"}}]}"#);
    assert_eq!(
        anthropic_response("0a", "qwen", &body),
        json(
            r#"{"id":"msg_0a","type":"message","role":"assistant",
            "content":[{"type":"text","text":"hi"}],"model":"qwen","stop_reason":"end_turn",
            "stop_sequence":null,"usage":{"input_tokens":0,"output_tokens":0}}"#
        )
    );
    for empty in [
        r#"{}"#,
        r#"{"choices":[]}"#,
        r#"{"choices":[{}]}"#,
        r#"{"choices":[{"message":{"content":3}}]}"#,
        r#"[1]"#,
    ] {
        assert_eq!(anthropic_response("0a", "qwen", &json(empty))["content"][0]["text"], "");
    }
}
