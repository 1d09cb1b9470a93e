use llmman::cmd::serve::stream::{
    bytes_to_lines, chat_chunk, completion_payloads, generate_chunk, loading_chunk,
    oai_chunk_to_content, sse_payload, Completion, LineBuffer, OAIChunk, OAIChunkChoice,
    OAIChunkDelta,
};
use serde_json::Value;

fn text_at(v: &Value, key: &str) -> Option<String> {
    v.get(key).and_then(Value::as_str).map(str::to_string)
}

/// The chunk in a payload, if it holds one.
fn chunk(payload: &str) -> Option<OAIChunk> {
    let v: Value = serde_json::from_str(payload).ok()?;
    let choices = v.get("choices")?.as_array()?;
    Some(OAIChunk {
        choices: choices
            .iter()
            .map(|c| OAIChunkChoice {
                delta: OAIChunkDelta {
                    content: text_at(&c["delta"], "content"),
                    reasoning_content: text_at(&c["delta"], "reasoning_content"),
                    thinking: text_at(&c["delta"], "thinking"),
                },
                finish_reason: text_at(c, "finish_reason"),
            })
            .collect(),
    })
}

fn content(payload: &str) -> Option<(String, Option<String>, bool)> {
    oai_chunk_to_content(payload, chunk(payload).as_ref())
}

#[test]
fn oai_chunk_to_content_ported_ollama_stream_decoding_cases() {
    // Plain content token, stream not finished.
    assert_eq!(
        content(r#"{"choices":[{"delta":{"content":"hi"},"finish_reason":null}]}"#),
        Some(("hi".into(), None, false))
    );
    // finish_reason "stop" marks the stream done.
    assert_eq!(
        content(r#"{"choices":[{"delta":{"content":""},"finish_reason":"stop"}]}"#),
        Some((String::new(), None, true))
    );
    // The [DONE] sentinel also marks the stream done.
    assert_eq!(content("[DONE]"), Some((String::new(), None, true)));
    // The two spellings of the reasoning field both surface as thinking.
    assert_eq!(
        content(r#"{"choices":[{"delta":{"reasoning_content":"hmm"},"finish_reason":null}]}"#),
        Some((String::new(), Some("hmm".into()), false))
    );
    assert_eq!(
        content(r#"{"choices":[{"delta":{"thinking":"hmm"},"finish_reason":null}]}"#),
        Some((String::new(), Some("hmm".into()), false))
    );
    // An empty reasoning string is filtered out rather than surfaced.
    assert_eq!(
        content(
            r#"{"choices":[{"delta":{"content":"x","reasoning_content":""},"finish_reason":null}]}"#
        ),
        Some(("x".into(), None, false))
    );
    // Malformed JSON and an empty choices array are skipped, not fatal.
    assert_eq!(content("not json"), None);
    assert_eq!(content(r#"{"choices":[]}"#), None);
}

#[test]
fn reasons_to_finish() {
    assert_eq!(
        content(r#"{"choices":[{"delta":{"content":"a"},"finish_reason":"null"}]}"#),
        Some(("a".into(), None, false))
    );
    assert_eq!(
        content(r#"{"choices":[{"delta":{"content":"a"},"finish_reason":""}]}"#),
        Some(("a".into(), None, false))
    );
    assert_eq!(
        content(r#"{"choices":[{"delta":{},"finish_reason":"length"}]}"#),
        Some((String::new(), None, true))
    );
    // An empty first spelling hides the second.
    assert_eq!(
        content(
            r#"{"choices":[{"delta":{"reasoning_content":"","thinking":"t"},"finish_reason":null}]}"#
        ),
        Some((String::new(), None, false))
    );
}

#[test]
fn bytes_to_lines_ported_ollama_client_stream_chunking() {
    let chunks: Vec<Vec<u8>> = vec![
        // One logical line split across two chunks.
        b"data: {\"a\":".to_vec(),
        // ...ending CRLF, plus a complete LF-terminated line.
        b"1}\r\ndata: {\"b\":2}\n".to_vec(),
        // A trailing line with no terminator at all.
        b"data: tail".to_vec(),
    ];
    assert_eq!(
        bytes_to_lines(&chunks),
        vec![
            "data: {\"a\":1}".to_string(),
            "data: {\"b\":2}".to_string(),
            "data: tail".to_string(),
        ]
    );
}

#[test]
fn however_a_stream_is_cut_the_same_lines_come_out() {
    let whole = b"one\r\n\ntwo\r\r\nthree \r four\n\n";
    let expected = vec!["one", "", "two", "three \r four", ""];
    assert_eq!(bytes_to_lines(&vec![whole.to_vec()]), expected);
    for cut in 0..whole.len() {
        let pieces = vec![whole[..cut].to_vec(), whole[cut..].to_vec()];
        assert_eq!(bytes_to_lines(&pieces), expected);
    }
    assert!(bytes_to_lines(&vec![]).is_empty());
}

#[test]
fn a_cut_within_a_character_does_not_spoil_it() {
    let whole = "é\r\n\u{20ac}\u{1f600}\nü".as_bytes();
    let expected = vec!["é", "\u{20ac}\u{1f600}", "ü"];
    for a in 0..=whole.len() {
        for b in a..=whole.len() {
            let pieces = vec![whole[..a].to_vec(), whole[a..b].to_vec(), whole[b..].to_vec()];
            assert_eq!(bytes_to_lines(&pieces), expected);
        }
    }
}

#[test]
fn a_piece_that_is_no_text_is_replaced() {
    let mut buf = LineBuffer::new();
    buf.push(b"a\xffb\nrest");
    assert_eq!(buf.next_line().unwrap(), "a\u{fffd}b");
    assert!(buf.next_line().is_none());
    assert_eq!(buf.finish().unwrap(), "rest");
    assert!(buf.finish().is_none());
}

#[test]
fn payloads_stand_behind_a_mark() {
    assert_eq!(sse_payload("data: x").unwrap(), "x");
    assert_eq!(sse_payload("data: ").unwrap(), "");
    assert!(sse_payload("data:x").is_none());
    assert!(sse_payload(": comment").is_none());
    assert_eq!(
        completion_payloads(b"data: a\r\n\nevent: e\ndata: b").unwrap(),
        vec!["a", "b"]
    );
    assert!(completion_payloads(b"").is_none());
    assert!(completion_payloads(b"none").unwrap().is_empty());
}

#[test]
fn a_whole_reply_ends_with_its_last_chunk() {
    let mut c = Completion::new();
    for p in [
        r#"{"choices":[{"delta":{"content":"a"},"finish_reason":null}]}"#,
        "broken",
        r#"{"choices":[{"delta":{"content":"b"},"finish_reason":"stop"}]}"#,
        r#"{"choices":[{"delta":{"content":"c"},"finish_reason":null}]}"#,
        "[DONE]",
    ] {
        c.on_payload(p, chunk(p).as_ref());
    }
    assert_eq!((c.content.as_str(), c.done), ("ab", true));
}

fn is_timestamp(s: &str) -> bool {
    // Such as 2024-01-02T03:04:05Z.
    s.len() == 20 && s.ends_with('Z') && chrono::DateTime::parse_from_rfc3339(s).is_ok()
}

#[test]
fn chunks_carry_the_content_and_the_end() {
    let c = chat_chunk("m", ("hi".to_string(), Some("t".to_string()), false));
    assert_eq!((c.model.as_str(), c.message.role.as_str()), ("m", "assistant"));
    assert_eq!((c.message.content.as_str(), c.message.thinking.as_deref()), ("hi", Some("t")));
    assert!(!c.done && c.done_reason.is_none() && is_timestamp(&c.created_at));
    let c = chat_chunk("m", (String::new(), None, true));
    assert!(c.done && c.done_reason.as_deref() == Some("stop"));
    let g = generate_chunk("m", ("hi".to_string(), None, false));
    assert_eq!((g.model.as_str(), g.response.as_str(), g.thinking), ("m", "hi", None));
    assert!(!g.done && g.done_reason.is_none() && is_timestamp(&g.created_at));
    let g = generate_chunk("m", (String::new(), Some("t".to_string()), true));
    assert_eq!((g.thinking.as_deref(), g.done, g.done_reason.as_deref()), (Some("t"), true, Some("stop")));
}

#[test]
fn loading_and_unloading_is_answered_at_once() {
    let l = loading_chunk("m", false);
    assert_eq!((l.model.as_str(), l.response.as_str(), l.done), ("m", "", true));
    assert_eq!((l.thinking, l.done_reason.as_deref()), (None, Some("load")));
    assert_eq!(loading_chunk("m", true).done_reason.as_deref(), Some("unload"));
    assert!(is_timestamp(&l.created_at));
}
