use llmman::cmd::serve::chat::{
    bool_true, chat_request, generate_kind, generate_request, opt_number, opt_u32,
    think_to_chat_template_kwargs, GenerateKind, OllamaChatRequest, OllamaGenerateRequest,
    OllamaMessage, Sampling,
};
use llmman::cmd::serve::responses::{
    consolidate_responses_instructions, filter_non_function_tools, read_openai_request,
    responses_input_item_text, sanitize_responses_request, takes_a_model, write_openai_request,
    BodyError,
};
use serde_json::Value;

fn json(s: &str) -> Value {
    serde_json::from_str(s).unwrap()
}

#[test]
fn filter_non_function_tools_drops_non_function_entries_only() {
    let mut req = json(
        r#"{
            "tools": [
                {"type": "function", "name": "exec_command"},
                {"type": "namespace", "name": "multi_agent_v1", "tools": [{"type": "function", "name": "close_agent"}]},
                {"type": "web_search"},
                {"type": "function", "name": "update_plan"}
            ]
        }"#,
    );
    filter_non_function_tools(&mut req);
    assert_eq!(
        req["tools"],
        json(
            r#"[
                {"type": "function", "name": "exec_command"},
                {"type": "function", "name": "update_plan"}
            ]"#
        )
    );
}

#[test]
fn filter_non_function_tools_is_a_no_op_without_a_tools_field() {
    let mut req = json(r#"{"model": "x"}"#);
    filter_non_function_tools(&mut req);
    assert_eq!(req, json(r#"{"model": "x"}"#));
}

#[test]
fn filtering_tools_leaves_all_else_and_need_not_be_repeated() {
    let mut req = json(
        r#"{"model": "x", "n": [1, 2], "tools": [1, {"type": 2}, {}, {"type": "function"}]}"#,
    );
    filter_non_function_tools(&mut req);
    let once = req.clone();
    assert_eq!(once, json(r#"{"model": "x", "n": [1, 2], "tools": [{"type": "function"}]}"#));
    filter_non_function_tools(&mut req);
    assert_eq!(req, once);
    for other in [r#"{"tools": {"type": "web_search"}}"#, r#"[{"type": "web_search"}]"#, "3", "null"] {
        let mut req = json(other);
        filter_non_function_tools(&mut req);
        assert_eq!(req, json(other));
    }
}

#[test]
fn consolidate_responses_instructions_folds_developer_and_system_input_items() {
    let mut req = json(
        r#"{
            "model": "docker.io/ai/qwen3.5:0.8b",
            "instructions": "top-level instructions",
            "input": [
                {"type": "message", "role": "developer", "content": [
                    {"type": "input_text", "text": "permissions instructions"}
                ]},
                {"type": "message", "role": "user", "content": [
                    {"type": "input_text", "text": "hi"}
                ]},
                {"type": "message", "role": "system", "content": "a plain-string system item"}
            ]
        }"#,
    );
    consolidate_responses_instructions(&mut req);
    assert_eq!(
        req["instructions"],
        "top-level instructions\n\npermissions instructions\n\na plain-string system item"
    );
    assert_eq!(
        req["input"],
        json(
            r#"[
                {"type": "message", "role": "user", "content": [
                    {"type": "input_text", "text": "hi"}
                ]}
            ]"#
        )
    );
}

#[test]
fn consolidate_responses_instructions_is_a_no_op_without_developer_or_system_items() {
    let mut req = json(
        r#"{
            "instructions": "top-level instructions",
            "input": [{"type": "message", "role": "user", "content": "hi"}]
        }"#,
    );
    let before = req.clone();
    consolidate_responses_instructions(&mut req);
    assert_eq!(req, before);
}

#[test]
fn consolidating_once_is_enough() {
    let mut req = json(
        r#"{"input": [{"role": "system", "content": ""}, {"role": "system", "content": "a"},
            {"role": "developer"}, {"role": "user"}, {"role": "developer", "content": [{"text": "b"}, {}, {"text": "c"}]}]}"#,
    );
    consolidate_responses_instructions(&mut req);
    let once = req.clone();
    assert_eq!(once, json(r#"{"instructions": "a\n\nbc", "input": [{"role": "user"}]}"#));
    consolidate_responses_instructions(&mut req);
    assert_eq!(req, once);
}

#[test]
fn requests_without_a_list_of_input_stay_as_they_are() {
    for other in [
        r#"{"instructions": "i", "input": "hi"}"#,
        r#"{"input": "hi"}"#,
        r#"{"instructions": 3, "input": []}"#,
        r#"[1]"#,
        "null",
    ] {
        let mut req = json(other);
        consolidate_responses_instructions(&mut req);
        assert_eq!(req, json(other));
    }
    // Without any text there are no instructions, though the item goes.
    let mut req = json(r#"{"input": [{"role": "system", "content": 3}]}"#);
    consolidate_responses_instructions(&mut req);
    assert_eq!(req, json(r#"{"input": []}"#));
}

#[test]
fn responses_input_item_text_ported_ollama_polymorphic_input_cases() {
    assert_eq!(
        responses_input_item_text(&json(r#"{"role": "user", "content": "plain"}"#)),
        Some("plain".into())
    );
    assert_eq!(
        responses_input_item_text(&json(
            r#"{"role": "user", "content": [
                {"type": "input_text", "text": "a"},
                {"type": "output_text", "text": "b"}
            ]}"#
        )),
        Some("ab".into())
    );
    // Blocks without a text field contribute nothing.
    assert_eq!(
        responses_input_item_text(&json(r#"{"content": [{"type": "input_image"}]}"#)),
        Some(String::new())
    );
    assert_eq!(
        responses_input_item_text(&json(r#"{"type": "function_call", "name": "f"}"#)),
        None
    );
    assert_eq!(responses_input_item_text(&json(r#"{"content": 42}"#)), None);
}

#[test]
fn a_responses_body_is_put_right_as_a_whole() {
    let body = br#"{"tools": [{"type": "web_search"}], "input": [{"role": "system", "content": "s"}]}"#;
    let out = sanitize_responses_request(body).ok().unwrap();
    let out: Value = serde_json::from_slice(&out).unwrap();
    assert_eq!(out, json(r#"{"tools": [], "input": [], "instructions": "s"}"#));
    match sanitize_responses_request(b"{\"a\":") {
        Err(e) => {
            assert!(matches!(e, BodyError::Parse(_)));
            assert_eq!(e.context(), "parse OpenAI request body");
        }
        Ok(_) => panic!(),
    }
}

#[test]
fn requests_are_passed_on_under_the_name_of_the_engine() {
    let (req, model) = read_openai_request(br#"{"model": "m", "n": 1.5}"#).ok().unwrap();
    assert_eq!(model, "m");
    assert!(takes_a_model(&req));
    let out = write_openai_request(req, "docker.io/ai/m:latest".to_string()).ok().unwrap();
    assert_eq!(out, br#"{"model":"docker.io/ai/m:latest","n":1.5}"#);
    let (req, model) = read_openai_request(br#"{"model": 3}"#).ok().unwrap();
    assert_eq!(model, "");
    assert!(takes_a_model(&req));
    assert!(takes_a_model(&json("null")));
    assert_eq!(write_openai_request(json("null"), "m".to_string()).ok().unwrap(), br#"{"model":"m"}"#);
    assert!(!takes_a_model(&json("[]")));
    assert!(!takes_a_model(&json("\"s\"")));
    assert!(matches!(read_openai_request(b"nothing"), Err(BodyError::Parse(_))));
}

#[test]
fn think_to_chat_template_kwargs_maps_booleans_and_ignores_levels() {
    assert_eq!(
        think_to_chat_template_kwargs(&Some(json("true"))),
        Some(json(r#"{ "enable_thinking": true }"#))
    );
    assert_eq!(
        think_to_chat_template_kwargs(&Some(json("false"))),
        Some(json(r#"{ "enable_thinking": false }"#))
    );
    for level in ["low", "medium", "high", "max", "minimal", "none"] {
        assert_eq!(
            think_to_chat_template_kwargs(&Some(Value::from(level))),
            None,
            "string level {level:?} must be a no-op"
        );
    }
    assert_eq!(think_to_chat_template_kwargs(&None), None);
}

fn opt_f64(opts: &Option<Value>, key: &str) -> Option<f32> {
    opt_number(opts, key)?.as_f64().map(|f| f as f32)
}

#[test]
fn option_extractors_ported_ollama_options_blob_cases() {
    let opts = Some(json(
        r####"{
            "temperature": 0.5,
            "top_p": 0.9,
            "num_predict": 128,
            "stop": ["### User:"]
        }"####,
    ));
    assert_eq!(opt_f64(&opts, "temperature"), Some(0.5));
    assert_eq!(opt_f64(&opts, "top_p"), Some(0.9));
    assert_eq!(opt_u32(&opts, "num_predict"), Some(128));
    // Missing key.
    assert_eq!(opt_f64(&opts, "repeat_penalty"), None);
    // Wrong type for the extractor.
    assert_eq!(opt_u32(&opts, "stop"), None);
    assert_eq!(opt_f64(&opts, "stop"), None);
    // Integers are numbers.
    assert_eq!(opt_f64(&opts, "num_predict"), Some(128.0));
    // No options blob at all.
    assert_eq!(opt_f64(&None, "temperature"), None);
    assert_eq!(opt_u32(&None, "num_predict"), None);
    // Fractions and negative numbers are none, and high bits are cut.
    assert_eq!(opt_u32(&opts, "temperature"), None);
    assert_eq!(opt_u32(&Some(json(r#"{"n": -1}"#)), "n"), None);
    assert_eq!(opt_u32(&Some(json(r#"{"n": 4294967297}"#)), "n"), Some(1));
}

fn ollama(role: &str, content: &str) -> OllamaMessage {
    OllamaMessage { role: role.to_string(), content: content.to_string(), thinking: Some("t".to_string()) }
}

#[test]
fn chats_are_always_streamed_and_penalised() {
    let req = OllamaChatRequest {
        model: "m".to_string(),
        messages: vec![ollama("system", "s"), ollama("user", "u")],
        stream: false,
        options: Some(json(r#"{"num_predict": 5}"#)),
        think: Some(json("false")),
    };
    let sampling = Sampling { temperature: Some(0.2), top_p: None, repeat_penalty: None };
    let out = chat_request(&req, "engine".to_string(), sampling, 1.1);
    assert_eq!(out.model, "engine");
    let pairs: Vec<(&str, &str)> =
        out.messages.iter().map(|m| (m.role.as_str(), m.content.as_str())).collect();
    assert_eq!(pairs, vec![("system", "s"), ("user", "u")]);
    assert!(out.stream);
    assert_eq!((out.temperature, out.top_p, out.repeat_penalty), (Some(0.2), None, Some(1.1)));
    assert_eq!(out.max_tokens, Some(5));
    assert_eq!(out.chat_template_kwargs, Some(json(r#"{"enable_thinking": false}"#)));
}

fn generate(prompt: &str, keep_alive: Option<&str>) -> OllamaGenerateRequest {
    OllamaGenerateRequest {
        model: "m".to_string(),
        prompt: prompt.to_string(),
        stream: bool_true(),
        options: None,
        keep_alive: keep_alive.map(json),
        think: None,
    }
}

#[test]
fn a_prompt_is_a_chat_of_one_turn() {
    let sampling = Sampling { temperature: None, top_p: Some(0.9), repeat_penalty: Some(1.5) };
    let out = generate_request(&generate("p", None), "engine".to_string(), sampling, 1.1);
    assert_eq!(out.messages.len(), 1);
    assert_eq!((out.messages[0].role.as_str(), out.messages[0].content.as_str()), ("user", "p"));
    assert!(out.stream);
    assert_eq!((out.top_p, out.repeat_penalty, out.max_tokens), (Some(0.9), Some(1.5), None));
    assert!(out.chat_template_kwargs.is_none());
}

#[test]
fn an_empty_prompt_loads_and_unloads() {
    assert!(generate_kind(&generate("p", Some("0"))) == GenerateKind::Generate);
    assert!(generate_kind(&generate("", Some("0"))) == GenerateKind::Unload);
    assert!(generate_kind(&generate("", None)) == GenerateKind::Load);
    assert!(generate_kind(&generate("", Some("5"))) == GenerateKind::Load);
    assert!(generate_kind(&generate("", Some("\"0\""))) == GenerateKind::Load);
    assert!(generate_kind(&generate("", Some("0.0"))) == GenerateKind::Load);
    assert!(generate_kind(&generate(" ", None)) == GenerateKind::Generate);
}
