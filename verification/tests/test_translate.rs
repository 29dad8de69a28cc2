use crewride::config::Provider;
use crewride::error::ProxyError;
use crewride::handlers::is_success_status;
use crewride::translate::{
    anthropic_answer_from_openai, anthropic_event_from_openai, answer_counts_fit, answer_or_error, gemini_answer_checked, openai_answer_checked, frame_events, gemini_answer, gemini_event_from_anthropic, gemini_event_from_openai,
    framed_event_output, gemini_request_body, join_parts, openai_answer, openai_event_from_anthropic,
    openai_event_from_gemini, joined_event_output, openai_request_body, openai_event, gemini_event, passes_through,
};

fn openai_request() -> &'static str {
    r#"{"model":"gpt-4","messages":[{"role":"user","content":"hi"}],"stream":true}"#
}

fn gemini_request() -> &'static str {
    r#"{"contents":[{"role":"user","parts":[{"text":"hi"}]}]}"#
}

#[test]
fn parts_are_joined_in_order() {
    let parts = vec![b"ab".to_vec(), vec![], b"c".to_vec()];
    assert_eq!(join_parts(&parts), b"abc".to_vec());
    assert!(join_parts(&vec![]).is_empty());
}

#[test]
fn events_are_framed_one_per_text() {
    let out = frame_events(&vec!["{\"a\":1}".to_string(), "2".to_string()]);
    assert_eq!(String::from_utf8(out).unwrap(), "data: {\"a\":1}\n\ndata: 2\n\n");
}

#[test]
fn done_marker_and_unparsed_data_give_nothing() {
    assert_eq!(joined_event_output("[DONE]", Some(vec![b"x".to_vec()])), None);
    assert_eq!(joined_event_output("{}", None), None);
    assert_eq!(joined_event_output("{}", Some(vec![b"x".to_vec(), b"y".to_vec()])), Some(b"xy".to_vec()));
    assert_eq!(framed_event_output("[DONE]", Some(vec!["j".to_string()])), None);
    assert_eq!(framed_event_output("{}", Some(vec!["j".to_string()])), Some(b"data: j\n\n".to_vec()));
    assert_eq!(openai_event_from_anthropic("[DONE]", "m"), None);
    assert_eq!(gemini_event_from_openai("[DONE]"), None);
    assert_eq!(gemini_event_from_anthropic("[DONE]", "m"), None);
    assert_eq!(openai_event_from_anthropic("not json", "m"), None);
    assert_eq!(gemini_event_from_openai("not json"), None);
}

#[test]
fn gemini_done_marker_becomes_openai_done_event() {
    assert_eq!(openai_event_from_gemini("[DONE]"), Some(b"data: [DONE]\n\n".to_vec()));
    assert_eq!(openai_event_from_gemini("not json"), None);
}

#[test]
fn anthropic_text_delta_becomes_openai_chunk_with_model() {
    let data = r#"{"event_type":"content_block_delta","index":0,"delta":{"type":"text_delta","text":"Hel"}}"#;
    let text = String::from_utf8(openai_event_from_anthropic(data, "my-model").unwrap()).unwrap();
    assert!(text.starts_with("data: "));
    assert!(text.ends_with("\n\n"));
    assert!(text.contains("my-model"));
    assert!(text.contains("chatcmpl-anthropic"));
    assert!(text.contains("Hel"));

    let text = String::from_utf8(gemini_event_from_anthropic(data, "my-model").unwrap()).unwrap();
    assert!(text.starts_with("data: "));
    assert!(text.contains("Hel"));
}

#[test]
fn answers_that_do_not_parse_are_internal_errors() {
    for kind in [Provider::OpenAI, Provider::Anthropic, Provider::Gemini] {
        let r = openai_answer(kind, "not json");
        assert!(matches!(r, Err(ProxyError::Internal(ref m)) if m == "Failed to parse response"));
        let r = gemini_answer(kind, "{");
        assert!(matches!(r, Err(ProxyError::Internal(ref m)) if m == "Failed to parse response"));
    }
    assert_eq!(answer_or_error(Some("x".to_string())).unwrap(), "x");
}

#[test]
fn straight_answers_are_rewritten_json() {
    assert_eq!(openai_answer(Provider::OpenAI, " {\"a\": [1, 2]} ").unwrap(), "{\"a\":[1,2]}");
    assert_eq!(gemini_answer(Provider::Gemini, "[true]").unwrap(), "[true]");
}

#[test]
fn openai_request_bodies_per_kind() {
    let req = openai_request();
    let body = openai_request_body(Provider::OpenAI, req, "gpt-4o").unwrap();
    let v: serde_json::Value = serde_json::from_str(&body).unwrap();
    assert_eq!(v["model"], "gpt-4o");

    let body = openai_request_body(Provider::Anthropic, req, "sonnet").unwrap();
    let v: serde_json::Value = serde_json::from_str(&body).unwrap();
    assert_eq!(v["model"], "sonnet");

    let body = openai_request_body(Provider::Gemini, req, "ignored").unwrap();
    let v: serde_json::Value = serde_json::from_str(&body).unwrap();
    assert!(v.get("contents").is_some());

    let body = openai_request_body(Provider::OpenAI, req, "gpt-4o").unwrap();
    let v: serde_json::Value = serde_json::from_str(&body).unwrap();
    assert_eq!(v["messages"][0]["role"], "user");
    assert_eq!(v["stream"], true);
    assert_eq!(v["messages"][0]["content"], "hi");

    for kind in [Provider::OpenAI, Provider::Anthropic, Provider::Gemini] {
        assert!(openai_request_body(kind, "not json", "m").is_none());
        assert!(openai_request_body(kind, r#"{"contents":[]}"#, "m").is_none());
    }
}

#[test]
fn gemini_request_bodies_per_kind() {
    let req = gemini_request();
    let body = gemini_request_body(Provider::OpenAI, req, "gpt-4", true).unwrap();
    let v: serde_json::Value = serde_json::from_str(&body).unwrap();
    assert_eq!(v["model"], "gpt-4");
    assert_eq!(v["stream"], true);

    let body = gemini_request_body(Provider::OpenAI, req, "gpt-4", false).unwrap();
    let v: serde_json::Value = serde_json::from_str(&body).unwrap();
    assert!(v.get("stream").map_or(true, |s| s.is_null()));

    let body = gemini_request_body(Provider::Anthropic, req, "sonnet", true).unwrap();
    let v: serde_json::Value = serde_json::from_str(&body).unwrap();
    assert_eq!(v["model"], "sonnet");
    assert_eq!(v["stream"], true);

    let body = gemini_request_body(Provider::Gemini, req, "ignored", false).unwrap();
    let v: serde_json::Value = serde_json::from_str(&body).unwrap();
    assert!(v.get("contents").is_some());
    assert_eq!(v["contents"][0]["parts"][0]["text"], "hi");

    let body = gemini_request_body(Provider::Anthropic, req, "sonnet", false).unwrap();
    let v: serde_json::Value = serde_json::from_str(&body).unwrap();
    assert_eq!(v["model"], "sonnet");
    assert!(v.get("stream").map_or(true, |s| s.is_null()));

    for kind in [Provider::OpenAI, Provider::Anthropic, Provider::Gemini] {
        assert!(gemini_request_body(kind, "not json", "m", true).is_none());
    }
}

#[test]
fn success_statuses() {
    assert!(is_success_status(200));
    assert!(is_success_status(299));
    assert!(!is_success_status(199));
    assert!(!is_success_status(300));
    assert!(!is_success_status(503));
}

#[test]
fn openai_stream_chunk_becomes_anthropic_events() {
    assert_eq!(anthropic_event_from_openai("[DONE]"), None);
    assert_eq!(anthropic_event_from_openai("nope"), None);
    let data = r#"{"id":"c1","object":"chat.completion.chunk","created":1,"model":"gpt-4","choices":[{"index":0,"delta":{"content":"Hi"},"finish_reason":null}]}"#;
    let text = String::from_utf8(anthropic_event_from_openai(data).unwrap()).unwrap();
    assert!(text.contains("Hi"));
    assert!(text.contains("event: "));
    let r = anthropic_answer_from_openai("[1,2]");
    assert!(matches!(r, Err(ProxyError::Internal(ref m)) if m == "Failed to parse response"));
}

#[test]
fn openai_answer_becomes_anthropic_message() {
    let body = r#"{"id":"r1","model":"gpt-4","created":1,"choices":[{"index":0,"message":{"role":"assistant","content":"Hello"},"finish_reason":"stop"}],"usage":{"prompt_tokens":3,"completion_tokens":2,"total_tokens":5}}"#;
    let text = anthropic_answer_from_openai(body).unwrap();
    let v: serde_json::Value = serde_json::from_str(&text).unwrap();
    assert_eq!(v["type"], "message");
    assert_eq!(v["id"], "r1");
    assert_eq!(v["usage"]["input_tokens"], 3);
    assert_eq!(v["stop_reason"], "stop");
    assert!(text.contains("Hello"));
}

#[test]
fn stream_translation_is_chosen_by_kind() {
    assert!(passes_through(Provider::OpenAI, Provider::OpenAI));
    assert!(!passes_through(Provider::Anthropic, Provider::OpenAI));
    assert_eq!(openai_event(Provider::Gemini, "[DONE]", "m"), Some(b"data: [DONE]\n\n".to_vec()));
    assert_eq!(openai_event(Provider::Anthropic, "[DONE]", "m"), None);
    let data = r#"{"event_type":"content_block_delta","index":0,"delta":{"type":"text_delta","text":"Hel"}}"#;
    assert_eq!(gemini_event(Provider::Anthropic, data, "m"), gemini_event_from_anthropic(data, "m"));
    let text = String::from_utf8(openai_event(Provider::Anthropic, data, "my-model").unwrap()).unwrap();
    assert!(text.contains("my-model"));
}

#[test]
fn openai_answer_becomes_gemini_answer() {
    let body = r#"{"id":"r1","model":"gpt-4","created":1,"choices":[{"index":0,"message":{"role":"assistant","content":"Hello"},"finish_reason":"stop"}],"usage":{"prompt_tokens":3,"completion_tokens":2,"total_tokens":5}}"#;
    let text = gemini_answer(Provider::OpenAI, body).unwrap();
    let v: serde_json::Value = serde_json::from_str(&text).unwrap();
    assert!(v.get("candidates").is_some());
    assert!(text.contains("Hello"));
    assert_ne!(text, openai_answer(Provider::OpenAI, body).unwrap());
}

fn anthropic_answer_body(input_tokens: u64, output_tokens: u64) -> String {
    format!(
        r#"{{"id":"msg_1","type":"message","role":"assistant","content":[{{"type":"text","text":"Hello"}}],"model":"m-1","stop_reason":"end_turn","usage":{{"input_tokens":{},"output_tokens":{}}}}}"#,
        input_tokens, output_tokens
    )
}

#[test]
fn anthropic_answer_becomes_openai_completion() {
    let body = anthropic_answer_body(3, 2);
    assert!(answer_counts_fit(Provider::Anthropic, &body));
    let text = openai_answer(Provider::Anthropic, &body).unwrap();
    let v: serde_json::Value = serde_json::from_str(&text).unwrap();
    assert_eq!(v["id"], "msg_1");
    assert_eq!(v["model"], "m-1");
    assert_eq!(v["choices"][0]["message"]["content"], "Hello");
    assert_eq!(v["choices"][0]["finish_reason"], "end_turn");
    assert_eq!(v["usage"]["total_tokens"], 5);
    assert_eq!(openai_answer_checked(Provider::Anthropic, &body).map(|r| r.is_ok()), Some(true));
}

#[test]
fn anthropic_answer_with_overflowing_counts_is_refused() {
    let body = anthropic_answer_body(4294967295, 1);
    assert!(!answer_counts_fit(Provider::Anthropic, &body));
    assert!(openai_answer_checked(Provider::Anthropic, &body).is_none());
    assert!(gemini_answer_checked(Provider::Anthropic, &body).is_none());
    let fits = anthropic_answer_body(4294967294, 1);
    assert!(answer_counts_fit(Provider::Anthropic, &fits));
    assert!(answer_counts_fit(Provider::OpenAI, &body));
    assert!(answer_counts_fit(Provider::Anthropic, "not json"));
    let r = openai_answer_checked(Provider::Anthropic, "not json");
    assert!(matches!(r, Some(Err(ProxyError::Internal(_)))));
}
