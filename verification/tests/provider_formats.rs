use ai_gateway::convert::{
    anthropic_finish_reason, gemini_finish_reason, join_parts, join_text_blocks, message_text,
    plain_turns, split_system, usage_from_counts, ChatMessage, MessageContent,
};
use ai_gateway::log_buffer::{level_to_str, LogBuffer, LogLevel, MAX_LOG_ENTRIES};
use ai_gateway::stream::{
    gemini_batch_delta, json_lines, ollama_batch_delta, openai_batch, sse_data, sse_payloads,
    trimmed_lines, AnthropicEvent, AnthropicStream, GeminiCandidate, OllamaRecord, OpenAiBatch,
};

fn msg(role: &str, text: &str) -> ChatMessage {
    ChatMessage { role: role.to_string(), content: Some(MessageContent::Text(text.to_string())) }
}

#[test]
fn message_text_variants() {
    assert_eq!(message_text(&Some(MessageContent::Text("hi".to_string()))), "hi");
    assert_eq!(
        message_text(&Some(MessageContent::Parts(vec![Some("first".to_string()), Some("second".to_string())]))),
        "first"
    );
    assert_eq!(message_text(&Some(MessageContent::Parts(vec![None, Some("x".to_string())]))), "");
    assert_eq!(message_text(&Some(MessageContent::Parts(vec![]))), "");
    assert_eq!(message_text(&None), "");
}

#[test]
fn system_prompt_is_split_off() {
    let msgs = vec![
        msg("system", "be brief"),
        msg("user", "hello"),
        msg("assistant", "hi"),
        msg("tool", "result"),
        msg("system", "be kind"),
    ];
    let (system, turns) = split_system(&msgs, "model");
    assert_eq!(system.as_deref(), Some("be kind"));
    let got: Vec<(&str, &str)> = turns.iter().map(|t| (t.role.as_str(), t.text.as_str())).collect();
    assert_eq!(got, vec![("user", "hello"), ("model", "hi"), ("user", "result")]);

    let (system, turns) = split_system(&vec![msg("user", "x")], "assistant");
    assert!(system.is_none());
    assert_eq!(turns.len(), 1);
}

#[test]
fn plain_turns_keep_roles() {
    let turns = plain_turns(&vec![msg("system", "s"), msg("user", "u")]);
    assert_eq!(turns[0].role, "system");
    assert_eq!(turns[1].text, "u");
}

#[test]
fn finish_reasons() {
    assert_eq!(anthropic_finish_reason("end_turn"), "stop");
    assert_eq!(anthropic_finish_reason("stop_sequence"), "stop");
    assert_eq!(anthropic_finish_reason("max_tokens"), "length");
    assert_eq!(anthropic_finish_reason("tool_use"), "tool_use");
    assert_eq!(gemini_finish_reason("STOP"), "stop");
    assert_eq!(gemini_finish_reason("MAX_TOKENS"), "length");
    assert_eq!(gemini_finish_reason("SAFETY"), "safety");
}

#[test]
fn response_text_and_usage() {
    assert_eq!(join_parts(&vec![Some("a".to_string()), None, Some("b".to_string())]), "ab");
    let blocks = vec![
        ("text".to_string(), Some("Hello".to_string())),
        ("tool_use".to_string(), Some("ignored".to_string())),
        ("text".to_string(), None),
        ("text".to_string(), Some(" world".to_string())),
    ];
    assert_eq!(join_text_blocks(&blocks), "Hello world");
    let u = usage_from_counts(12, 30);
    assert_eq!((u.prompt_tokens, u.completion_tokens, u.total_tokens), (12, 30, 42));
    assert_eq!(usage_from_counts(u32::MAX, 1).total_tokens, u32::MAX);
}

#[test]
fn lines_are_split_and_trimmed() {
    assert_eq!(trimmed_lines("a\r\n  b  \n\nc"), vec!["a", "b", "", "c"]);
    assert_eq!(trimmed_lines("x\n"), vec!["x"]);
    assert_eq!(trimmed_lines("\n"), vec![""]);
    assert!(trimmed_lines("").is_empty());
    assert_eq!(trimmed_lines("\u{3000}wide\u{3000}"), vec!["wide"]);
}

#[test]
fn server_sent_event_payloads() {
    assert_eq!(sse_data("data: {\"a\":1}").as_deref(), Some("{\"a\":1}"));
    assert_eq!(sse_data("event: ping"), None);
    let text = "event: message_start\ndata: one\n\n  data: two  \r\ndata:three\n";
    assert_eq!(sse_payloads(text), vec!["one", "two"]);
    assert_eq!(json_lines("{\"x\":1}\n\n  {\"y\":2}\n"), vec!["{\"x\":1}", "{\"y\":2}"]);
}

#[test]
fn openai_batches() {
    assert!(matches!(openai_batch("data: [DONE]\n\n"), OpenAiBatch::Done));
    match openai_batch("data: {\"id\":1}\ndata: [DONE]\n") {
        OpenAiBatch::Payload(p) => assert_eq!(p, "{\"id\":1}"),
        other => panic!("unexpected {:?}", other),
    }
    assert!(matches!(openai_batch(": keep-alive\n"), OpenAiBatch::Nothing));
}

fn ev(t: &str, id: Option<&str>, text: Option<&str>) -> AnthropicEvent {
    AnthropicEvent {
        event_type: t.to_string(),
        message_id: id.map(|s| s.to_string()),
        delta_text: text.map(|s| s.to_string()),
    }
}

#[test]
fn anthropic_stream_events() {
    let mut s = AnthropicStream::new();
    assert!(s.on_batch(&vec![ev("message_start", Some("msg_1"), None)]).is_none());
    assert_eq!(s.message_id, "msg_1");
    let d = s
        .on_batch(&vec![ev("ping", None, None), ev("content_block_delta", None, Some("Hel")), ev("content_block_delta", None, Some("lo"))])
        .unwrap();
    assert_eq!(d.id, "msg_1");
    assert_eq!(d.content.as_deref(), Some("Hel"));
    assert!(d.finish_reason.is_none());
    let d = s.on_batch(&vec![ev("message_delta", None, None), ev("message_stop", None, None)]).unwrap();
    assert_eq!(d.content, None);
    assert_eq!(d.finish_reason.as_deref(), Some("stop"));
}

#[test]
fn gemini_and_ollama_batches() {
    let cands = vec![
        None,
        Some(GeminiCandidate { parts: vec![Some("Hi".to_string()), Some("!".to_string())], finish_reason: Some("STOP".to_string()) }),
        Some(GeminiCandidate { parts: vec![], finish_reason: None }),
    ];
    let d = gemini_batch_delta("gemini-1", &cands).unwrap();
    assert_eq!(d.id, "gemini-1");
    assert_eq!(d.content.as_deref(), Some("Hi!"));
    assert_eq!(d.finish_reason.as_deref(), Some("stop"));
    assert!(gemini_batch_delta("g", &vec![None, None]).is_none());

    let recs = vec![None, Some(OllamaRecord { content: "tok".to_string(), done: true })];
    let d = ollama_batch_delta("ollama-1", &recs).unwrap();
    assert_eq!(d.content.as_deref(), Some("tok"));
    assert_eq!(d.finish_reason.as_deref(), Some("stop"));
    let d = ollama_batch_delta("o", &vec![Some(OllamaRecord { content: "a".to_string(), done: false })]).unwrap();
    assert!(d.finish_reason.is_none());
}

#[test]
fn log_buffer_keeps_newest_entries() {
    assert_eq!(level_to_str(LogLevel::Warn), "WARN");
    let mut b = LogBuffer::new();
    for i in 0..(MAX_LOG_ENTRIES + 3) {
        b.push_at(format!("t{}", i), LogLevel::Info, &format!("m{}", i));
    }
    let e = b.entries();
    assert_eq!(e.len(), MAX_LOG_ENTRIES);
    assert_eq!(e[0].message, "m3");
    assert_eq!(e[MAX_LOG_ENTRIES - 1].message, format!("m{}", MAX_LOG_ENTRIES + 2));
    assert_eq!(e[0].level, "INFO");
    b.push(LogLevel::Error, "boom");
    assert_eq!(b.entries().last().unwrap().level, "ERROR");
    let ts: Vec<char> = b.entries().last().unwrap().timestamp.chars().collect();
    assert_eq!(ts.len(), 12);
    for (i, c) in ts.iter().enumerate() {
        match i {
            2 | 5 => assert_eq!(*c, ':'),
            8 => assert_eq!(*c, '.'),
            _ => assert!(c.is_ascii_digit()),
        }
    }
}
