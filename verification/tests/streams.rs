use babak_code::groq::{self, classify_line, GroqStream, LineKind};
use babak_code::lines::next_line;
use babak_code::models::{ModelResponseErr, ToolCallRequest, ToolCallRequestFunction};
use babak_code::ollama::{self, OllamaStream};
use babak_code::openrouter::{on_done, on_json, ResponseContext};
use babak_code::sse::{drain_next_event, DrainResult};

fn groq_event(content: Option<&str>, finish: bool) -> groq::ModelResponse {
    groq::ModelResponse {
        id: "x".to_string(),
        object: "chunk".to_string(),
        created: 1,
        model: "m".to_string(),
        system_fingerprint: String::new(),
        choices: vec![groq::Choice {
            index: 0,
            delta: Some(groq::Message {
                role: None,
                content: content.map(str::to_string),
                tool_calls: None,
                reasoning: None,
                channel: None,
                thinking: None,
            }),
            message: None,
            finish_reason: if finish { Some(groq::FinishReason::Stop) } else { None },
        }],
    }
}

#[test]
fn groq_stream_sends_parts_then_the_whole_answer() {
    let mut s = GroqStream::new();
    let first = s.on_event(Some(groq_event(Some("Hel"), false)));
    assert_eq!(first.len(), 1);
    assert_eq!(first[0].content.as_deref(), Some("Hel"));
    assert!(!first[0].done);
    let last = s.on_event(Some(groq_event(Some("lo"), true)));
    assert_eq!(last.len(), 2);
    assert_eq!(last[0].content.as_deref(), Some("lo"));
    assert!(last[1].done);
    assert_eq!(last[1].content.as_deref(), Some("Hello"));
    assert_eq!(last[1].role, "assistant");
}

#[test]
fn groq_stream_ignores_undecodable_lines_and_empty_choices() {
    let mut s = GroqStream::new();
    assert!(s.on_event(None).is_empty());
    let mut e = groq_event(None, false);
    e.choices.clear();
    assert!(s.on_event(Some(e)).is_empty());
}

#[test]
fn groq_tool_call_with_bad_arguments_becomes_null() {
    let mut s = GroqStream::new();
    let mut e = groq_event(None, false);
    e.choices[0].delta.as_mut().unwrap().tool_calls = Some(vec![groq::GroqToolCall {
        function: groq::GroqToolCallFunction { name: "read_file".to_string(), arguments: "{oops".to_string() },
        id: "c".to_string(),
        tool_type: "function".to_string(),
    }]);
    let out = s.on_event(Some(e));
    assert_eq!(out.len(), 1);
    let calls = out[0].tool_calls.as_ref().unwrap();
    assert_eq!(calls[0].function.arguments, "null");
    assert!(calls[0].error.as_ref().unwrap().starts_with("Failed to parse arguments as JSON: "));
    assert_eq!(calls[0].function.name, "read_file");
}

#[test]
fn lines_are_taken_and_classified() {
    let mut buf = "  data: {\"a\":1}  \npartial".to_string();
    assert_eq!(next_line(&mut buf), Some("data: {\"a\":1}".to_string()));
    assert_eq!(buf, "partial");
    assert_eq!(next_line(&mut buf), None);
    assert!(matches!(classify_line(""), LineKind::Blank));
    assert!(matches!(classify_line("data: [DONE]"), LineKind::Done));
    match classify_line("data: {\"x\": 1}") {
        LineKind::Payload(p) => assert_eq!(p, "{\"x\": 1}"),
        _ => panic!("expected a payload"),
    }
    match classify_line("data: {\"content\":\"a: b\"}") {
        LineKind::Payload(p) => assert_eq!(p, "{\"content\":\"a: b\"}"),
        _ => panic!("expected a payload"),
    }
    match classify_line("{\"x\":1}") {
        LineKind::Payload(p) => assert_eq!(p, "{\"x\":1}"),
        _ => panic!("expected a payload"),
    }
}

fn ollama_event(content: Option<&str>, done: bool) -> ollama::ModelResponse {
    ollama::ModelResponse {
        model: "gemma4".to_string(),
        created_at: "t".to_string(),
        done,
        message: ollama::ModelMessage {
            role: "assistant".to_string(),
            content: content.map(str::to_string),
            thinking: None,
            tool_calls: None,
        },
    }
}

#[test]
fn ollama_stream_ends_with_the_whole_answer() {
    let mut s = OllamaStream::new();
    let a = s.on_event(Some(ollama_event(Some("a"), false)));
    assert_eq!(a.len(), 1);
    assert_eq!(a[0].content.as_deref(), Some("a"));
    let b = s.on_event(Some(ollama_event(Some("b"), true)));
    let last = b.last().unwrap();
    assert!(last.done);
    assert_eq!(last.content.as_deref(), Some("ab"));
}

#[test]
fn ollama_tool_calls_are_forwarded() {
    let mut s = OllamaStream::new();
    let mut e = ollama_event(None, false);
    e.message.tool_calls = Some(vec![ToolCallRequest {
        id: "k".to_string(),
        tool_type: None,
        function: ToolCallRequestFunction { index: 0, name: "bash".to_string(), arguments: "{}".to_string() },
        error: None,
    }]);
    let out = s.on_event(Some(e));
    assert_eq!(out[0].tool_calls.as_ref().unwrap()[0].function.name, "bash");
}

#[test]
fn openrouter_done_concludes_the_answer() {
    let mut ctx = ResponseContext::new();
    let reply = on_done(&mut ctx);
    assert!(reply.stop);
    assert_eq!(reply.send.len(), 1);
    assert!(reply.send[0].done);
}

#[test]
fn openrouter_undecodable_event_is_a_parse_failure() {
    let mut ctx = ResponseContext::new();
    let reply = on_json("{\"x\":1}", Err("bad".to_string()), &mut ctx);
    assert!(reply.stop);
    assert!(matches!(reply.send[0].error, Some(ModelResponseErr::ParseErr(_))));
    let mut ctx = ResponseContext::new();
    let reply = on_json(": OPENROUTER PROCESSING", Err("bad".to_string()), &mut ctx);
    assert!(!reply.stop);
    assert!(reply.send.is_empty());
}

#[test]
fn events_are_drained_one_by_one() {
    let mut buf = "data: {\"a\":1}\n\ndata: {\"b\":2}\n\ndata: [DONE]\n\n".to_string();
    match drain_next_event(&mut buf) {
        DrainResult::Json(j) => assert_eq!(j, "{\"a\":1}"),
        _ => panic!("expected json"),
    }
    match drain_next_event(&mut buf) {
        DrainResult::Json(j) => assert_eq!(j, "{\"b\":2}"),
        _ => panic!("expected json"),
    }
    assert!(matches!(drain_next_event(&mut buf), DrainResult::Done));
}
