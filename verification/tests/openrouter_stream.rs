use babak_code::openrouter::{process_tool_call, ToolCall, ToolCallFunction};
use babak_code::sse::{complete_json_end, drain_available, drain_next_event, DrainResult};
use std::collections::HashMap;

#[test]
fn complete_json_end_finds_balanced_object() {
    let s = r#"{"choices":[{"delta":{"arguments":"\"path\""}}]}"#;
    assert_eq!(complete_json_end(s), Some(s.len()));
}

#[test]
fn complete_json_end_returns_none_for_truncated_object() {
    let s = r#"{"choices":[{"delta":{"arguments":"\"path\""#;
    assert_eq!(complete_json_end(s), None);
}

#[test]
fn drain_next_event_waits_for_complete_json_across_chunks() {
    let chunk1 = String::from("data: ")
        + r#"{"id":"gen-1","object":"chat.completion.chunk","created":1,"model":"m","choices":[{"index":0,"delta":{"content":null,"role":"assistant","tool_calls":[{"index":0,"function":{"arguments":"\"path\""#;
    let chunk2 = String::from(r#"me/bab"}}]},"finish_reason":null}]}"#) + "\n\n";

    let mut buffer = chunk1.to_string();
    assert!(matches!(drain_next_event(&mut buffer), DrainResult::Incomplete));

    buffer.push_str(&chunk2);
    match drain_next_event(&mut buffer) {
        DrainResult::Json(json) => {
            assert!(json.contains(r#""arguments":"\"path\"me/bab""#));
            serde_json::from_str::<serde_json::Value>(&json).expect("valid json");
        }
        _ => panic!("expected Json"),
    }
}

#[test]
fn drain_next_event_handles_done() {
    let mut buffer = "data: [DONE]\n\n".to_string();
    assert!(matches!(drain_next_event(&mut buffer), DrainResult::Done));
}

fn tool_object(index: usize, name: Option<String>, arguments: Option<String>) -> ToolCall {
    ToolCall {
        id: None,
        index: Some(index),
        function: ToolCallFunction { name, arguments },
        tool_type: Some(String::from("function")),
    }
}

struct Assertions {
    name: String,
    arguments: Option<String>,
    index: usize,
}

struct Testcase {
    times_called: usize,
    req: Vec<Vec<ToolCall>>,
    assertions: Vec<Assertions>,
}

#[test]
fn test_process_tool_call() {
    let tool_call: Vec<Vec<ToolCall>> = vec![
        vec![tool_object(0, Some(String::from("a")), None)],
        vec![tool_object(0, Some(String::from("b")), None)],
        vec![tool_object(0, Some(String::from("c")), None)],
        vec![tool_object(0, Some(String::from("b")), Some(String::from("b")))],
        vec![tool_object(0, None, Some(String::from("g")))],
    ];

    let tool_call_2: Vec<Vec<ToolCall>> = vec![
        vec![
            tool_object(1, Some(String::from("a")), None),
            tool_object(2, Some(String::from("b")), None),
        ],
        vec![tool_object(1, Some(String::from("c")), None)],
        vec![tool_object(2, Some(String::from("b")), Some(String::from("b")))],
        vec![tool_object(2, None, Some(String::from("g")))],
    ];
    let tcs: Vec<Testcase> = vec![
        Testcase {
            times_called: tool_call.len(),
            req: tool_call,
            assertions: vec![Assertions {
                name: "abcb".to_string(),
                arguments: Some("bg".to_string()),
                index: 0,
            }],
        },
        Testcase {
            times_called: tool_call_2.len(),
            req: tool_call_2,
            assertions: vec![
                Assertions { index: 1, name: "ac".to_string(), arguments: None },
                Assertions { index: 2, name: "bb".to_string(), arguments: Some("bg".to_string()) },
            ],
        },
    ];
    for tc in tcs.iter() {
        let mut agg: HashMap<usize, ToolCall> = HashMap::new();
        for i in 0..tc.times_called {
            process_tool_call(tc.req.get(i).unwrap(), &mut agg);
        }
        for assert in &tc.assertions {
            match agg.get(&assert.index) {
                Some(a) => {
                    assert_eq!(Some(assert.name.clone()), a.function.name);
                    assert_eq!(assert.arguments.clone(), a.function.arguments);
                }
                None => panic!("no item with the assertion index found"),
            }
        }
    }
}

#[test]
fn chunked_fragments_aggregate_like_one_chunk() {
    let frags = vec![
        tool_object(3, Some("rea".to_string()), Some("{\"pa".to_string())),
        tool_object(4, Some("ls".to_string()), None),
        tool_object(3, Some("d".to_string()), Some("th\":1}".to_string())),
    ];
    let mut whole: HashMap<usize, ToolCall> = HashMap::new();
    process_tool_call(&frags, &mut whole);
    let mut split: HashMap<usize, ToolCall> = HashMap::new();
    process_tool_call(&frags[..1], &mut split);
    process_tool_call(&frags[1..], &mut split);
    for idx in [3usize, 4] {
        assert_eq!(whole[&idx].function.name, split[&idx].function.name);
        assert_eq!(whole[&idx].function.arguments, split[&idx].function.arguments);
    }
    assert_eq!(whole[&3].function.name.as_deref(), Some("read"));
    assert_eq!(whole[&3].function.arguments.as_deref(), Some("{\"path\":1}"));
}

#[test]
fn fragment_without_index_is_ignored() {
    let mut agg: HashMap<usize, ToolCall> = HashMap::new();
    let mut t = tool_object(0, Some("x".to_string()), None);
    t.index = None;
    process_tool_call(&[t], &mut agg);
    assert!(agg.is_empty());
}

fn drain_until_wait(buffer: &mut String, out: &mut Vec<String>) -> bool {
    for event in drain_available(buffer) {
        match event {
            DrainResult::Incomplete => panic!("an incomplete buffer is no event"),
            DrainResult::Done => {
                out.push("done".to_string());
                return true;
            }
            DrainResult::Skipped => out.push("skipped".to_string()),
            DrainResult::Json(j) => out.push(j),
        }
    }
    false
}

#[test]
fn a_stream_split_anywhere_drains_as_whole() {
    let text = ": OPENROUTER PROCESSING\n\ndata: {\"a\":\"x: {y}\"}\n\nevent: ping\ndata: {\"b\":[1,{\"c\":\"\\\"}\"}]}\n\ndata: [DONE]\n\n";
    let mut whole = Vec::new();
    let mut buffer = text.to_string();
    drain_until_wait(&mut buffer, &mut whole);
    assert_eq!(whole.len(), 4);
    for cut in 0..=text.len() {
        if !text.is_char_boundary(cut) {
            continue;
        }
        let mut parts = Vec::new();
        let mut buffer = text[..cut].to_string();
        let done = drain_until_wait(&mut buffer, &mut parts);
        if !done {
            buffer.push_str(&text[cut..]);
            drain_until_wait(&mut buffer, &mut parts);
        }
        assert_eq!(parts, whole, "split at {cut}");
    }
}
