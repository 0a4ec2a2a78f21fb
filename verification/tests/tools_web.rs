use babak_code::models::{ToolCallRequest, ToolCallRequestFunction};
use babak_code::tools::{
    answer_without_running, apply_edit, check_range, count_occurrences, fd_args, finish_tool, join_lines, list_entry,
    missing_command, plan_tool_call, rg_args, search_answer, select_lines, tool_response,
    tools_catalog, unknown_tool, EditError, ReadError, ToolPlan,
};
use babak_code::text::split_lines;
use babak_code::web::{
    check_literal_host, check_url, forwarded_headers, redirect_step, redirect_target, RedirectStep, check_resolved_host, check_scheme, clamp_timeout, format_answer,
    is_private_ip, parse_method, request_failed, timed_out, IpAddress, Method,
};

fn call(name: &str, args: &str) -> ToolCallRequest {
    ToolCallRequest {
        id: "id1".to_string(),
        tool_type: Some("function".to_string()),
        function: ToolCallRequestFunction { index: 0, name: name.to_string(), arguments: args.to_string() },
        error: None,
    }
}

#[test]
fn read_file_call_takes_its_arguments() {
    match plan_tool_call(&call("read_file", r#"{"path":"src/a.rs","line_from":3,"line_to":9}"#)) {
        ToolPlan::ReadFile { path, line_from, line_to } => {
            assert_eq!(path, "src/a.rs");
            assert_eq!((line_from, line_to), (3, 9));
        }
        _ => panic!("expected a read"),
    }
}

#[test]
fn missing_arguments_take_their_defaults() {
    match plan_tool_call(&call("fd_search", r#"{"pattern":"x"}"#)) {
        ToolPlan::Fd { pattern, path, kind } => {
            assert_eq!(pattern, "x");
            assert_eq!(path, ".");
            assert_eq!(kind, None);
        }
        _ => panic!("expected fd"),
    }
    match plan_tool_call(&call("http_request", r#"{"url":"https://a.b","headers":{"X-A":"1","n":2}}"#)) {
        ToolPlan::Http { url, method, headers, body, timeout_secs } => {
            assert_eq!(url, "https://a.b");
            assert_eq!(method, "GET");
            assert_eq!(headers.len(), 2);
            assert!(headers.contains(&("X-A".to_string(), "1".to_string())));
            assert!(headers.contains(&("n".to_string(), "2".to_string())));
            assert_eq!(body, None);
            assert_eq!(timeout_secs, None);
        }
        _ => panic!("expected http"),
    }
}

#[test]
fn bash_without_command_and_unknown_tools() {
    assert!(matches!(plan_tool_call(&call("bash", "{}")), ToolPlan::MissingCommand));
    assert_eq!(missing_command().text, "command argument is mandatory");
    match plan_tool_call(&call("bash", r#"{"command":"ls","args":["-l", 3]}"#)) {
        ToolPlan::Bash { command, args } => {
            assert_eq!(command, "ls");
            assert_eq!(args, vec!["\"-l\"".to_string(), "3".to_string()]);
        }
        _ => panic!("expected bash"),
    }
    match plan_tool_call(&call("nope", "{}")) {
        ToolPlan::Unknown { name } => assert_eq!(name, "nope"),
        _ => panic!("expected unknown"),
    }
    assert_eq!(unknown_tool("\"nope\"").text, "Unknown tool: \"nope\"");
}

#[test]
fn tool_errors_carry_their_prefix() {
    let plan = plan_tool_call(&call("read_file", "{}"));
    assert_eq!(finish_tool(&plan, Err("boom".to_string())).text, "Error executing read tool: boom");
    assert_eq!(finish_tool(&plan, Ok("fine".to_string())).text, "fine");
    let r = tool_response(&call("x", "{}"), finish_tool(&plan, Ok("t".to_string())));
    assert_eq!(r.id, "id1");
    assert_eq!(r.result, "t");
}

#[test]
fn line_ranges_are_checked_and_selected() {
    let lines: Vec<String> = vec!["a".into(), "b".into(), "c".into()];
    assert_eq!(select_lines(&lines, 2, 3).ok().unwrap(), vec!["b", "c"]);
    assert_eq!(select_lines(&lines, 2, 10).ok().unwrap(), vec!["b", "c"]);
    assert!(matches!(select_lines(&lines, 3, 2), Err(ReadError::InvalidRange { from: 3, to: 2 })));
    assert!(matches!(select_lines(&lines, 0, 2), Err(ReadError::InvalidRange { .. })));
    match select_lines(&lines, 5, 6) {
        Err(e) => assert_eq!(e.to_text(), "Line 5 out of bounds, file has 3 lines"),
        Ok(_) => panic!("expected an error"),
    }
    assert!(check_range(1, 1).is_ok());
    match check_range(4, 2) {
        Err(e) => assert_eq!(e.to_text(), "Invalid range: 'from' (4) must be <= 'to' (2)"),
        Ok(_) => panic!("expected an error"),
    }
    assert_eq!(join_lines(&lines), "a\nb\nc");
}

#[test]
fn edits_replace_exactly_one_occurrence() {
    assert_eq!(apply_edit("a foo b", "foo", "bar").ok().unwrap(), "a bar b");
    assert!(matches!(apply_edit("a b", "foo", "bar"), Err(EditError::NotFound)));
    match apply_edit("foo foo", "foo", "bar") {
        Err(e) => {
            assert!(matches!(e, EditError::Ambiguous(2)));
            assert_eq!(e.to_text(), "old_text matches 2 locations — make it more specific");
        }
        Ok(_) => panic!("expected an error"),
    }
    assert_eq!(count_occurrences("aaaa", "aa"), 2);
    assert_eq!(count_occurrences("abc", ""), 4);
}

#[test]
fn directory_entries_and_search_arguments() {
    assert_eq!(list_entry("f.txt", true, false), Some("f.txt".to_string()));
    assert_eq!(list_entry("dir", false, true), Some("dir\\".to_string()));
    assert_eq!(list_entry("sock", false, false), None);
    assert_eq!(fd_args("p", ".", &Some("f".to_string())), vec!["p", ".", "--type", "f"]);
    assert_eq!(rg_args("p", "src", Some(-2)), vec!["--line-number", "--color=never", "-C", "-2", "p", "src"]);
    assert_eq!(search_answer(String::new()), "No matches found.");
    assert_eq!(search_answer("x".to_string()), "x");
    assert_eq!(tools_catalog().len(), 8);
}

#[test]
fn private_addresses_are_refused() {
    assert!(is_private_ip(IpAddress::V4(10, 0, 0, 1)));
    assert!(is_private_ip(IpAddress::V4(127, 0, 0, 1)));
    assert!(is_private_ip(IpAddress::V4(169, 254, 1, 1)));
    assert!(is_private_ip(IpAddress::V4(0, 1, 2, 3)));
    assert!(is_private_ip(IpAddress::V4(255, 255, 255, 255)));
    assert!(!is_private_ip(IpAddress::V4(8, 8, 8, 8)));
    assert!(is_private_ip(IpAddress::V6(0xfd12, 0, 0, 0, 0, 0, 0, 1)));
    assert!(is_private_ip(IpAddress::V6(0xfe80, 0, 0, 0, 0, 0, 0, 1)));
    assert!(is_private_ip(IpAddress::V6(0, 0, 0, 0, 0, 0, 0, 1)));
    assert!(!is_private_ip(IpAddress::V6(0x2001, 0x4860, 0, 0, 0, 0, 0, 0x8888)));
    assert!(check_literal_host("8.8.8.8", IpAddress::V4(8, 8, 8, 8)).is_ok());
    assert!(check_literal_host("10.0.0.1", IpAddress::V4(10, 0, 0, 1)).is_err());
    let resolved = Ok(vec![
        (IpAddress::V4(8, 8, 8, 8), "8.8.8.8".to_string()),
        (IpAddress::V4(192, 168, 0, 1), "192.168.0.1".to_string()),
    ]);
    match check_resolved_host("h", resolved) {
        Err(m) => assert_eq!(
            m,
            "Blocked: host 'h' resolves to private/internal IP 192.168.0.1. Only public URLs are allowed."
        ),
        Ok(()) => panic!("expected a refusal"),
    }
    match check_resolved_host("h", Err("no such host".to_string())) {
        Err(m) => assert_eq!(m, "Failed to resolve host 'h': no such host"),
        Ok(()) => panic!("expected an error"),
    }
}

#[test]
fn schemes_methods_and_timeouts() {
    assert!(check_scheme("https").is_ok());
    assert!(check_scheme("ftp").is_err());
    assert!(matches!(parse_method("post"), Method::Post));
    assert!(matches!(parse_method("Delete"), Method::Delete));
    assert!(matches!(parse_method("patch"), Method::Get));
    assert_eq!(clamp_timeout(None), 30);
    assert_eq!(clamp_timeout(Some(0)), 1);
    assert_eq!(clamp_timeout(Some(600)), 60);
    assert_eq!(request_failed("x"), "HTTP request failed: x");
    assert_eq!(timed_out(5), "Request timed out after 5 seconds.");
}

#[test]
fn answers_are_written_in_full() {
    let out = format_answer(
        Method::Get,
        "https://a.b/",
        200,
        "OK",
        &vec!["content-type: text/plain".to_string()],
        2,
        false,
        "hi",
    );
    assert_eq!(
        out,
        "GET https://a.b/\n\nStatus: 200 OK\n\nHeaders:\n  content-type: text/plain\n\nBody (2 bytes):\n\nhi"
    );
    let empty = format_answer(Method::Post, "u", 204, "", &vec![], 0, true, "");
    assert!(empty.ends_with("Body (0 bytes, truncated to 1 MB (empty)):\n\n"));
}

#[test]
fn urls_are_parsed_and_checked_before_any_lookup() {
    assert_eq!(
        check_url("http://Example.com"),
        Ok(("example.com".to_string(), "http://example.com/".to_string()))
    );
    assert_eq!(
        check_url("https://a.org:8443/x?y=1"),
        Ok(("a.org".to_string(), "https://a.org:8443/x?y=1".to_string()))
    );
    assert_eq!(
        check_url("ftp://files.example.com/a"),
        Err("Blocked: URL scheme 'ftp' is not allowed. Only http:// and https:// are supported.".to_string())
    );
    assert_eq!(
        check_url("not a url"),
        Err("Invalid URL 'not a url': relative URL without a base".to_string())
    );
    assert_eq!(check_url("http://"), Err("Invalid URL 'http://': empty host".to_string()));
}

#[test]
fn file_text_splits_into_lines() {
    assert_eq!(split_lines("a\r\nb\n\nc\n"), vec!["a", "b", "", "c"]);
    assert_eq!(split_lines("last"), vec!["last"]);
    assert!(split_lines("").is_empty());
}

#[test]
fn redirects_are_checked_hop_by_hop() {
    assert_eq!(
        redirect_target(0, "http://a.com/x", "/y"),
        Ok(("a.com".to_string(), "http://a.com/y".to_string()))
    );
    assert_eq!(
        redirect_target(4, "https://a.com/", "http://127.0.0.1/admin"),
        Ok(("127.0.0.1".to_string(), "http://127.0.0.1/admin".to_string()))
    );
    assert_eq!(
        check_literal_host("127.0.0.1", IpAddress::V4(127, 0, 0, 1)),
        Err("Blocked: 127.0.0.1 is a private/internal IP address. Only public URLs are allowed.".to_string())
    );
    assert_eq!(
        redirect_target(5, "http://a.com/", "/y"),
        Err("HTTP request failed: too many redirects".to_string())
    );
    assert_eq!(
        redirect_target(0, "http://a.com/", "file:///etc/passwd"),
        Err("Blocked: URL scheme 'file' is not allowed. Only http:// and https:// are supported.".to_string())
    );
    assert_eq!(
        redirect_target(0, "http://a.com/", "http://[::1"),
        Err("Invalid redirect location 'http://[::1': invalid IPv6 address".to_string())
    );
    assert!(matches!(redirect_step(200, Method::Get), RedirectStep::Answer));
    assert!(matches!(
        redirect_step(302, Method::Post),
        RedirectStep::Follow { method: Method::Get, keep_body: false }
    ));
    assert!(matches!(
        redirect_step(301, Method::Put),
        RedirectStep::Follow { method: Method::Put, keep_body: true }
    ));
    assert!(matches!(
        redirect_step(303, Method::Delete),
        RedirectStep::Follow { method: Method::Get, keep_body: false }
    ));
    assert!(matches!(
        redirect_step(307, Method::Post),
        RedirectStep::Follow { method: Method::Post, keep_body: true }
    ));
    let hs = vec![
        ("Authorization".to_string(), "t".to_string()),
        ("X-A".to_string(), "1".to_string()),
        ("cookie".to_string(), "c".to_string()),
    ];
    assert_eq!(forwarded_headers(&hs, false), hs);
    assert_eq!(forwarded_headers(&hs, true), vec![("X-A".to_string(), "1".to_string())]);
}

#[test]
fn calls_that_run_nothing_are_answered_at_once() {
    let unknown = answer_without_running(&ToolPlan::Unknown { name: "no\"pe".to_string() }).unwrap();
    assert_eq!(unknown.text, "Unknown tool: \"no\\\"pe\"");
    let missing = answer_without_running(&ToolPlan::MissingCommand).unwrap();
    assert_eq!(missing.text, "command argument is mandatory");
    assert!(answer_without_running(&ToolPlan::ListFiles { path: ".".to_string() }).is_none());
}
