use babak_code::blocks::MessageBlock;
use babak_code::models::MessageKind;
use babak_code::keys::{InputEvent, KeyCode, KeyEvent, KeyEventKind, KeyModifiers};
use babak_code::prompt::PromptEvent;
use babak_code::prompt_controller::{KeyRoute, PromptAction, PromptController};
use babak_code::styled::Color;
use babak_code::system_prompt::generate_system_prompt;
use babak_code::text_area::{cursor_like_span, TextArea};
use babak_code::tool_defs::{bash_tool, default_tools, fd_tool, read_tool};
use babak_code::web::header_lines;

fn key(code: KeyCode) -> InputEvent {
    InputEvent::Key(KeyEvent::new(code, KeyModifiers::none()))
}

#[test]
fn prompt_height_stays_between_two_and_five_rows() {
    let mut p = PromptController::new();
    assert_eq!(p.desired_height(), 4);
    p.handle_event(&InputEvent::Paste("a\nb\nc".to_string()));
    assert_eq!(p.desired_height(), 5);
    p.handle_event(&InputEvent::Paste("\nd\ne\nf\ng".to_string()));
    assert_eq!(p.lines().len(), 7);
    assert_eq!(p.desired_height(), 7);
}

#[test]
fn esc_alone_cancels_and_esc_with_modifier_clears() {
    let mut p = PromptController::new();
    p.handle_event(&InputEvent::Paste("abc".to_string()));
    assert!(matches!(p.handle_event(&key(KeyCode::Esc)), PromptAction::Emit(PromptEvent::Cancel)));
    assert_eq!(p.lines(), vec!["abc"]);
    let shift_esc = InputEvent::Key(KeyEvent::new(KeyCode::Esc, KeyModifiers::shift()));
    assert!(matches!(p.handle_event(&shift_esc), PromptAction::Nothing));
    assert_eq!(p.lines(), vec![""]);
}

#[test]
fn shift_enter_splits_and_enter_submits() {
    let mut p = PromptController::new();
    p.handle_event(&key(KeyCode::Char('a')));
    let shift_enter = InputEvent::Key(KeyEvent::new(KeyCode::Enter, KeyModifiers::shift()));
    p.handle_event(&shift_enter);
    p.handle_event(&key(KeyCode::Char('b')));
    assert_eq!(p.lines(), vec!["a", "b"]);
    match p.handle_event(&key(KeyCode::Enter)) {
        PromptAction::Emit(PromptEvent::Submitted(t)) => assert_eq!(t, "a\nb"),
        _ => panic!("expected a submission"),
    }
}

#[test]
fn ctrl_p_submits_and_ctrl_shift_v_asks_for_the_clipboard() {
    let mut p = PromptController::new();
    p.handle_event(&key(KeyCode::Char('x')));
    let ctrl_p = InputEvent::Key(KeyEvent::new(KeyCode::Char('p'), KeyModifiers::control()));
    assert!(matches!(p.handle_event(&ctrl_p), PromptAction::Emit(PromptEvent::Submitted(_))));
    let mut both = KeyModifiers::control();
    both.shift = true;
    let paste = InputEvent::Key(KeyEvent::new(KeyCode::Char('v'), both));
    assert!(matches!(p.handle_event(&paste), PromptAction::ReadClipboard));
    p.paste("clip");
    assert_eq!(p.lines(), vec!["clip"]);
}

#[test]
fn released_keys_and_control_letters_are_ignored() {
    let mut p = PromptController::new();
    let mut k = KeyEvent::new(KeyCode::Char('a'), KeyModifiers::none());
    k.kind = KeyEventKind::Release;
    assert!(matches!(PromptController::route(&k), KeyRoute::Ignore));
    p.handle_event(&InputEvent::Key(k));
    let ctrl_a = InputEvent::Key(KeyEvent::new(KeyCode::Char('a'), KeyModifiers::control()));
    p.handle_event(&ctrl_a);
    assert_eq!(p.lines(), vec![""]);
}

#[test]
fn typing_after_moving_inside_a_wide_character_is_refused() {
    let mut p = PromptController::new();
    p.handle_event(&key(KeyCode::Char('é')));
    p.handle_event(&key(KeyCode::Left));
    assert!(!p.accepts(&key(KeyCode::Char('x'))));
    assert!(p.accepts(&key(KeyCode::Left)));
}

#[test]
fn tools_offer_their_schemas() {
    let t = read_tool();
    assert_eq!(t.tool_type, "function");
    assert_eq!(t.function.name, "read_file");
    assert_eq!(t.function.strict, Some(true));
    let schema: serde_json::Value =
        serde_json::from_str(t.function.parameters.as_deref().unwrap()).unwrap();
    let required: Vec<&str> = schema["required"].as_array().unwrap().iter().map(|v| v.as_str().unwrap()).collect();
    assert_eq!(required, vec!["path", "line_from", "line_to"]);
    assert_eq!(schema["additionalProperties"], serde_json::Value::Bool(false));
    assert_eq!(fd_tool().function.strict, Some(false));
    assert!(bash_tool().function.description.contains("prefferedbefore bash access"));
}

#[test]
fn every_default_tool_has_a_valid_schema() {
    let tools = default_tools();
    let names: Vec<&str> = tools.iter().map(|t| t.function.name.as_str()).collect();
    assert_eq!(
        names,
        vec!["read_file", "list_files_and_directories", "create_file", "edit_file", "fd_search", "rg_search", "bash", "http_request"]
    );
    for t in &tools {
        let v: serde_json::Value = serde_json::from_str(t.function.parameters.as_deref().unwrap()).unwrap();
        assert_eq!(v["type"], serde_json::Value::String("object".to_string()));
    }
}

#[test]
fn system_prompt_names_directory_time_and_tools() {
    let p = generate_system_prompt("/work", "2026-01-01 10:00");
    assert!(p.starts_with("You are an intelligent software developer and architect. respond to the user messages with helpful answers, and use tools when necessary. current working directory is /work\ncurrent data and time is: 2026-01-01 10:00\n\nAvailable tools:\n\nTool: read_file\nDescription: Read a range of lines from a file."));
    assert!(p.contains("\n\nTool: bash\nDescription: "));
    assert!(p.ends_with("Internal/private IPs are blocked."));
}

#[test]
fn text_area_marks_the_cursor_cell() {
    let lines = vec!["abc".to_string()];
    let area = TextArea::new(&lines, (1, 0), true);
    let out = area.styled_lines();
    assert_eq!(out.len(), 1);
    let texts: Vec<&str> = out[0].spans.iter().map(|s| s.content.as_str()).collect();
    assert_eq!(texts, vec!["a", "b", "c"]);
    assert!(out[0].spans[1].style.reversed);
    assert_eq!(out[0].spans[1].style.fg, Some(Color::White));
    assert!(!out[0].spans[0].style.reversed);
}

#[test]
fn text_area_cursor_at_end_shows_a_space() {
    let lines = vec!["ab".to_string(), "".to_string()];
    let area = TextArea::new(&lines, (9, 0), true);
    let out = area.styled_lines();
    let texts: Vec<&str> = out[0].spans.iter().map(|s| s.content.as_str()).collect();
    assert_eq!(texts, vec!["ab", " "]);
    assert_eq!(out[1].spans.len(), 0);
    let c = cursor_like_span('q');
    assert_eq!(c.content, "q");
    assert!(c.style.reversed);
}

#[test]
fn text_area_highlights_the_command_token() {
    let lines = vec!["/models x".to_string()];
    let area = TextArea::new(&lines, (2, 0), true).with_command_prefix(7);
    let out = area.styled_lines();
    let texts: Vec<&str> = out[0].spans.iter().map(|s| s.content.as_str()).collect();
    assert_eq!(texts, vec!["/m", "o", "dels", " x"]);
    assert_eq!(out[0].spans[0].style.fg, Some(Color::Cyan));
    assert!(out[0].spans[0].style.bold);
    assert!(out[0].spans[1].style.reversed);
    assert_eq!(out[0].spans[2].style.fg, Some(Color::Cyan));
    assert_eq!(out[0].spans[3].style.fg, None);
    let unfocused = TextArea::new(&lines, (2, 0), false).with_command_prefix(7).styled_lines();
    let texts: Vec<&str> = unfocused[0].spans.iter().map(|s| s.content.as_str()).collect();
    assert_eq!(texts, vec!["/models", " x"]);
}

#[test]
fn response_headers_are_filtered_and_sorted() {
    let hs = vec![
        ("x-b".to_string(), Some("2".to_string())),
        ("set-cookie".to_string(), Some("secret".to_string())),
        ("content-type".to_string(), Some("text/plain".to_string())),
        ("authorization".to_string(), Some("t".to_string())),
        ("x-a".to_string(), None),
    ];
    assert_eq!(header_lines(&hs), vec!["content-type: text/plain", "x-a: <binary>", "x-b: 2"]);
}

fn texts_of(lines: &[babak_code::styled::Line]) -> Vec<Vec<(String, babak_code::styled::Style)>> {
    lines.iter().map(|l| l.spans.iter().map(|s| (s.content.clone(), s.style)).collect()).collect()
}

#[test]
fn toggling_twice_restores_a_block() {
    let mut thinking = MessageBlock::new(MessageKind::AssistantThinking, "a\nb".to_string());
    let before = texts_of(&thinking.build_lines());
    thinking.toggle_collapse();
    assert_ne!(texts_of(&thinking.build_lines()), before);
    thinking.toggle_collapse();
    assert_eq!(texts_of(&thinking.build_lines()), before);
    let mut user = MessageBlock::new(MessageKind::User, "hi".to_string());
    let before = texts_of(&user.build_lines());
    let h = user.height(20);
    user.toggle_collapse();
    assert_eq!(texts_of(&user.build_lines()), before);
    assert_eq!(user.height(20), h);
}
