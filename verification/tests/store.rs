use babak_code::command_registry::CommandController;
use babak_code::blocks::{command_block, compute_height, thinking_block, user_block, ResponseBlock};
use babak_code::commands::{parse_command, render_tree, Command, TreeCommand};
use babak_code::controller::MessageController;
use babak_code::keys::{KeyCode, KeyEvent, KeyModifiers};
use babak_code::models::{
    ContextItem, Role, Thread, TokenUsage, ToolCallRequest, ToolCallRequestFunction, ToolCallResponse,
};
use babak_code::notification::{keybinds_content, NotificationController};
use babak_code::profile::{ProfileDefaults, Settings, SettingsRead, UserProfile};
use babak_code::response_area::ResponseAreaController;
use babak_code::status::{parse_nvidia_smi, StatusLineController, UsagePart};
use babak_code::styled::{Line, Span, Style};

#[test]
fn threads_get_fresh_ids_and_keep_their_items() {
    let mut c = MessageController::new();
    let a = c.new_thread();
    let b = c.new_thread();
    assert_eq!((a, b), (0, 1));
    assert_eq!(c.get_thread(b).unwrap().id, "1");
    c.set_system(a, "sys".to_string());
    c.set_prompt(a, "hi".to_string());
    c.set_response(a, "hello".to_string());
    c.set_prompt(7, "lost".to_string());
    let t = c.get_thread(a).unwrap();
    assert_eq!(t.context.len(), 3);
    assert_eq!(t.context[2].response.as_deref(), Some("hello"));
    assert!(c.get_thread(7).is_none());
    assert!(c.remove_thread(a));
    assert!(!c.remove_thread(a));
}

#[test]
fn models_register_once_and_must_exist_to_be_chosen() {
    let mut c = MessageController::new();
    c.register_model("m1".to_string());
    c.register_model("m2".to_string());
    c.register_model("m1".to_string());
    assert_eq!(c.get_model_names(), vec!["m1", "m2"]);
    assert_eq!(c.current_model_name(), Some("m1"));
    assert!(c.set_current_model("m2".to_string()).is_ok());
    assert_eq!(c.current_model_name(), Some("m2"));
    assert_eq!(c.set_current_model("zz".to_string()), Err("Model 'zz' not found".to_string()));
    assert_eq!(c.current_model_name(), Some("m2"));
}

#[test]
fn running_generations_are_tracked() {
    let mut c = MessageController::new();
    let t = c.new_thread();
    c.add_running(t);
    assert!(c.cancel_running(t));
    assert!(!c.cancel_running(t));
    let (known, thread) = c.prepare_call(t, "none");
    assert!(!known);
    assert!(thread.is_some());
}

#[test]
fn commands_by_name() {
    assert!(matches!(parse_command("models", &[]), Some(Command::Model)));
    assert!(matches!(parse_command("tree", &[]), Some(Command::Tree)));
    assert!(matches!(parse_command("new", &["x".to_string()]), Some(Command::NewThread)));
    assert!(parse_command("other", &[]).is_none());
}

#[test]
fn tree_lists_the_conversation() {
    let mut t = Thread::new("0".to_string());
    t.add_context(ContextItem::system("be nice".to_string()));
    t.add_context(ContextItem::user("hi".to_string()));
    t.add_context(ContextItem::assistant("yo".to_string()));
    let call = ToolCallRequest {
        id: "c1".to_string(),
        tool_type: None,
        function: ToolCallRequestFunction { index: 0, name: "bash".to_string(), arguments: "{ \"command\" : \"ls\" }".to_string() },
        error: None,
    };
    t.add_context(ContextItem::tool_request(vec![call]));
    t.add_context(ContextItem::tool_response(ToolCallResponse { id: "c1".to_string(), result: "a b".to_string(), structured: None }));
    let lines = render_tree(&t);
    assert_eq!(
        lines,
        vec![
            "system: be nice\n",
            "user: hi\n",
            "Assistant: yo",
            "Assistant: No response",
            "Tool Request: c1 - bash - {\"command\":\"ls\"}",
            "Tool: c1 - a b",
        ]
    );
    let tc = TreeCommand::new();
    assert_eq!(tc.name(), "tree");
    assert_eq!(tc.process(&t).len(), 6);
    assert_eq!(Role::Assistant.to_string(), "assistant");
}

#[test]
fn gpu_readings_are_summarised() {
    let raw = "name, utilization.gpu [%], memory.used [MiB]\nNVIDIA A100 , 37 % , 1024 MiB\n";
    assert_eq!(parse_nvidia_smi(raw), "NVIDIA A100  │  GPU: 37 %  │  Mem: 1024 MiB");
    assert_eq!(parse_nvidia_smi("  oops  "), "oops");
    assert_eq!(parse_nvidia_smi("h\n only \n"), "h\n only");
    assert_eq!(parse_nvidia_smi("header\n  garbage  "), "header\n  garbage");
}

#[test]
fn usage_parts_show_total_only_when_a_count_is_missing() {
    let mut s = StatusLineController::new();
    assert!(s.usage_parts().is_empty());
    s.set_usage_info(TokenUsage { prompt_tokens: Some(10), completion_tokens: Some(5), total_tokens: Some(15) });
    assert_eq!(s.usage_parts(), vec![UsagePart::Prompt(10), UsagePart::Completion(5)]);
    s.set_usage_info(TokenUsage { prompt_tokens: None, completion_tokens: Some(5), total_tokens: Some(15) });
    assert_eq!(s.usage_parts(), vec![UsagePart::Completion(5), UsagePart::Total(15)]);
    s.set_model_name("m".to_string());
    s.set_thread_id("3".to_string());
    let text: String = s.status_line(Some("x".to_string())).spans.iter().map(|sp| sp.content.clone()).collect();
    assert_eq!(text, " F1 help │ m │ ⬡ GPU: waiting…  │ x  | id: 3");
}

#[test]
fn wide_text_wraps_onto_more_rows() {
    let wide = Line { spans: vec![Span { content: "日本語日本語".to_string(), style: Style::plain() }] };
    let narrow = Line { spans: vec![Span { content: "abcdef".to_string(), style: Style::plain() }] };
    assert_eq!(compute_height(&vec![narrow], 4), 2);
    assert_eq!(compute_height(&vec![wide], 4), 3);
    assert_eq!(compute_height(&vec![], 4), 0);
}

#[test]
fn blocks_of_a_kind_merge_and_others_stack() {
    let mut area = ResponseAreaController::new();
    area.add_block(user_block("a".to_string()));
    area.add_block(user_block("b".to_string()));
    assert_eq!(area.len(), 1);
    area.add_block(thinking_block("t".to_string()));
    area.add_block(command_block("c".to_string()));
    assert_eq!(area.len(), 3);
    match user_block("x".to_string()) {
        ResponseBlock::Text { label, .. } => assert_eq!(label, "user:"),
        _ => panic!("expected a text block"),
    }
}

#[test]
fn help_window_lists_key_bindings_and_scrolls() {
    let content = keybinds_content();
    assert_eq!(content[0], "── Global ──");
    let mut n = NotificationController::new("Help".to_string(), content);
    let down = KeyEvent::new(KeyCode::Char('j'), KeyModifiers::none());
    assert!(n.handle_key(down).is_none());
    let other = KeyEvent::new(KeyCode::Char('x'), KeyModifiers::none());
    assert!(n.handle_key(other).is_some());
}

#[test]
fn profile_settings_and_paths() {
    let mut p = UserProfile::new("/cfg".to_string());
    assert_eq!(p.settings_file(), "/cfg/settings/settings.json");
    assert_eq!(p.directories(), vec!["/cfg", "/cfg/settings", "/cfg/sessions", "/cfg/temp"]);
    let d = ProfileDefaults { model: "dflt".to_string() };
    assert!(p.fetch(SettingsRead::Parsed(Settings::new("m".to_string())), d).is_ok());
    assert_eq!(p.get_model(), "m");
    let d = ProfileDefaults { model: "dflt".to_string() };
    assert!(p.fetch(SettingsRead::Missing, d).is_ok());
    assert_eq!(p.get_model(), "m");
    let d = ProfileDefaults { model: "dflt".to_string() };
    assert!(p.fetch(SettingsRead::Corrupt, d).is_ok());
    assert_eq!(p.get_model(), "dflt");
    let d = ProfileDefaults { model: "dflt".to_string() };
    assert_eq!(p.fetch(SettingsRead::Failed("bad".to_string()), d), Err("bad".to_string()));
    p.set_model("z".to_string());
    assert_eq!(p.settings().model(), "z");
}

#[test]
fn registered_commands_run_by_name() {
    let mut t = Thread::new("0".to_string());
    t.add_context(ContextItem::user("hi".to_string()));
    let mut registry = CommandController::new();
    assert!(registry.execute("tree", &t).is_none());
    registry.add_command(TreeCommand::new());
    registry.add_command(TreeCommand::new());
    assert_eq!(registry.execute("tree", &t), Some(vec!["user: hi".to_string()]));
    assert!(registry.execute("trees", &t).is_none());
}
