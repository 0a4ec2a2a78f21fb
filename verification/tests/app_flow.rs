use babak_code::app_state::{is_quit, App, AppAction, FocusedPanel};
use babak_code::keys::{InputEvent, KeyCode, KeyEvent, KeyModifiers};
use babak_code::models::{ChatMessageResponse, Role, ToolCallRequest, ToolCallRequestFunction, ToolCallResponse};
use babak_code::profile::{Settings, SettingsRead};

fn key(code: KeyCode) -> InputEvent {
    InputEvent::Key(KeyEvent::new(code, KeyModifiers::none()))
}

fn ctrl(c: char) -> InputEvent {
    InputEvent::Key(KeyEvent::new(KeyCode::Char(c), KeyModifiers::control()))
}

fn started(model: &str) -> App {
    let read = SettingsRead::Parsed(Settings::new(model.to_string()));
    let mut app = App::new("/tmp/cfg".to_string(), "app".to_string(), "0.1".to_string(), read)
        .unwrap_or_else(|_| panic!("profile"));
    assert!(app.start("system text".to_string()).is_ok());
    app
}

fn feed(app: &mut App, e: InputEvent) -> AppAction {
    assert!(app.accepts(&e));
    app.on_input(e)
}

fn type_text(app: &mut App, t: &str) {
    for c in t.chars() {
        feed(app, key(KeyCode::Char(c)));
    }
}

fn line_text(app: &App) -> String {
    app.status_line.status_line(None).spans.iter().map(|s| s.content.clone()).collect()
}

#[test]
fn start_switches_to_the_profile_model_and_opens_a_thread() {
    let app = started("gemma4");
    assert_eq!(app.controller.current_model.as_deref(), Some("gemma4"));
    assert_eq!(app.controller.get_model_names(), vec!["gemma4", "openai/gpt-oss-120b", "deepseek/deepseek-r1"]);
    let t = app.controller.get_thread(app.current_thread_id).unwrap();
    assert_eq!(t.context.len(), 1);
    assert_eq!(t.context[0].role, Role::System);
    assert_eq!(t.context[0].content.as_deref(), Some("system text"));
    assert!(line_text(&app).contains(" gemma4 "));
}

#[test]
fn start_fails_for_a_profile_without_a_known_model() {
    let mut app = App::new("/p".to_string(), "a".to_string(), "1".to_string(), SettingsRead::Missing)
        .unwrap_or_else(|_| panic!("profile"));
    match app.start("s".to_string()) {
        Err(e) => assert_eq!(e, "Model '' not found"),
        Ok(()) => panic!("expected an error"),
    }
}

#[test]
fn corrupt_settings_fall_back_to_the_default_model() {
    let app = App::new("/p".to_string(), "a".to_string(), "1".to_string(), SettingsRead::Corrupt)
        .unwrap_or_else(|_| panic!("profile"));
    assert_eq!(app.user_profile.get_model(), "gpt-oss-120b");
}

#[test]
fn unreadable_settings_are_an_error() {
    let r = App::new("/p".to_string(), "a".to_string(), "1".to_string(), SettingsRead::Unreadable("denied".to_string()));
    match r {
        Err(e) => assert_eq!(e, "denied"),
        Ok(_) => panic!("expected an error"),
    }
}

#[test]
fn sending_a_message_starts_a_generation_on_the_thread() {
    let mut app = started("gemma4");
    type_text(&mut app, "hi");
    match feed(&mut app, key(KeyCode::Enter)) {
        AppAction::Generate { model, thread } => {
            assert_eq!(model, "gemma4");
            assert_eq!(thread.context.len(), 2);
            assert_eq!(thread.context[1].role, Role::User);
            assert_eq!(thread.context[1].content.as_deref(), Some("hi"));
        }
        _ => panic!("expected a generation"),
    }
    assert_eq!(app.response_area_controller.len(), 1);
    assert_eq!(app.prompt.lines(), vec![""]);
}

#[test]
fn ctrl_d_quits_and_changes_nothing() {
    let mut app = started("gemma4");
    assert!(is_quit(&ctrl('d')));
    assert!(matches!(feed(&mut app, ctrl('d')), AppAction::Quit));
    assert_eq!(app.prompt.lines(), vec![""]);
}

#[test]
fn tab_moves_focus_between_panels() {
    let mut app = started("gemma4");
    assert_eq!(app.focused, FocusedPanel::Prompt);
    feed(&mut app, key(KeyCode::Tab));
    assert_eq!(app.focused, FocusedPanel::Response);
    assert!(!app.prompt.is_focused());
    type_text(&mut app, "x");
    assert_eq!(app.prompt.lines(), vec![""]);
    feed(&mut app, key(KeyCode::Tab));
    assert_eq!(app.focused, FocusedPanel::Prompt);
    assert!(app.prompt.is_focused());
}

#[test]
fn models_command_opens_dialog_and_selection_switches_model() {
    let mut app = started("gemma4");
    type_text(&mut app, "/models");
    assert!(matches!(feed(&mut app, key(KeyCode::Enter)), AppAction::Redraw));
    assert!(app.dialog.is_some());
    feed(&mut app, key(KeyCode::Down));
    feed(&mut app, ctrl('p'));
    assert!(app.dialog.is_none());
    assert_eq!(app.controller.current_model.as_deref(), Some("openai/gpt-oss-120b"));
    assert_eq!(app.user_profile.get_model(), "openai/gpt-oss-120b");
    assert!(line_text(&app).contains("openai/gpt-oss-120b"));
    assert_eq!(app.response_area_controller.len(), 1);
}

#[test]
fn esc_closes_the_dialog_without_switching() {
    let mut app = started("gemma4");
    type_text(&mut app, "/models");
    feed(&mut app, key(KeyCode::Enter));
    feed(&mut app, key(KeyCode::Down));
    feed(&mut app, key(KeyCode::Esc));
    assert!(app.dialog.is_none());
    assert_eq!(app.controller.current_model.as_deref(), Some("gemma4"));
}

#[test]
fn new_command_starts_a_fresh_thread() {
    let mut app = started("gemma4");
    let first = app.current_thread_id;
    type_text(&mut app, "/new");
    feed(&mut app, key(KeyCode::Enter));
    assert_ne!(app.current_thread_id, first);
    assert!(app.controller.get_thread(first).is_none());
    let t = app.controller.get_thread(app.current_thread_id).unwrap();
    assert_eq!(t.context.len(), 1);
    assert_eq!(t.context[0].content.as_deref(), Some("system text"));
}

#[test]
fn unknown_command_does_nothing() {
    let mut app = started("gemma4");
    type_text(&mut app, "/nothing here");
    assert!(matches!(feed(&mut app, key(KeyCode::Enter)), AppAction::Redraw));
    assert_eq!(app.response_area_controller.len(), 0);
    assert!(app.dialog.is_none());
}

#[test]
fn tree_command_shows_the_thread() {
    let mut app = started("gemma4");
    type_text(&mut app, "/tree");
    feed(&mut app, key(KeyCode::Enter));
    assert_eq!(app.response_area_controller.len(), 1);
}

#[test]
fn responses_show_thinking_and_content_then_done_records_answer() {
    let mut app = started("gemma4");
    let mut m = ChatMessageResponse::empty();
    m.thinking = Some("hmm".to_string());
    m.content = Some("hello".to_string());
    assert!(matches!(app.on_response(&m), AppAction::Redraw));
    assert_eq!(app.response_area_controller.len(), 2);
    let mut done = ChatMessageResponse::empty();
    done.done = true;
    done.content = Some("hello".to_string());
    assert!(matches!(app.on_response(&done), AppAction::Idle));
    let t = app.controller.get_thread(app.current_thread_id).unwrap();
    assert_eq!(t.context.last().unwrap().role, Role::Assistant);
    assert_eq!(t.context.last().unwrap().response.as_deref(), Some("hello"));
}

#[test]
fn empty_content_is_not_shown() {
    let mut app = started("gemma4");
    let mut m = ChatMessageResponse::empty();
    m.content = Some(String::new());
    m.thinking = Some(String::new());
    app.on_response(&m);
    assert_eq!(app.response_area_controller.len(), 0);
}

#[test]
fn tool_calls_are_recorded_and_handed_out() {
    let mut app = started("gemma4");
    let call = ToolCallRequest {
        id: "c1".to_string(),
        tool_type: Some("function".to_string()),
        function: ToolCallRequestFunction {
            index: 0,
            name: "read_file".to_string(),
            arguments: "{\"path\":\"a\"}".to_string(),
        },
        error: None,
    };
    let mut m = ChatMessageResponse::empty();
    m.tool_calls = Some(vec![call.clone()]);
    let calls = match app.on_response(&m) {
        AppAction::RunTools(c) => c,
        _ => panic!("expected tools to run"),
    };
    assert_eq!(calls.len(), 1);
    app.show_tool_calls("[...]".to_string());
    let resp = ToolCallResponse { id: "c1".to_string(), result: "text".to_string(), structured: None };
    app.record_tool_response(&calls[0], resp, "{...}".to_string());
    match app.generation() {
        AppAction::Generate { thread, .. } => {
            let n = thread.context.len();
            assert_eq!(thread.context[n - 2].tools.as_ref().map(|t| t.len()), Some(1));
            assert_eq!(thread.context[n - 1].role, Role::Tool);
        }
        _ => panic!("expected a generation"),
    }
    // consecutive tool blocks merge into one
    assert_eq!(app.response_area_controller.len(), 1);
}

#[test]
fn errors_are_shown() {
    let mut app = started("gemma4");
    let m = ChatMessageResponse::failure(babak_code::models::ModelResponseErr::NoChoiceErr);
    assert!(matches!(app.on_response(&m), AppAction::Redraw));
    assert_eq!(app.response_area_controller.len(), 1);
}

#[test]
fn gpu_readings_reach_the_status_line() {
    let mut app = started("gemma4");
    app.on_gpu_info("NVIDIA A100, 37 %, 1024 MiB".to_string());
    assert!(!line_text(&app).contains("waiting"));
}
