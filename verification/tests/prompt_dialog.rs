use babak_code::dialog::{
    FieldResponse, FieldSchema, FieldState, PromptDialogController, PromptDialogEvent, PromptSchema,
};
use babak_code::keys::{KeyCode, KeyEvent, KeyModifiers};

fn s(x: &str) -> String {
    x.to_string()
}

fn key(code: KeyCode) -> KeyEvent {
    KeyEvent::new(code, KeyModifiers::none())
}

fn ctrl_p() -> KeyEvent {
    KeyEvent::new(KeyCode::Char('p'), KeyModifiers::control())
}

fn make_schema() -> PromptSchema {
    PromptSchema::new(s("Project setup"))
        .with_field(FieldSchema::text_with_placeholder(s("name"), s("Your name"), s("e.g. Alice")))
        .with_field(FieldSchema::single_choice(
            s("lang"),
            s("Language"),
            vec![s("Rust"), s("Go"), s("Python")],
        ))
        .with_field(FieldSchema::multi_choice(
            s("features"),
            s("Features"),
            vec![s("Tests"), s("CI"), s("Docker")],
        ))
}

fn text_of(v: &[char]) -> String {
    v.iter().collect()
}

#[test]
fn initial_single_choice_default_is_zero() {
    let ctrl = PromptDialogController::new(make_schema());
    if let FieldState::SingleChoice { selected } = ctrl.state(1) {
        assert_eq!(*selected, 0);
    } else {
        panic!("expected SingleChoice state");
    }
}

#[test]
fn text_input_and_cursor_movement() {
    let schema = PromptSchema::new(s("T")).with_field(FieldSchema::text(s("q"), s("Question")));
    let mut ctrl = PromptDialogController::new(schema);

    ctrl.handle_key(key(KeyCode::Char('h')));
    ctrl.handle_key(key(KeyCode::Char('i')));

    if let FieldState::Text { value, cursor } = ctrl.state(0) {
        assert_eq!(text_of(value), "hi");
        assert_eq!(*cursor, 2);
    } else {
        panic!("expected Text state");
    }

    ctrl.handle_key(key(KeyCode::Left));
    ctrl.handle_key(key(KeyCode::Left));
    ctrl.handle_key(key(KeyCode::Char('e')));

    if let FieldState::Text { value, .. } = ctrl.state(0) {
        assert_eq!(text_of(value), "ehi");
    }
}

#[test]
fn backspace_removes_char() {
    let schema = PromptSchema::new(s("T")).with_field(FieldSchema::text(s("q"), s("Q")));
    let mut ctrl = PromptDialogController::new(schema);
    ctrl.handle_key(key(KeyCode::Char('a')));
    ctrl.handle_key(key(KeyCode::Char('b')));
    ctrl.handle_key(key(KeyCode::Backspace));
    if let FieldState::Text { value, .. } = ctrl.state(0) {
        assert_eq!(text_of(value), "a");
    }
}

#[test]
fn single_choice_navigation() {
    let schema = PromptSchema::new(s("T")).with_field(FieldSchema::single_choice(
        s("c"),
        s("Choose"),
        vec![s("A"), s("B"), s("C")],
    ));
    let mut ctrl = PromptDialogController::new(schema);

    ctrl.handle_key(key(KeyCode::Down));
    ctrl.handle_key(key(KeyCode::Down));
    if let FieldState::SingleChoice { selected } = ctrl.state(0) {
        assert_eq!(*selected, 2);
    }

    ctrl.handle_key(key(KeyCode::Down));
    if let FieldState::SingleChoice { selected } = ctrl.state(0) {
        assert_eq!(*selected, 2);
    }

    ctrl.handle_key(key(KeyCode::Up));
    if let FieldState::SingleChoice { selected } = ctrl.state(0) {
        assert_eq!(*selected, 1);
    }
}

#[test]
fn multi_choice_toggle() {
    let schema = PromptSchema::new(s("T")).with_field(FieldSchema::multi_choice(
        s("f"),
        s("Features"),
        vec![s("A"), s("B")],
    ));
    let mut ctrl = PromptDialogController::new(schema);

    ctrl.handle_key(key(KeyCode::Char(' ')));
    ctrl.handle_key(key(KeyCode::Down));
    ctrl.handle_key(key(KeyCode::Char(' ')));
    ctrl.handle_key(key(KeyCode::Up));
    ctrl.handle_key(key(KeyCode::Char(' ')));

    if let FieldState::MultiChoice { checked, .. } = ctrl.state(0) {
        assert!(!checked[0]);
        assert!(checked[1]);
    }
}

#[test]
fn tab_advances_field() {
    let mut ctrl = PromptDialogController::new(make_schema());
    assert_eq!(ctrl.active_field(), 0);
    ctrl.handle_key(key(KeyCode::Tab));
    assert_eq!(ctrl.active_field(), 1);
    ctrl.handle_key(key(KeyCode::BackTab));
    assert_eq!(ctrl.active_field(), 0);
}

#[test]
fn ctrl_p_collects_response() {
    let schema = PromptSchema::new(s("T"))
        .with_field(FieldSchema::text(s("name"), s("Name")))
        .with_field(FieldSchema::single_choice(s("lang"), s("Lang"), vec![s("Rust"), s("Go")]));
    let mut ctrl = PromptDialogController::new(schema);

    for c in "Alice".chars() {
        ctrl.handle_key(key(KeyCode::Char(c)));
    }
    let event = ctrl.handle_key(ctrl_p());
    let resp = match event {
        Some(PromptDialogEvent::Submitted(r)) => r,
        _ => panic!("expected Submitted"),
    };

    assert_eq!(resp.fields.len(), 2);
    let name_resp = resp.get("name").expect("name field");
    if let FieldResponse::Text { value, .. } = name_resp {
        assert_eq!(value, "Alice");
    } else {
        panic!("expected Text response");
    }
}

#[test]
fn esc_returns_cancelled() {
    let schema = PromptSchema::new(s("T")).with_field(FieldSchema::text(s("q"), s("Q")));
    let mut ctrl = PromptDialogController::new(schema);
    let event = ctrl.handle_key(key(KeyCode::Esc));
    assert!(matches!(event, Some(PromptDialogEvent::Cancelled)));
}

#[test]
fn submitted_multi_choice_lists_checked_values() {
    let schema = PromptSchema::new(s("T")).with_field(FieldSchema::multi_choice(
        s("tags"),
        s("Tags"),
        vec![s("async"), s("sync")],
    ));
    let mut ctrl = PromptDialogController::new(schema);
    ctrl.handle_key(key(KeyCode::Char(' ')));
    match ctrl.handle_key(ctrl_p()) {
        Some(PromptDialogEvent::Submitted(resp)) => match resp.get("tags") {
            Some(FieldResponse::MultiChoice { values, selected, .. }) => {
                assert_eq!(values, &vec![s("async")]);
                assert_eq!(selected, &vec![0usize]);
            }
            _ => panic!("expected MultiChoice response"),
        },
        _ => panic!("expected Submitted"),
    }
}

#[test]
fn text_cursor_counts_utf8_bytes() {
    let schema = PromptSchema::new(s("T")).with_field(FieldSchema::text(s("q"), s("Question")));
    let mut ctrl = PromptDialogController::new(schema);
    ctrl.handle_key(key(KeyCode::Char('é')));
    ctrl.handle_key(key(KeyCode::Char('x')));
    let cursor_of = |c: &PromptDialogController| match c.state(0) {
        FieldState::Text { cursor, .. } => *cursor,
        _ => panic!("expected Text state"),
    };
    assert_eq!(cursor_of(&ctrl), 3);
    ctrl.handle_key(key(KeyCode::Left));
    assert_eq!(cursor_of(&ctrl), 2);
    ctrl.handle_key(key(KeyCode::Left));
    assert_eq!(cursor_of(&ctrl), 0);
    ctrl.handle_key(key(KeyCode::Right));
    assert_eq!(cursor_of(&ctrl), 2);
    ctrl.handle_key(key(KeyCode::Backspace));
    assert_eq!(cursor_of(&ctrl), 0);
    if let FieldState::Text { value, .. } = ctrl.state(0) {
        assert_eq!(text_of(value), "x");
    }
    ctrl.handle_key(key(KeyCode::End));
    assert_eq!(cursor_of(&ctrl), 1);
}
