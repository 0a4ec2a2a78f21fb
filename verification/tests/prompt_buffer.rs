use babak_code::prompt::{ContentManager, PromptEvent};

#[test]
fn insert_text_single_line_at_cursor() {
    let mut cm = ContentManager::new();
    cm.push('h');
    cm.push('i');
    cm.insert_text(" there");
    assert_eq!(cm.lines(), &["hi there"]);
    assert_eq!(cm.cursor_pos(), (8, 0));
}

#[test]
fn insert_text_multiline() {
    let mut cm = ContentManager::new();
    cm.insert_text("line1\nline2\nline3");
    assert_eq!(cm.lines(), &["line1", "line2", "line3"]);
    assert_eq!(cm.cursor_pos(), (5, 2));
}

#[test]
fn insert_text_enters_command_mode() {
    let mut cm = ContentManager::new();
    cm.insert_text("/model groq");
    assert!(cm.is_command_mode());
}

#[test]
fn insert_text_cancels_history_browse() {
    let mut cm = ContentManager::new();
    cm.insert_text("old");
    let _ = cm.submit();
    cm.key_up(); // browse history ("old"); draft was empty
    cm.insert_text("new");
    assert_eq!(cm.lines(), &["new"]);
}

#[test]
fn slash_on_empty_buffer_enters_command_mode() {
    let mut cm = ContentManager::new();
    cm.push('/');
    assert!(cm.is_command_mode());
    cm.push('t');
    cm.push('r');
    assert_eq!(cm.command_token_len(), 3);
    cm.push(' ');
    cm.push('x');
    assert_eq!(cm.command_token_len(), 3);
}

#[test]
fn submit_command_splits_name_and_args() {
    let mut cm = ContentManager::new();
    cm.insert_text("/model  groq fast");
    match cm.submit() {
        Some(PromptEvent::Command { name, args }) => {
            assert_eq!(name, "model");
            assert_eq!(args, vec!["groq".to_string(), "fast".to_string()]);
        }
        _ => panic!("expected a command"),
    }
    assert!(!cm.is_command_mode());
    assert_eq!(cm.lines(), &[""]);
}

#[test]
fn submit_text_joins_lines_and_second_submit_is_none() {
    let mut cm = ContentManager::new();
    cm.insert_text("a\nb");
    match cm.submit() {
        Some(PromptEvent::Submitted(t)) => assert_eq!(t, "a\nb"),
        _ => panic!("expected submitted text"),
    }
    assert!(cm.submit().is_none());
}

#[test]
fn blank_submit_keeps_buffer() {
    let mut cm = ContentManager::new();
    cm.insert_text("  \n ");
    assert!(cm.submit().is_none());
    assert_eq!(cm.lines(), &["  ", " "]);
    assert!(cm.is_empty());
}

#[test]
fn pop_undoes_push_and_joins_lines() {
    let mut cm = ContentManager::new();
    cm.insert_text("ab");
    cm.push('c');
    cm.pop();
    assert_eq!(cm.lines(), &["ab"]);
    assert_eq!(cm.cursor_pos(), (2, 0));
    cm.push('\n');
    cm.push('d');
    assert_eq!(cm.lines(), &["ab", "d"]);
    cm.pop();
    cm.pop();
    assert_eq!(cm.lines(), &["ab"]);
    assert_eq!(cm.cursor_pos(), (2, 0));
}

#[test]
fn history_round_trip_restores_draft() {
    let mut cm = ContentManager::new();
    cm.insert_text("first");
    let _ = cm.submit();
    cm.insert_text("draft");
    cm.key_up();
    assert_eq!(cm.lines(), &["first"]);
    cm.key_down();
    assert_eq!(cm.lines(), &["draft"]);
    assert_eq!(cm.cursor_pos(), (5, 0));
}

#[test]
fn cursor_moves_by_bytes_and_across_lines() {
    let mut cm = ContentManager::new();
    cm.insert_text("ab\ncd");
    cm.cursor_pre();
    cm.cursor_pre();
    assert_eq!(cm.cursor_pos(), (0, 1));
    cm.cursor_pre();
    assert_eq!(cm.cursor_pos(), (2, 0));
    cm.cursor_next();
    assert_eq!(cm.cursor_pos(), (0, 1));
    cm.key_up();
    assert_eq!(cm.cursor_pos(), (0, 0));
}

#[test]
fn multibyte_char_advances_cursor_by_its_utf8_length() {
    let mut cm = ContentManager::new();
    cm.push('é');
    assert_eq!(cm.cursor_pos(), (2, 0));
    cm.pop();
    assert_eq!(cm.lines(), &[""]);
    assert_eq!(cm.cursor_pos(), (0, 0));
}

#[test]
fn clear_resets_buffer() {
    let mut cm = ContentManager::new();
    cm.insert_text("/x y");
    cm.clear();
    assert!(cm.is_empty());
    assert!(!cm.is_command_mode());
    assert_eq!(cm.cursor_pos(), (0, 0));
}
