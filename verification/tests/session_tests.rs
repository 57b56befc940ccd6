use quill::session::{App, DISPLAY_CAP};
use quill::turn::{Action, KeyEvent, Message, Model, StreamEvent, ToolCall, ToolOutcome};

fn one_model() -> Vec<Model> {
    vec![Model { name: String::from("llama2"), modified_at: 7, size: 0 }]
}

fn fresh_app() -> App {
    App::new(one_model(), String::from("/wd"), String::from("sys"), 0)
}

fn chunk(s: &str) -> StreamEvent {
    StreamEvent::Chunk { text: String::from(s) }
}

/// Streams one assistant reply that requests a file read, leaving the
/// session with a pending tool call at the display's tail.
fn app_with_pending() -> App {
    let mut app = fresh_app();
    app.handle_input(KeyEvent::Char('x'), 1);
    let _ = app.handle_input(KeyEvent::Enter, 2);
    app.process_streaming(
        chunk("{\"message\":{\"content\":\"[tool_call: read_file('notes.txt')]\"}}\n{\"done\":true}\n"),
        3,
    );
    assert!(matches!(app.messages.back(), Some(Message::PendingToolCall { .. })));
    app
}

#[test]
fn new_session_is_idle_and_seeded() {
    let app = fresh_app();
    assert!(!app.is_loading);
    assert!(app.messages.is_empty());
    assert_eq!(app.chat_history.len(), 1);
    assert_eq!(app.chat_history[0].0, "system");
    assert_eq!(app.chat_history[0].1, "sys");
    assert_eq!(app.get_selected_model().expect("model").name, "llama2");
}

#[test]
fn empty_model_list_falls_back_to_one_synthetic_model() {
    let app = App::new(Vec::new(), String::from("/wd"), String::from("sys"), 42);
    assert_eq!(app.models.len(), 1);
    assert_eq!(app.models[0].name, "llama2");
    assert_eq!(app.models[0].modified_at, 42);
    assert_eq!(app.models[0].size, 0);
}

#[test]
fn input_editing_follows_the_cursor() {
    let mut app = fresh_app();
    app.handle_input(KeyEvent::Char('a'), 1);
    app.handle_input(KeyEvent::Char('c'), 1);
    app.handle_input(KeyEvent::Left, 1);
    app.handle_input(KeyEvent::Char('b'), 1);
    assert_eq!(app.input, "abc");
    assert_eq!(app.input_cursor_position, 2);
    app.handle_input(KeyEvent::Backspace, 1);
    assert_eq!(app.input, "ac");
    app.handle_input(KeyEvent::Left, 1);
    app.handle_input(KeyEvent::Delete, 1);
    assert_eq!(app.input, "c");
}

#[test]
fn model_selection_stays_in_bounds() {
    let models = vec![
        Model { name: String::from("a"), modified_at: 0, size: 0 },
        Model { name: String::from("b"), modified_at: 0, size: 0 },
    ];
    let mut app = App::new(models, String::from("/wd"), String::from("sys"), 0);
    app.handle_input(KeyEvent::Up, 1);
    assert_eq!(app.selected_model_index, 0);
    app.handle_input(KeyEvent::Down, 1);
    assert_eq!(app.selected_model_index, 1);
    app.handle_input(KeyEvent::Down, 1);
    assert_eq!(app.selected_model_index, 1);
    app.handle_input(KeyEvent::Up, 1);
    assert_eq!(app.selected_model_index, 0);
}

#[test]
fn blank_input_is_not_submitted() {
    let mut app = fresh_app();
    app.handle_input(KeyEvent::Char(' '), 1);
    let action = app.handle_input(KeyEvent::Enter, 2);
    assert!(matches!(action, Action::Noop));
    assert!(!app.is_loading);
    assert!(app.messages.is_empty());
}

#[test]
fn submit_records_turn_and_opens_stream() {
    let mut app = fresh_app();
    app.handle_input(KeyEvent::Char('h'), 1);
    app.handle_input(KeyEvent::Char('i'), 1);
    let action = app.handle_input(KeyEvent::Enter, 2);
    assert!(app.is_loading);
    assert_eq!(app.input, "");
    assert_eq!(app.streaming_message.as_deref(), Some(""));
    assert!(matches!(app.messages.back(), Some(Message::User { content, .. }) if content == "hi"));
    assert_eq!(app.chat_history.last().expect("entry").1, "hi");
    match action {
        Action::OpenStream { model, messages } => {
            assert_eq!(model, "llama2");
            // seeded system entry, the user turn, and one trailing empty entry
            assert_eq!(messages.len(), 3);
            assert_eq!(messages[1], (String::from("user"), String::from("hi")));
            assert_eq!(messages[2], (String::from("user"), String::from("")));
        },
        _ => panic!("expected a stream to be opened"),
    }
}

#[test]
fn failed_stream_open_returns_to_idle_with_error() {
    let mut app = fresh_app();
    app.handle_input(KeyEvent::Char('q'), 1);
    let _ = app.handle_input(KeyEvent::Enter, 2);
    app.stream_open_failed("connection refused");
    assert!(!app.is_loading);
    assert!(app.streaming_message.is_none());
    assert_eq!(app.error_message.as_deref(), Some("Error: connection refused"));
}

#[test]
fn input_while_loading_is_ignored() {
    let mut app = fresh_app();
    app.handle_input(KeyEvent::Char('x'), 1);
    let _ = app.handle_input(KeyEvent::Enter, 2);
    assert!(app.is_loading);
    let action = app.handle_input(KeyEvent::Char('y'), 3);
    assert!(matches!(action, Action::Noop));
    assert_eq!(app.input, "");
}

#[test]
fn finalized_reply_with_directive_leaves_pending_tail() {
    let app = app_with_pending();
    match app.messages.back().expect("pending turn") {
        Message::PendingToolCall { tool_call, original_message, .. } => {
            assert!(matches!(tool_call, ToolCall::ReadFile { path } if path == "notes.txt"));
            assert_eq!(original_message, "read_file(\"notes.txt\")");
        },
        _ => panic!("expected a pending tool call"),
    }
    assert!(!app.is_loading);
}

#[test]
fn pending_call_blocks_ordinary_input() {
    let mut app = app_with_pending();
    let len_before = app.messages.len();
    let input_before = app.input.clone();
    for key in [KeyEvent::Char('z'), KeyEvent::Enter, KeyEvent::Up, KeyEvent::Down,
        KeyEvent::Backspace, KeyEvent::Delete] {
        let action = app.handle_input(key, 9);
        assert!(matches!(action, Action::Noop));
    }
    assert_eq!(app.messages.len(), len_before);
    assert_eq!(app.input, input_before);
    assert!(matches!(app.messages.back(), Some(Message::PendingToolCall { .. })));
    assert!(!app.is_loading);
}

#[test]
fn deny_replaces_pending_without_contacting_backend() {
    let mut app = app_with_pending();
    let len_before = app.messages.len();
    let action = app.handle_input(KeyEvent::Left, 9);
    assert!(matches!(action, Action::Noop));
    assert_eq!(app.messages.len(), len_before);
    assert!(!app.is_loading);
    match app.messages.back().expect("denied turn") {
        Message::ToolCallDenied { tool_call, original_message, .. } => {
            assert!(matches!(tool_call, ToolCall::ReadFile { path } if path == "notes.txt"));
            assert_eq!(original_message, "read_file(\"notes.txt\")");
        },
        _ => panic!("expected a denial turn"),
    }
    let denied = app
        .messages
        .iter()
        .filter(|m| matches!(m, Message::ToolCallDenied { .. }))
        .count();
    assert_eq!(denied, 1);
}

#[test]
fn approve_missing_file_reports_tool_error_and_streams() {
    let mut app = app_with_pending();
    let action = app.handle_input(KeyEvent::Right, 9);
    let (tool_call, _inv) = match action {
        Action::RunTool { tool_call, original_message } => (tool_call, original_message),
        _ => panic!("expected the call to be handed out"),
    };
    // the driver's read fails: the path does not exist
    let outcome = ToolOutcome::Failed { error: String::from("No such file or directory") };
    let text = app.execute_tool_call(&tool_call, &outcome);
    assert!(text.contains("[TOOL ERROR: read_file]"));
    assert!(text.contains("/wd/notes.txt"));
    let action = app.start_message_sending_with_content(text.clone(), 10);
    assert!(app.is_loading);
    assert!(matches!(action, Action::OpenStream { .. }));
    assert!(
        matches!(app.messages.back(), Some(Message::ToolCallResult { result, .. }) if *result == text)
    );
}

#[test]
fn display_history_is_capped_fifo() {
    let mut app = fresh_app();
    for i in 0..60u64 {
        let action = app.start_message_sending_with_content(format!("r{}", i), i);
        assert!(matches!(action, Action::OpenStream { .. }));
        app.process_streaming(StreamEvent::Ended, i);
    }
    assert_eq!(app.messages.len(), DISPLAY_CAP);
    match app.messages.front().expect("front") {
        Message::ToolCallResult { result, .. } => assert_eq!(result, "r10"),
        _ => panic!("expected a tool-result turn"),
    }
    match app.messages.back().expect("back") {
        Message::ToolCallResult { result, .. } => assert_eq!(result, "r59"),
        _ => panic!("expected a tool-result turn"),
    }
}

#[test]
fn build_messages_does_not_mutate() {
    let mut app = fresh_app();
    app.handle_input(KeyEvent::Char('x'), 1);
    let before = app.chat_history.clone();
    let r = app.build_messages("extra");
    assert_eq!(app.chat_history, before);
    assert_eq!(r.len(), before.len() + 1);
    assert_eq!(r.last().expect("entry"), &(String::from("user"), String::from("extra")));
}

#[test]
fn build_prompt_inlines_memories() {
    let mut app = fresh_app();
    app.handle_input(KeyEvent::Char('x'), 1);
    let _ = app.handle_input(KeyEvent::Enter, 2);
    app.process_streaming(chunk("{\"message\":{\"content\":\"pong\"}}\n{\"done\":true}\n"), 3);
    let p = app.build_prompt("next");
    assert_eq!(p, "sys\n\nUSER: USER\nASSISTANT: pong\nUSER: next\nASSISTANT:");
}

#[test]
fn resolve_tool_path_uses_working_directory() {
    let app = fresh_app();
    assert_eq!(app.resolve_tool_path("sub/file.txt"), "/wd/sub/file.txt");
}
