use quill::session::App;
use quill::turn::{KeyEvent, Message, Model, StreamEvent};

fn one_model() -> Vec<Model> {
    vec![Model { name: String::from("llama2"), modified_at: 7, size: 0 }]
}

fn loading_app() -> App {
    let mut app = App::new(one_model(), String::from("/wd"), String::from("sys"), 0);
    app.handle_input(KeyEvent::Char('h'), 1);
    app.handle_input(KeyEvent::Char('i'), 1);
    let _ = app.handle_input(KeyEvent::Enter, 2);
    assert!(app.is_loading);
    app
}

fn chunk(s: &str) -> StreamEvent {
    StreamEvent::Chunk { text: String::from(s) }
}

#[test]
fn split_fragments_assemble_and_finalize_once() {
    let mut app = loading_app();
    app.process_streaming(chunk("{\"message\":{\"content\":\"He\"}}\n"), 3);
    assert!(app.is_loading);
    app.process_streaming(chunk("{\"message\":{\"content\":\"llo\"}}\n{\"done\":true}\n"), 3);
    assert!(!app.is_loading);
    assert!(app.streaming_message.is_none());
    match app.messages.back().expect("assistant turn expected") {
        Message::Assistant { content, .. } => assert_eq!(content, "Hello"),
        _ => panic!("expected an assistant turn"),
    }
    // a later stream end must not duplicate the committed turn
    let before = app.messages.len();
    app.process_streaming(StreamEvent::Ended, 4);
    assert_eq!(app.messages.len(), before);
}

#[test]
fn response_field_counts_as_content() {
    let mut app = loading_app();
    app.process_streaming(chunk("{\"response\":\"ok\"}\n{\"done\":true}\n"), 3);
    match app.messages.back().expect("assistant turn expected") {
        Message::Assistant { content, .. } => assert_eq!(content, "ok"),
        _ => panic!("expected an assistant turn"),
    }
}

#[test]
fn malformed_lines_and_blanks_are_ignored() {
    let mut app = loading_app();
    app.process_streaming(chunk("\n\nnot json at all\n{\"message\":{\"content\":\"A\"}}\n"), 3);
    app.process_streaming(chunk("{\"weird\":1}\n{\"done\":true}\n"), 3);
    match app.messages.back().expect("assistant turn expected") {
        Message::Assistant { content, .. } => assert_eq!(content, "A"),
        _ => panic!("expected an assistant turn"),
    }
}

#[test]
fn done_stops_the_rest_of_the_fragment() {
    let mut app = loading_app();
    app.process_streaming(chunk("{\"message\":{\"content\":\"A\"}}\n{\"done\":true}\n{\"message\":{\"content\":\"B\"}}\n"), 3);
    match app.messages.back().expect("assistant turn expected") {
        Message::Assistant { content, .. } => assert_eq!(content, "A"),
        _ => panic!("expected an assistant turn"),
    }
}

#[test]
fn timed_out_poll_changes_nothing() {
    let mut app = loading_app();
    app.process_streaming(chunk("{\"message\":{\"content\":\"A\"}}\n"), 3);
    let msgs_before = app.messages.len();
    app.process_streaming(StreamEvent::TimedOut, 4);
    assert!(app.is_loading);
    assert_eq!(app.messages.len(), msgs_before);
    assert_eq!(app.streaming_message.as_deref(), Some("A"));
}

#[test]
fn stream_error_finalizes_with_partial_text() {
    let mut app = loading_app();
    app.process_streaming(chunk("{\"message\":{\"content\":\"part\"}}\n"), 3);
    app.process_streaming(StreamEvent::Errored, 4);
    assert!(!app.is_loading);
    assert_eq!(app.error_message.as_deref(), Some("Stream error"));
    match app.messages.back().expect("assistant turn expected") {
        Message::Assistant { content, .. } => assert_eq!(content, "part"),
        _ => panic!("expected an assistant turn"),
    }
}

#[test]
fn blank_accumulated_text_is_not_committed() {
    let mut app = loading_app();
    let before = app.messages.len();
    app.process_streaming(chunk("{\"message\":{\"content\":\"  \"}}\n"), 3);
    app.process_streaming(StreamEvent::Ended, 4);
    assert!(!app.is_loading);
    assert_eq!(app.messages.len(), before);
}

#[test]
fn empty_content_fields_are_skipped() {
    let mut app = loading_app();
    app.process_streaming(chunk("{\"message\":{\"content\":\"\"}}\n{\"message\":{\"content\":\"X\"}}\n{\"done\":true}\n"), 3);
    match app.messages.back().expect("assistant turn expected") {
        Message::Assistant { content, .. } => assert_eq!(content, "X"),
        _ => panic!("expected an assistant turn"),
    }
}

#[test]
fn committed_turn_joins_transcript_and_memory() {
    let mut app = loading_app();
    app.process_streaming(chunk("{\"message\":{\"content\":\"reply\"}}\n{\"done\":true}\n"), 3);
    let last = app.chat_history.last().expect("transcript entry");
    assert_eq!(last.0, "assistant");
    assert_eq!(last.1, "reply");
    assert_eq!(app.memories.last().expect("memory entry").1, "reply");
}
