use quill::session::App;
use quill::toolexec::{format_dir_listing, format_tool_result, resolve_path};
use quill::turn::{DirEntry, EntryKind, Model, ToolCall, ToolOutcome};

fn one_model() -> Vec<Model> {
    vec![Model { name: String::from("llama2"), modified_at: 7, size: 0 }]
}

#[test]
fn resolve_joins_relative_paths() {
    assert_eq!(resolve_path("/home/user", "notes.txt"), "/home/user/notes.txt");
}

#[test]
fn resolve_keeps_absolute_paths() {
    assert_eq!(resolve_path("/home/user", "/etc/hosts"), "/etc/hosts");
}

#[test]
fn resolve_avoids_doubling_the_separator() {
    assert_eq!(resolve_path("/home/user/", "notes.txt"), "/home/user/notes.txt");
}

#[test]
fn file_result_block_is_exact() {
    let app = App::new(one_model(), String::from("/wd"), String::from("sys"), 0);
    let call = ToolCall::ReadFile { path: String::from("a.txt") };
    let outcome = ToolOutcome::FileOk { content: String::from("hello\nworld") };
    let r = app.execute_tool_call(&call, &outcome);
    assert_eq!(r, "[TOOL RESULT: read_file]\nPath: /wd/a.txt\n---\nhello\nworld");
}

#[test]
fn file_error_block_is_exact() {
    let call = ToolCall::ReadFile { path: String::from("missing.txt") };
    let outcome = ToolOutcome::Failed { error: String::from("No such file or directory") };
    let r = format_tool_result("/wd", &call, &outcome);
    assert_eq!(
        r,
        "[TOOL ERROR: read_file]\nPath: /wd/missing.txt\nError: No such file or directory"
    );
}

#[test]
fn directory_result_block_keeps_enumeration_order() {
    let call = ToolCall::ReadDirectory { path: String::from("sub") };
    let entries = vec![
        DirEntry { kind: EntryKind::File, name: String::from("b.txt") },
        DirEntry { kind: EntryKind::Dir, name: String::from("a") },
        DirEntry { kind: EntryKind::Unknown, name: String::from("odd") },
    ];
    let outcome = ToolOutcome::DirOk { entries };
    let r = format_tool_result("/wd", &call, &outcome);
    assert_eq!(
        r,
        "[TOOL RESULT: read_directory]\nPath: /wd/sub\n---\n[FILE] b.txt\n[DIR] a\n[?] odd"
    );
}

#[test]
fn directory_error_block_is_exact() {
    let call = ToolCall::ReadDirectory { path: String::from("nope") };
    let outcome = ToolOutcome::Failed { error: String::from("denied") };
    let r = format_tool_result("/wd", &call, &outcome);
    assert_eq!(r, "[TOOL ERROR: read_directory]\nPath: /wd/nope\nError: denied");
}

#[test]
fn empty_directory_lists_nothing() {
    let entries: Vec<DirEntry> = Vec::new();
    assert_eq!(format_dir_listing(&entries), "");
}
