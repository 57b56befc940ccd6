use quill::extract::extract_tool_call;
use quill::turn::ToolCall;

#[test]
fn extracts_read_file_with_prose() {
    let r = extract_tool_call("Sure, [tool_call: read_file('notes.txt')] done");
    let (call, inv) = r.expect("directive expected");
    match call {
        ToolCall::ReadFile { path } => assert_eq!(path, "notes.txt"),
        _ => panic!("wrong call kind"),
    }
    assert_eq!(inv, "read_file(\"notes.txt\")");
}

#[test]
fn extracts_read_directory_with_path_prefix() {
    let r = extract_tool_call("[tool_call: read_directory(path = \"src\")]");
    let (call, inv) = r.expect("directive expected");
    match call {
        ToolCall::ReadDirectory { path } => assert_eq!(path, "src"),
        _ => panic!("wrong call kind"),
    }
    assert_eq!(inv, "read_directory(\"src\")");
}

#[test]
fn takes_first_match_only() {
    let text = "a [tool_call: read_file('one')] b [tool_call: read_file('two')]";
    let (call, _) = extract_tool_call(text).expect("directive expected");
    match call {
        ToolCall::ReadFile { path } => assert_eq!(path, "one"),
        _ => panic!("wrong call kind"),
    }
}

#[test]
fn no_directive_yields_nothing() {
    assert!(extract_tool_call("just a plain reply").is_none());
    assert!(extract_tool_call("").is_none());
}

#[test]
fn tool_name_is_case_sensitive() {
    assert!(extract_tool_call("[tool_call: Read_File('x')]").is_none());
    assert!(extract_tool_call("[tool_call: READ_FILE('x')]").is_none());
}

#[test]
fn unknown_tool_is_ignored() {
    assert!(extract_tool_call("[tool_call: edit_file('x')]").is_none());
}

#[test]
fn newline_inside_argument_blocks_the_match() {
    assert!(extract_tool_call("[tool_call: read_file('a\nb')]").is_none());
}

#[test]
fn whitespace_after_colon_is_tolerated() {
    let (call, _) = extract_tool_call("[tool_call:   read_file(\"f\")]").expect("directive");
    match call {
        ToolCall::ReadFile { path } => assert_eq!(path, "f"),
        _ => panic!("wrong call kind"),
    }
}

#[test]
fn no_space_after_colon_is_tolerated() {
    let (call, _) = extract_tool_call("[tool_call:read_directory('d')]").expect("directive");
    match call {
        ToolCall::ReadDirectory { path } => assert_eq!(path, "d"),
        _ => panic!("wrong call kind"),
    }
}

#[test]
fn space_before_parenthesis_blocks_the_match() {
    assert!(extract_tool_call("[tool_call: read_file ('x')]").is_none());
}

#[test]
fn mismatched_quotes_still_close() {
    let (call, inv) = extract_tool_call("[tool_call: read_file('x\")]").expect("directive");
    match call {
        ToolCall::ReadFile { path } => assert_eq!(path, "x"),
        _ => panic!("wrong call kind"),
    }
    assert_eq!(inv, "read_file(\"x\")");
}

#[test]
fn argument_is_trimmed() {
    let (call, inv) = extract_tool_call("[tool_call: read_file('  spaced  ')]").expect("directive");
    match call {
        ToolCall::ReadFile { path } => assert_eq!(path, "spaced"),
        _ => panic!("wrong call kind"),
    }
    assert_eq!(inv, "read_file(\"spaced\")");
}

#[test]
fn missing_closing_bracket_blocks_the_match() {
    assert!(extract_tool_call("[tool_call: read_file('x')").is_none());
    assert!(extract_tool_call("[tool_call: read_file('x'").is_none());
}

#[test]
fn quote_not_followed_by_close_is_content() {
    let (call, _) = extract_tool_call("[tool_call: read_file('it's here')]").expect("directive");
    match call {
        ToolCall::ReadFile { path } => assert_eq!(path, "it's here"),
        _ => panic!("wrong call kind"),
    }
}
