//! The tool executor's computation: resolving a requested path against
//! the fixed working-directory root and formatting the textual result
//! or error block handed back to the model. The filesystem access
//! itself is the driver's; a failure there is data, not a fault.

use vstd::prelude::*;
use vstd::string::StrSliceExecFns;
use vstd::string::StringExecFns;

use crate::turn::{DirEntry, DirEntryV, EntryKind, ToolCall, ToolCallV, ToolOutcome, ToolOutcomeV};

verus! {

/// A simple path join under the working directory: an absolute path
/// stands alone; otherwise a single separator joins the two parts.
pub open spec fn resolve_path_spec(wd: Seq<char>, p: Seq<char>) -> Seq<char> {
    if p.len() > 0 && p[0] == '/' {
        p
    } else if wd.len() > 0 && wd.last() == '/' {
        wd + p
    } else {
        wd + "/"@ + p
    }
}

/// The path a tool call asks for.
pub open spec fn call_path(call: ToolCallV) -> Seq<char> {
    match call {
        ToolCallV::ReadFile { path } => path,
        ToolCallV::ReadDirectory { path } => path,
    }
}

/// The kind label of a directory entry line.
pub open spec fn kind_label(kind: EntryKind) -> Seq<char> {
    match kind {
        EntryKind::Dir => "[DIR]"@,
        EntryKind::File => "[FILE]"@,
        EntryKind::Unknown => "[?]"@,
    }
}

/// One line of a directory listing: the kind label and the entry name.
pub open spec fn entry_line(e: DirEntryV) -> Seq<char> {
    kind_label(e.kind) + " "@ + e.name
}

/// The lines of a directory listing joined by newlines, in the order
/// the entries were enumerated.
pub open spec fn dir_listing(es: Seq<DirEntryV>) -> Seq<char>
    decreases es.len(),
{
    if es.len() == 0 {
        Seq::empty()
    } else if es.len() == 1 {
        entry_line(es[0])
    } else {
        dir_listing(es.drop_last()) + "\n"@ + entry_line(es.last())
    }
}

/// Whether an outcome is of the shape the call can produce.
pub open spec fn outcome_fits(call: ToolCallV, outcome: ToolOutcomeV) -> bool {
    match outcome {
        ToolOutcomeV::FileOk { .. } => call is ReadFile,
        ToolOutcomeV::DirOk { .. } => call is ReadDirectory,
        ToolOutcomeV::Failed { .. } => true,
    }
}

/// The textual block a tool call's outcome turns into: a result block
/// holding the resolved path and the contents or listing, or an error
/// block holding the resolved path and the error's description.
pub open spec fn tool_result_spec(wd: Seq<char>, call: ToolCallV, outcome: ToolOutcomeV) -> Seq<
    char,
> {
    let rp = resolve_path_spec(wd, call_path(call));
    match outcome {
        ToolOutcomeV::FileOk { content } => "[TOOL RESULT: read_file]\nPath: "@ + rp + "\n---\n"@
            + content,
        ToolOutcomeV::DirOk { entries } => "[TOOL RESULT: read_directory]\nPath: "@ + rp
            + "\n---\n"@ + dir_listing(entries),
        ToolOutcomeV::Failed { error } => (if call is ReadFile {
            "[TOOL ERROR: read_file]\nPath: "@
        } else {
            "[TOOL ERROR: read_directory]\nPath: "@
        }) + rp + "\nError: "@ + error,
    }
}

/// Joins a requested path under the working-directory root.
pub fn resolve_path(wd: &str, p: &str) -> (r: String)
    ensures
        r@ == resolve_path_spec(wd@, p@),
{
    if p.unicode_len() > 0 && p.get_char(0) == '/' {
        return String::from_str(p);
    }
    let mut r = String::from_str(wd);
    let wl = wd.unicode_len();
    if !(wl > 0 && wd.get_char(wl - 1) == '/') {
        r.append("/");
    }
    r.append(p);
    r
}

/// Formats the textual block a tool call's outcome turns into.
pub fn format_tool_result(wd: &str, call: &ToolCall, outcome: &ToolOutcome) -> (r: String)
    requires
        outcome_fits(call@, outcome@),
    ensures
        r@ == tool_result_spec(wd@, call@, outcome@),
{
    let path = match call {
        ToolCall::ReadFile { path } => path,
        ToolCall::ReadDirectory { path } => path,
    };
    let rp = resolve_path(wd, path.as_str());
    let mut r = String::new();
    match outcome {
        ToolOutcome::FileOk { content } => {
            r.append("[TOOL RESULT: read_file]\nPath: ");
            r.append(rp.as_str());
            r.append("\n---\n");
            r.append(content.as_str());
        },
        ToolOutcome::DirOk { entries } => {
            r.append("[TOOL RESULT: read_directory]\nPath: ");
            r.append(rp.as_str());
            r.append("\n---\n");
            let listing = format_dir_listing(entries);
            r.append(listing.as_str());
        },
        ToolOutcome::Failed { error } => {
            match call {
                ToolCall::ReadFile { .. } => r.append("[TOOL ERROR: read_file]\nPath: "),
                ToolCall::ReadDirectory { .. } => r.append("[TOOL ERROR: read_directory]\nPath: "),
            }
            r.append(rp.as_str());
            r.append("\nError: ");
            r.append(error.as_str());
        },
    }
    r
}

/// The entries of `es[..i]`, viewed.
pub open spec fn entries_view(es: Seq<DirEntry>) -> Seq<DirEntryV> {
    es.map_values(|e: DirEntry| e@)
}

/// Formats a directory listing, one labelled entry per line, in the
/// enumeration order given.
pub fn format_dir_listing(entries: &Vec<DirEntry>) -> (r: String)
    ensures
        r@ == dir_listing(entries_view(entries@)),
{
    let mut r = String::new();
    let n = entries.len();
    let mut i: usize = 0;
    while i < n
        invariant
            i <= n == entries@.len(),
            r@ == dir_listing(entries_view(entries@).take(i as int)),
        decreases n - i,
    {
        if i > 0 {
            r.append("\n");
        }
        match entries[i].kind {
            EntryKind::Dir => r.append("[DIR]"),
            EntryKind::File => r.append("[FILE]"),
            EntryKind::Unknown => r.append("[?]"),
        }
        r.append(" ");
        r.append(entries[i].name.as_str());
        i = i + 1;
        proof {
            let pre = entries_view(entries@).take(i - 1);
            let now = entries_view(entries@).take(i as int);
            assert(now.drop_last() =~= pre);
            assert(now.last() == entries@[i - 1]@);
        }
    }
    proof {
        assert(entries_view(entries@).take(n as int) =~= entries_view(entries@));
    }
    r
}

} // verus!
