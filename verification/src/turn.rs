//! The conversation data model: turns, tool calls, models, key events,
//! stream events, tool outcomes and driver actions, each with a
//! mathematical view used by the session contracts.

use vstd::prelude::*;

verus! {

// ------------------------------------------------------------------
// Spec-level views
// ------------------------------------------------------------------

/// View of a [`ToolCall`].
#[verifier::ext_equal]
pub enum ToolCallV {
    ReadFile { path: Seq<char> },
    ReadDirectory { path: Seq<char> },
}

/// View of a [`Message`].
#[verifier::ext_equal]
pub enum MessageV {
    User { content: Seq<char>, timestamp: u64 },
    Assistant { content: Seq<char>, timestamp: u64 },
    PendingToolCall { tool_call: ToolCallV, original_message: Seq<char>, timestamp: u64 },
    ToolCallResult { result: Seq<char>, timestamp: u64 },
    ToolCallDenied { tool_call: ToolCallV, original_message: Seq<char>, timestamp: u64 },
}

/// View of a [`Model`].
#[verifier::ext_equal]
pub struct ModelV {
    pub name: Seq<char>,
    pub modified_at: u64,
    pub size: u64,
}

/// View of a [`DirEntry`].
#[verifier::ext_equal]
pub struct DirEntryV {
    pub kind: EntryKind,
    pub name: Seq<char>,
}

/// View of a [`ToolOutcome`].
#[verifier::ext_equal]
pub enum ToolOutcomeV {
    FileOk { content: Seq<char> },
    DirOk { entries: Seq<DirEntryV> },
    Failed { error: Seq<char> },
}

/// View of an [`Action`].
#[verifier::ext_equal]
pub enum ActionV {
    Noop,
    RunTool { tool_call: ToolCallV, original_message: Seq<char> },
    OpenStream { model: Seq<char>, messages: Seq<(Seq<char>, Seq<char>)> },
}

/// View of a [`StreamEvent`].
#[verifier::ext_equal]
pub enum StreamEventV {
    Chunk { text: Seq<char> },
    Errored,
    Ended,
    TimedOut,
}

// ------------------------------------------------------------------
// Executable types
// ------------------------------------------------------------------

/// A single local filesystem operation the assistant may request.
#[derive(Debug, Clone)]
pub enum ToolCall {
    ReadFile { path: String },
    ReadDirectory { path: String },
}

impl View for ToolCall {
    type V = ToolCallV;

    open spec fn view(&self) -> ToolCallV {
        match self {
            ToolCall::ReadFile { path } => ToolCallV::ReadFile { path: path@ },
            ToolCall::ReadDirectory { path } => ToolCallV::ReadDirectory { path: path@ },
        }
    }
}

/// A detected, not-yet-approved tool invocation: the structured call and
/// its normalized textual form.
#[derive(Debug, Clone)]
pub struct PendingToolCall {
    pub tool_call: ToolCall,
    pub original_message: String,
}

/// View of a [`PendingToolCall`].
#[verifier::ext_equal]
pub struct PendingToolCallV {
    pub tool_call: ToolCallV,
    pub original_message: Seq<char>,
}

impl View for PendingToolCall {
    type V = PendingToolCallV;

    open spec fn view(&self) -> PendingToolCallV {
        PendingToolCallV { tool_call: self.tool_call@, original_message: self.original_message@ }
    }
}

/// One immutable entry of the visible conversation history.
#[derive(Debug)]
pub enum Message {
    User { content: String, timestamp: u64 },
    Assistant { content: String, timestamp: u64 },
    PendingToolCall { tool_call: ToolCall, original_message: String, timestamp: u64 },
    ToolCallResult { result: String, timestamp: u64 },
    ToolCallDenied { tool_call: ToolCall, original_message: String, timestamp: u64 },
}

impl View for Message {
    type V = MessageV;

    open spec fn view(&self) -> MessageV {
        match self {
            Message::User { content, timestamp } => MessageV::User {
                content: content@,
                timestamp: *timestamp,
            },
            Message::Assistant { content, timestamp } => MessageV::Assistant {
                content: content@,
                timestamp: *timestamp,
            },
            Message::PendingToolCall { tool_call, original_message, timestamp } => {
                MessageV::PendingToolCall {
                    tool_call: tool_call@,
                    original_message: original_message@,
                    timestamp: *timestamp,
                }
            },
            Message::ToolCallResult { result, timestamp } => MessageV::ToolCallResult {
                result: result@,
                timestamp: *timestamp,
            },
            Message::ToolCallDenied { tool_call, original_message, timestamp } => {
                MessageV::ToolCallDenied {
                    tool_call: tool_call@,
                    original_message: original_message@,
                    timestamp: *timestamp,
                }
            },
        }
    }
}

/// A language model offered by the backend; its last-modified time is a
/// plain seconds count.
#[derive(Debug, Clone)]
pub struct Model {
    pub name: String,
    pub modified_at: u64,
    pub size: u64,
}

impl View for Model {
    type V = ModelV;

    open spec fn view(&self) -> ModelV {
        ModelV { name: self.name@, modified_at: self.modified_at, size: self.size }
    }
}

/// The kind label of one directory entry, as reported by the driver.
#[derive(Debug, Clone, Copy, PartialEq, Eq, Structural)]
pub enum EntryKind {
    Dir,
    File,
    Unknown,
}

/// One immediate entry of a listed directory.
#[derive(Debug, Clone)]
pub struct DirEntry {
    pub kind: EntryKind,
    pub name: String,
}

impl View for DirEntry {
    type V = DirEntryV;

    open spec fn view(&self) -> DirEntryV {
        DirEntryV { kind: self.kind, name: self.name@ }
    }
}

/// What the driver's filesystem access produced for an approved call.
/// A failure is data, not a fault: it is reported back to the model.
#[derive(Debug)]
pub enum ToolOutcome {
    FileOk { content: String },
    DirOk { entries: Vec<DirEntry> },
    Failed { error: String },
}

impl View for ToolOutcome {
    type V = ToolOutcomeV;

    open spec fn view(&self) -> ToolOutcomeV {
        match self {
            ToolOutcome::FileOk { content } => ToolOutcomeV::FileOk { content: content@ },
            ToolOutcome::DirOk { entries } => ToolOutcomeV::DirOk {
                entries: entries@.map_values(|e: DirEntry| e@),
            },
            ToolOutcome::Failed { error } => ToolOutcomeV::Failed { error: error@ },
        }
    }
}

/// An abstract key event, as decoded by the driver.
#[derive(Debug, Clone, Copy, PartialEq, Eq, Structural)]
pub enum KeyEvent {
    Up,
    Down,
    Left,
    Right,
    Char(char),
    Backspace,
    Delete,
    Enter,
}

/// What the session asks the driver to do after handling an event.
#[derive(Debug)]
pub enum Action {
    Noop,
    RunTool { tool_call: ToolCall, original_message: String },
    OpenStream { model: String, messages: Vec<(String, String)> },
}

/// The views of the role/content pairs in `v`.
pub open spec fn pairs_view(v: Seq<(String, String)>) -> Seq<(Seq<char>, Seq<char>)> {
    v.map_values(|p: (String, String)| (p.0@, p.1@))
}

impl View for Action {
    type V = ActionV;

    open spec fn view(&self) -> ActionV {
        match self {
            Action::Noop => ActionV::Noop,
            Action::RunTool { tool_call, original_message } => ActionV::RunTool {
                tool_call: tool_call@,
                original_message: original_message@,
            },
            Action::OpenStream { model, messages } => ActionV::OpenStream {
                model: model@,
                messages: pairs_view(messages@),
            },
        }
    }
}

/// One observation of the backend's fragment sequence, as polled by the
/// driver within its short time budget.
#[derive(Debug)]
pub enum StreamEvent {
    /// The sequence yielded one raw text fragment.
    Chunk { text: String },
    /// The sequence yielded an error.
    Errored,
    /// The sequence ended without a completion marker.
    Ended,
    /// Nothing arrived within the poll's time budget.
    TimedOut,
}

impl View for StreamEvent {
    type V = StreamEventV;

    open spec fn view(&self) -> StreamEventV {
        match self {
            StreamEvent::Chunk { text } => StreamEventV::Chunk { text: text@ },
            StreamEvent::Errored => StreamEventV::Errored,
            StreamEvent::Ended => StreamEventV::Ended,
            StreamEvent::TimedOut => StreamEventV::TimedOut,
        }
    }
}

} // verus!
