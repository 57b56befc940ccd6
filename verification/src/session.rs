//! The session state machine: the sole owner of all mutable session
//! state. It records turns, arbitrates the single pending tool call,
//! advances the in-flight stream, and tells the driver what outside
//! work to perform next. Every transition is stated as a function on
//! the session's mathematical view.

use vstd::prelude::*;
use vstd::string::StrSliceExecFns;
use vstd::string::StringExecFns;

use std::collections::VecDeque;

use crate::extract::{extract_spec, extract_tool_call, extracted_tool_call, normalized_invocation};
use crate::stream::{drain_chunk, drain_chunk_spec};
use crate::text::{insert_char_at, remove_char_at, trim_spec, trim_string};
use crate::toolexec::{format_tool_result, outcome_fits, resolve_path, resolve_path_spec,
    tool_result_spec};
use crate::turn::{pairs_view, Action, ActionV, KeyEvent, Message, MessageV, Model, ModelV,
    StreamEvent, StreamEventV, ToolCall, ToolCallV, ToolOutcome};

verus! {

/// The display history holds at most this many turns; the oldest is
/// evicted first.
pub const DISPLAY_CAP: usize = 50;

/// View of the session state.
#[verifier::ext_equal]
pub struct AppV {
    pub models: Seq<ModelV>,
    pub selected_model_index: int,
    pub input: Seq<char>,
    pub input_cursor_position: int,
    pub messages: Seq<MessageV>,
    pub is_loading: bool,
    pub error_message: Option<Seq<char>>,
    pub streaming_message: Option<Seq<char>>,
    pub working_directory: Seq<char>,
    pub system_prompt: Seq<char>,
    pub scroll_offset: int,
    pub memories: Seq<(Seq<char>, Seq<char>)>,
    pub chat_history: Seq<(Seq<char>, Seq<char>)>,
}

/// The views of the messages in `s`.
pub open spec fn msgs_view(s: Seq<Message>) -> Seq<MessageV> {
    s.map_values(|m: Message| m@)
}

/// The views of the models in `s`.
pub open spec fn models_view(s: Seq<Model>) -> Seq<ModelV> {
    s.map_values(|m: Model| m@)
}

/// No entry of `msgs` is a pending tool call.
pub open spec fn no_pending(msgs: Seq<MessageV>) -> bool {
    forall|i: int| 0 <= i < msgs.len() ==> !(msgs[i] is PendingToolCall)
}

/// The tail of `msgs` is a pending tool call.
pub open spec fn has_pending(msgs: Seq<MessageV>) -> bool {
    msgs.len() > 0 && msgs.last() is PendingToolCall
}

/// A pending tool call can stand only as the last entry.
pub open spec fn pending_only_at_tail(msgs: Seq<MessageV>) -> bool {
    msgs.len() == 0 || no_pending(msgs.drop_last())
}

/// The session's well-formedness invariant: a valid model selection, a
/// capped display, a cursor inside the input, the single pending call
/// only at the tail and never while loading, the in-progress buffer
/// present exactly while loading, and the seeded transcript.
pub open spec fn wf(st: AppV) -> bool {
    &&& 0 <= st.selected_model_index < st.models.len()
    &&& st.messages.len() <= DISPLAY_CAP as int
    &&& 0 <= st.input_cursor_position <= st.input.len()
    &&& pending_only_at_tail(st.messages)
    &&& (has_pending(st.messages) ==> !st.is_loading)
    &&& (st.is_loading <==> st.streaming_message is Some)
    &&& st.chat_history.len() >= 1
    &&& st.chat_history[0].0 == "system"@
}

/// Appends a turn to the display history, evicting the oldest entry
/// when the cap is exceeded.
pub open spec fn push_display_spec(msgs: Seq<MessageV>, m: MessageV) -> Seq<MessageV> {
    let s2 = msgs.push(m);
    if s2.len() > DISPLAY_CAP as int {
        s2.drop_first()
    } else {
        s2
    }
}

/// The scroll offset that shows the latest turn.
pub open spec fn scroll_bottom(len: int) -> int {
    if len == 0 {
        0
    } else {
        len - 1
    }
}

/// The structured call and normalized invocation of a pending turn.
pub open spec fn pending_parts(m: MessageV) -> (ToolCallV, Seq<char>) {
    match m {
        MessageV::PendingToolCall { tool_call, original_message, .. } => (
            tool_call,
            original_message,
        ),
        _ => (ToolCallV::ReadFile { path: Seq::empty() }, Seq::empty()),
    }
}

/// The state after submitting `content` to the backend: the input is
/// cleared, the transcript and display grow by one user-side turn, and
/// a fresh stream is awaited.
pub open spec fn submit_spec(st: AppV, content: Seq<char>, turn: MessageV, now: u64) -> AppV {
    AppV {
        input: Seq::empty(),
        input_cursor_position: 0,
        messages: push_display_spec(st.messages, turn),
        chat_history: st.chat_history.push(("user"@, content)),
        is_loading: true,
        error_message: None,
        streaming_message: Some(Seq::empty()),
        ..st
    }
}

/// The request a submission opens: the selected model, and the grown
/// transcript with one trailing empty user entry.
pub open spec fn submit_action(st: AppV, content: Seq<char>) -> ActionV {
    ActionV::OpenStream {
        model: st.models[st.selected_model_index].name,
        messages: st.chat_history.push(("user"@, content)).push(("user"@, Seq::empty())),
    }
}

/// The state after the backend refused to open a stream: a visible
/// error, and a return to idle.
pub open spec fn stream_open_failed_spec(st: AppV, err: Seq<char>) -> AppV {
    AppV {
        error_message: Some("Error: "@ + err),
        is_loading: false,
        streaming_message: None,
        ..st
    }
}

/// The state after scanning committed assistant text for a directive:
/// on a match, one pending turn is appended and shown; otherwise
/// nothing changes.
pub open spec fn parse_tool_calls_spec(st: AppV, text: Seq<char>, now: u64) -> AppV {
    match extract_spec(text) {
        Some((is_file, path)) => {
            let m = push_display_spec(
                st.messages,
                MessageV::PendingToolCall {
                    tool_call: extracted_tool_call(is_file, path),
                    original_message: normalized_invocation(is_file, path),
                    timestamp: now,
                },
            );
            AppV { messages: m, scroll_offset: scroll_bottom(m.len() as int), ..st }
        },
        None => st,
    }
}

/// The one-time finalization of a stream: non-blank accumulated text is
/// committed as an assistant turn, recorded in the transcript and the
/// memory log, and scanned for a directive; the in-progress buffer and
/// the loading flag are always cleared.
pub open spec fn finalize_spec(st: AppV, now: u64) -> AppV {
    let cleared = AppV { streaming_message: None, is_loading: false, ..st };
    match st.streaming_message {
        Some(c) => {
            if trim_spec(c).len() > 0 {
                let m1 = push_display_spec(
                    st.messages,
                    MessageV::Assistant { content: c, timestamp: now },
                );
                let st1 = AppV {
                    chat_history: st.chat_history.push(("assistant"@, c)),
                    messages: m1,
                    scroll_offset: scroll_bottom(m1.len() as int),
                    ..st
                };
                let st2 = parse_tool_calls_spec(st1, c, now);
                AppV {
                    memories: st2.memories.push(("USER"@, c)),
                    streaming_message: None,
                    is_loading: false,
                    ..st2
                }
            } else {
                cleared
            }
        },
        None => cleared,
    }
}

/// One advance of an active stream: a fragment's lines are folded into
/// the buffer and a completion marker finalizes; a stream error is
/// recorded and finalizes; a stream end finalizes; an empty poll does
/// nothing. An inactive stream is left untouched, so finalization
/// cannot happen twice.
pub open spec fn stream_step_spec(st: AppV, ev: StreamEventV, now: u64) -> AppV {
    if !st.is_loading || !(st.streaming_message is Some) {
        st
    } else {
        match ev {
            StreamEventV::Chunk { text } => {
                let r = drain_chunk_spec(text, st.streaming_message->0);
                let st2 = AppV { streaming_message: Some(r.0), ..st };
                if r.1 {
                    finalize_spec(st2, now)
                } else {
                    st2
                }
            },
            StreamEventV::Errored => finalize_spec(
                AppV { error_message: Some("Stream error"@), ..st },
                now,
            ),
            StreamEventV::Ended => finalize_spec(st, now),
            StreamEventV::TimedOut => st,
        }
    }
}

/// The state after denying the pending call: the pending turn is
/// replaced by a denial carrying the same call and invocation text.
pub open spec fn deny_spec(st: AppV, now: u64) -> AppV {
    let p = pending_parts(st.messages.last());
    AppV {
        messages: st.messages.drop_last().push(
            MessageV::ToolCallDenied { tool_call: p.0, original_message: p.1, timestamp: now },
        ),
        ..st
    }
}

/// The state after one abstract key event. While a call is pending only
/// approval and denial act; while a stream is loading nothing acts;
/// otherwise keys select the model, edit the input, or submit it.
pub open spec fn handle_input_state(st: AppV, key: KeyEvent, now: u64) -> AppV {
    if has_pending(st.messages) {
        if key == KeyEvent::Right {
            AppV { messages: st.messages.drop_last(), ..st }
        } else if key == KeyEvent::Left {
            deny_spec(st, now)
        } else {
            st
        }
    } else if st.is_loading {
        st
    } else {
        match key {
            KeyEvent::Up => AppV {
                selected_model_index: if st.selected_model_index > 0 {
                    st.selected_model_index - 1
                } else {
                    st.selected_model_index
                },
                ..st
            },
            KeyEvent::Down => AppV {
                selected_model_index: if st.selected_model_index + 1 < st.models.len() {
                    st.selected_model_index + 1
                } else {
                    st.selected_model_index
                },
                ..st
            },
            KeyEvent::Char(c) => if st.input.len() < usize::MAX as int {
                AppV {
                    input: st.input.insert(st.input_cursor_position, c),
                    input_cursor_position: st.input_cursor_position + 1,
                    ..st
                }
            } else {
                st
            },
            KeyEvent::Backspace => if st.input_cursor_position > 0 {
                AppV {
                    input: st.input.remove(st.input_cursor_position - 1),
                    input_cursor_position: st.input_cursor_position - 1,
                    ..st
                }
            } else {
                st
            },
            KeyEvent::Delete => if st.input_cursor_position < st.input.len() {
                AppV { input: st.input.remove(st.input_cursor_position), ..st }
            } else {
                st
            },
            KeyEvent::Left => if st.input_cursor_position > 0 {
                AppV { input_cursor_position: st.input_cursor_position - 1, ..st }
            } else {
                st
            },
            KeyEvent::Right => if st.input_cursor_position < st.input.len() {
                AppV { input_cursor_position: st.input_cursor_position + 1, ..st }
            } else {
                st
            },
            KeyEvent::Enter => if trim_spec(st.input).len() > 0 {
                submit_spec(
                    st,
                    st.input,
                    MessageV::User { content: st.input, timestamp: now },
                    now,
                )
            } else {
                st
            },
        }
    }
}

/// What the driver is asked to do after one abstract key event:
/// approval hands the pending call out, submission opens a stream, and
/// everything else asks nothing.
pub open spec fn handle_input_action(st: AppV, key: KeyEvent, now: u64) -> ActionV {
    if has_pending(st.messages) {
        if key == KeyEvent::Right {
            let p = pending_parts(st.messages.last());
            ActionV::RunTool { tool_call: p.0, original_message: p.1 }
        } else {
            ActionV::Noop
        }
    } else if st.is_loading {
        ActionV::Noop
    } else if key == KeyEvent::Enter && trim_spec(st.input).len() > 0 {
        submit_action(st, st.input)
    } else {
        ActionV::Noop
    }
}

/// The initial session state: the given models, or one synthetic
/// fallback model when none were given; an empty history; and a
/// transcript seeded with exactly one system entry.
pub open spec fn new_spec(models: Seq<ModelV>, wd: Seq<char>, sp: Seq<char>, now: u64) -> AppV {
    AppV {
        models: if models.len() == 0 {
            seq![ModelV { name: "llama2"@, modified_at: now, size: 0 }]
        } else {
            models
        },
        selected_model_index: 0,
        input: Seq::empty(),
        input_cursor_position: 0,
        messages: Seq::empty(),
        is_loading: false,
        error_message: None,
        streaming_message: None,
        working_directory: wd,
        system_prompt: sp,
        scroll_offset: 0,
        memories: Seq::empty(),
        chat_history: seq![("system"@, sp)],
    }
}

/// The single-string prompt of the alternate construction path: the
/// system prompt, every remembered exchange, and the new user message.
pub open spec fn memories_prompt(mems: Seq<(Seq<char>, Seq<char>)>) -> Seq<char>
    decreases mems.len(),
{
    if mems.len() == 0 {
        Seq::empty()
    } else {
        memories_prompt(mems.drop_last()) + "USER: "@ + mems.last().0 + "\nASSISTANT: "@
            + mems.last().1 + "\n"@
    }
}

/// The full prompt for `user`, memories inlined.
pub open spec fn prompt_spec(st: AppV, user: Seq<char>) -> Seq<char> {
    st.system_prompt + "\n\n"@ + memories_prompt(st.memories) + "USER: "@ + user + "\nASSISTANT:"@
}

/// The interactive session: conversation history, model selection, the
/// input line, and the streaming state.
pub struct App {
    pub models: Vec<Model>,
    pub selected_model_index: usize,
    pub input: String,
    pub input_cursor_position: usize,
    pub messages: VecDeque<Message>,
    pub is_loading: bool,
    pub error_message: Option<String>,
    pub streaming_message: Option<String>,
    pub working_directory: String,
    pub system_prompt: String,
    pub scroll_offset: usize,
    pub memories: Vec<(String, String)>,
    pub chat_history: Vec<(String, String)>,
}

impl View for App {
    type V = AppV;

    open spec fn view(&self) -> AppV {
        AppV {
            models: models_view(self.models@),
            selected_model_index: self.selected_model_index as int,
            input: self.input@,
            input_cursor_position: self.input_cursor_position as int,
            messages: msgs_view(self.messages@),
            is_loading: self.is_loading,
            error_message: match self.error_message {
                Some(ref e) => Some(e@),
                None => None,
            },
            streaming_message: match self.streaming_message {
                Some(ref s) => Some(s@),
                None => None,
            },
            working_directory: self.working_directory@,
            system_prompt: self.system_prompt@,
            scroll_offset: self.scroll_offset as int,
            memories: pairs_view(self.memories@),
            chat_history: pairs_view(self.chat_history@),
        }
    }
}

/// Appends a turn to the display history, evicting the oldest entry
/// when the cap is exceeded.
fn push_display(msgs: &mut VecDeque<Message>, m: Message)
    requires
        old(msgs)@.len() <= DISPLAY_CAP as int,
    ensures
        msgs_view(final(msgs)@) == push_display_spec(msgs_view(old(msgs)@), m@),
        final(msgs)@.len() <= DISPLAY_CAP as int,
{
    let ghost pre = msgs_view(msgs@);
    msgs.push_back(m);
    proof {
        assert(msgs_view(msgs@) =~= pre.push(m@));
    }
    if msgs.len() > DISPLAY_CAP {
        let ghost mid = msgs_view(msgs@);
        msgs.pop_front();
        proof {
            assert(msgs_view(msgs@) =~= mid.drop_first());
        }
    }
}

impl App {
    /// Builds a fresh session around the given models and fixed
    /// working-directory root, its transcript seeded with the system
    /// prompt; with no models given, one synthetic fallback model
    /// stamped `now` stands in.
    pub fn new(
        models: Vec<Model>,
        working_directory: String,
        system_prompt: String,
        now: u64,
    ) -> (r: App)
        ensures
            r@ == new_spec(models_view(models@), working_directory@, system_prompt@, now),
            wf(r@),
    {
        let ms = if models.len() == 0 {
            let mut v: Vec<Model> = Vec::new();
            v.push(Model { name: String::from_str("llama2"), modified_at: now, size: 0 });
            proof {
                assert(models_view(v@) =~= seq![
                    ModelV { name: "llama2"@, modified_at: now, size: 0 },
                ]);
            }
            v
        } else {
            models
        };
        let mut history: Vec<(String, String)> = Vec::new();
        history.push((String::from_str("system"), system_prompt.clone()));
        proof {
            assert(pairs_view(history@) =~~= seq![("system"@, system_prompt@)]);
        }
        let r = App {
            models: ms,
            selected_model_index: 0,
            input: String::new(),
            input_cursor_position: 0,
            messages: VecDeque::new(),
            is_loading: false,
            error_message: None,
            streaming_message: None,
            working_directory,
            system_prompt,
            scroll_offset: 0,
            memories: Vec::new(),
            chat_history: history,
        };
        proof {
            assert(msgs_view(r.messages@) =~= Seq::<MessageV>::empty());
            assert(pairs_view(r.memories@) =~~= Seq::<(Seq<char>, Seq<char>)>::empty());
            assert(r@ =~~= new_spec(
                models_view(models@),
                working_directory@,
                system_prompt@,
                now,
            ));
        }
        r
    }

    /// Scrolls the view to the latest turn.
    fn scroll_to_bottom(&mut self)
        ensures
            final(self)@ == (AppV {
                scroll_offset: scroll_bottom(old(self)@.messages.len() as int),
                ..old(self)@
            }),
    {
        let l = self.messages.len();
        self.scroll_offset = if l == 0 {
            0
        } else {
            l - 1
        };
        proof {
            assert(self@ =~~= AppV {
                scroll_offset: scroll_bottom(old(self)@.messages.len() as int),
                ..old(self)@
            });
        }
    }

    /// Records one completed exchange in the memory log.
    fn add_memory(&mut self, user: &str, assistant: &str)
        ensures
            final(self)@ == (AppV {
                memories: old(self)@.memories.push((user@, assistant@)),
                ..old(self)@
            }),
    {
        self.memories.push((String::from_str(user), String::from_str(assistant)));
        proof {
            assert(pairs_view(self.memories@) =~~= old(self)@.memories.push((user@, assistant@)));
            assert(self@ =~~= AppV {
                memories: old(self)@.memories.push((user@, assistant@)),
                ..old(self)@
            });
        }
    }

    /// Appends a user entry to the transcript.
    fn add_user_message(&mut self, content: &str)
        ensures
            final(self)@ == (AppV {
                chat_history: old(self)@.chat_history.push(("user"@, content@)),
                ..old(self)@
            }),
    {
        self.chat_history.push((String::from_str("user"), String::from_str(content)));
        proof {
            assert(pairs_view(self.chat_history@) =~~= old(self)@.chat_history.push(
                ("user"@, content@),
            ));
            assert(self@ =~~= AppV {
                chat_history: old(self)@.chat_history.push(("user"@, content@)),
                ..old(self)@
            });
        }
    }

    /// Appends an assistant entry to the transcript.
    fn add_assistant_message(&mut self, content: &str)
        ensures
            final(self)@ == (AppV {
                chat_history: old(self)@.chat_history.push(("assistant"@, content@)),
                ..old(self)@
            }),
    {
        self.chat_history.push((String::from_str("assistant"), String::from_str(content)));
        proof {
            assert(pairs_view(self.chat_history@) =~~= old(self)@.chat_history.push(
                ("assistant"@, content@),
            ));
            assert(self@ =~~= AppV {
                chat_history: old(self)@.chat_history.push(("assistant"@, content@)),
                ..old(self)@
            });
        }
    }

    /// The transcript to send for `user_message`: the stored entries
    /// with one extra trailing user entry, the stored state untouched.
    pub fn build_messages(&self, user_message: &str) -> (r: Vec<(String, String)>)
        ensures
            pairs_view(r@) == self@.chat_history.push(("user"@, user_message@)),
    {
        let mut r: Vec<(String, String)> = Vec::new();
        let n = self.chat_history.len();
        let mut i: usize = 0;
        while i < n
            invariant
                i <= n == self.chat_history@.len(),
                r@.len() == i as int,
                forall|k: int| 0 <= k < i ==> r@[k] == self.chat_history@[k],
            decreases n - i,
        {
            let pair = (self.chat_history[i].0.clone(), self.chat_history[i].1.clone());
            proof {
                assert(pair =~~= self.chat_history@[i as int]);
            }
            r.push(pair);
            i = i + 1;
        }
        r.push((String::from_str("user"), String::from_str(user_message)));
        proof {
            assert(pairs_view(r@) =~~= self@.chat_history.push(("user"@, user_message@)));
        }
        r
    }

    /// The single-string prompt of the alternate construction path.
    pub fn build_prompt(&self, user_message: &str) -> (r: String)
        ensures
            r@ == prompt_spec(self@, user_message@),
    {
        let mut prompt = String::from_str(self.system_prompt.as_str());
        prompt.append("\n\n");
        let n = self.memories.len();
        let mut i: usize = 0;
        while i < n
            invariant
                i <= n == self.memories@.len(),
                prompt@ == self@.system_prompt + "\n\n"@ + memories_prompt(
                    self@.memories.take(i as int),
                ),
            decreases n - i,
        {
            prompt.append("USER: ");
            prompt.append(self.memories[i].0.as_str());
            prompt.append("\nASSISTANT: ");
            prompt.append(self.memories[i].1.as_str());
            prompt.append("\n");
            i = i + 1;
            proof {
                let pre = self@.memories.take(i - 1);
                let now_m = self@.memories.take(i as int);
                assert(now_m.drop_last() =~= pre);
                assert(now_m.last() == self@.memories[i - 1]);
                assert(prompt@ =~= self@.system_prompt + "\n\n"@ + memories_prompt(now_m));
            }
        }
        proof {
            assert(self@.memories.take(n as int) =~= self@.memories);
        }
        prompt.append("USER: ");
        prompt.append(user_message);
        prompt.append("\nASSISTANT:");
        proof {
            assert(prompt@ =~= prompt_spec(self@, user_message@));
        }
        prompt
    }

    /// The currently selected model.
    pub fn get_selected_model(&self) -> (r: Option<&Model>)
        ensures
            match r {
                Some(m) => self@.selected_model_index < self@.models.len() && m@
                    == self@.models[self@.selected_model_index],
                None => self@.selected_model_index >= self@.models.len(),
            },
    {
        if self.selected_model_index < self.models.len() {
            Some(&self.models[self.selected_model_index])
        } else {
            None
        }
    }

    /// Joins a requested tool path under the working-directory root.
    pub fn resolve_tool_path(&self, path: &str) -> (r: String)
        ensures
            r@ == resolve_path_spec(self@.working_directory, path@),
    {
        resolve_path(self.working_directory.as_str(), path)
    }

    /// Formats what an approved call's filesystem outcome reports back
    /// to the model: a result block or an error block, either holding
    /// the resolved path.
    pub fn execute_tool_call(&self, tool_call: &ToolCall, outcome: &ToolOutcome) -> (r: String)
        requires
            outcome_fits(tool_call@, outcome@),
        ensures
            r@ == tool_result_spec(self@.working_directory, tool_call@, outcome@),
    {
        format_tool_result(self.working_directory.as_str(), tool_call, outcome)
    }

    /// Records the refusal of a stream request: a visible error, and a
    /// return to idle.
    pub fn stream_open_failed(&mut self, err: &str)
        requires
            wf(old(self)@),
        ensures
            wf(final(self)@),
            final(self)@ == stream_open_failed_spec(old(self)@, err@),
    {
        let mut msg = String::from_str("Error: ");
        msg.append(err);
        self.error_message = Some(msg);
        self.is_loading = false;
        self.streaming_message = None;
        proof {
            assert(self@ =~~= stream_open_failed_spec(old(self)@, err@));
        }
    }

    /// Scans committed assistant text for a directive; on a match, one
    /// pending turn is appended and shown.
    pub fn parse_tool_calls(&mut self, message: &str, now: u64)
        requires
            old(self)@.messages.len() <= DISPLAY_CAP as int,
            pending_only_at_tail(old(self)@.messages),
            !has_pending(old(self)@.messages),
        ensures
            final(self)@ == parse_tool_calls_spec(old(self)@, message@, now),
            final(self)@.messages.len() <= DISPLAY_CAP as int,
            pending_only_at_tail(final(self)@.messages),
            final(self)@.messages.len() >= old(self)@.messages.len(),
    {
        proof {
            lemma_no_pending(old(self)@.messages);
        }
        match extract_tool_call(message) {
            Some((tool_call, original_message)) => {
                let ghost pre = self@.messages;
                let m = Message::PendingToolCall { tool_call, original_message, timestamp: now };
                proof {
                    lemma_push_display(pre, m@);
                }
                push_display(&mut self.messages, m);
                self.scroll_to_bottom();
                proof {
                    assert(self@ =~~= parse_tool_calls_spec(old(self)@, message@, now));
                }
            },
            None => {
                proof {
                    assert(self@ =~~= parse_tool_calls_spec(old(self)@, message@, now));
                }
            },
        }
    }

    /// Finalizes the in-flight stream exactly once: commits non-blank
    /// accumulated text, scans it for a directive, and clears the
    /// buffer and the loading flag.
    fn finish_streaming(&mut self, now: u64)
        requires
            wf(old(self)@),
            !has_pending(old(self)@.messages),
        ensures
            wf(final(self)@),
            final(self)@ == finalize_spec(old(self)@, now),
    {
        proof {
            lemma_no_pending(old(self)@.messages);
        }
        let taken = self.streaming_message.take();
        match taken {
            Some(content) => {
                let trimmed = trim_string(content.as_str());
                if !trimmed.as_str().is_empty() {
                    self.add_assistant_message(content.as_str());
                    let ghost pre = self@.messages;
                    let m = Message::Assistant { content: content.clone(), timestamp: now };
                    proof {
                        lemma_push_display(pre, m@);
                    }
                    push_display(&mut self.messages, m);
                    self.scroll_to_bottom();
                    self.parse_tool_calls(content.as_str(), now);
                    self.add_memory("USER", content.as_str());
                }
            },
            None => {},
        }
        self.is_loading = false;
        proof {
            assert(self@ =~~= finalize_spec(old(self)@, now));
        }
    }

    /// Advances an active stream by one observed event, finalizing on a
    /// completion marker, a stream error or the stream's end. On an
    /// inactive stream every event is a no-op, so a stream cannot be
    /// finalized twice.
    pub fn process_streaming(&mut self, event: StreamEvent, now: u64)
        requires
            wf(old(self)@),
        ensures
            wf(final(self)@),
            final(self)@ == stream_step_spec(old(self)@, event@, now),
    {
        if !self.is_loading {
            return ;
        }
        match event {
            StreamEvent::Chunk { text } => {
                let mut buf = match self.streaming_message.take() {
                    Some(b) => b,
                    None => {
                        proof {
                            assert(false);
                        }
                        return ;
                    },
                };
                let done = drain_chunk(text.as_str(), &mut buf);
                self.streaming_message = Some(buf);
                proof {
                    let r = drain_chunk_spec(text@, old(self)@.streaming_message->0);
                    assert(self@ =~~= (AppV { streaming_message: Some(r.0), ..old(self)@ }));
                }
                if done {
                    self.finish_streaming(now);
                }
            },
            StreamEvent::Errored => {
                self.error_message = Some(String::from_str("Stream error"));
                proof {
                    assert(self@ =~~= (AppV {
                        error_message: Some("Stream error"@),
                        ..old(self)@
                    }));
                }
                self.finish_streaming(now);
            },
            StreamEvent::Ended => {
                self.finish_streaming(now);
            },
            StreamEvent::TimedOut => {},
        }
    }

    /// Submits text to the backend as the content of a user-side turn:
    /// the transcript and display grow, the session starts loading, and
    /// the driver is asked to open a stream.
    fn submit_content(&mut self, content: String, turn: Message, now: u64) -> (action: Action)
        requires
            wf(old(self)@),
            !old(self)@.is_loading,
            !has_pending(old(self)@.messages),
            turn@ == (MessageV::User { content: content@, timestamp: now }) || turn@ == (
            MessageV::ToolCallResult { result: content@, timestamp: now }),
        ensures
            wf(final(self)@),
            final(self)@ == submit_spec(old(self)@, content@, turn@, now),
            action@ == submit_action(old(self)@, content@),
    {
        proof {
            lemma_no_pending(old(self)@.messages);
        }
        self.input = String::new();
        self.input_cursor_position = 0;
        self.add_user_message(content.as_str());
        let ghost pre = self@.messages;
        proof {
            lemma_push_display(pre, turn@);
        }
        push_display(&mut self.messages, turn);
        self.is_loading = true;
        self.error_message = None;
        self.streaming_message = Some(String::new());
        let model = self.models[self.selected_model_index].name.clone();
        let messages = self.build_messages("");
        proof {
            reveal_strlit("");
            assert(""@ =~= Seq::<char>::empty());
            assert(self@ =~~= submit_spec(old(self)@, content@, turn@, now));
            assert((ActionV::OpenStream { model: model@, messages: pairs_view(messages@) })
                =~~= submit_action(old(self)@, content@)) by {
                assert(pairs_view(messages@) =~~= old(self)@.chat_history.push(
                    ("user"@, content@),
                ).push(("user"@, Seq::empty())));
            }
        }
        Action::OpenStream { model, messages }
    }

    /// Submits the input line as a user turn and opens a stream.
    fn start_message_sending(&mut self, now: u64) -> (action: Action)
        requires
            wf(old(self)@),
            !old(self)@.is_loading,
            !has_pending(old(self)@.messages),
        ensures
            wf(final(self)@),
            final(self)@ == submit_spec(
                old(self)@,
                old(self)@.input,
                MessageV::User { content: old(self)@.input, timestamp: now },
                now,
            ),
            action@ == submit_action(old(self)@, old(self)@.input),
    {
        let mut content = String::new();
        core::mem::swap(&mut content, &mut self.input);
        self.input_cursor_position = 0;
        let turn = Message::User { content: content.clone(), timestamp: now };
        let action = self.submit_content(content, turn, now);
        proof {
            assert(self@ =~~= submit_spec(
                old(self)@,
                old(self)@.input,
                MessageV::User { content: old(self)@.input, timestamp: now },
                now,
            ));
        }
        action
    }

    /// Submits given text, typically a tool's formatted outcome, as a
    /// distinctly marked user-side turn, and opens a stream.
    pub fn start_message_sending_with_content(&mut self, content: String, now: u64) -> (action:
        Action)
        requires
            wf(old(self)@),
            !old(self)@.is_loading,
            !has_pending(old(self)@.messages),
        ensures
            wf(final(self)@),
            final(self)@ == submit_spec(
                old(self)@,
                content@,
                MessageV::ToolCallResult { result: content@, timestamp: now },
                now,
            ),
            action@ == submit_action(old(self)@, content@),
    {
        let turn = Message::ToolCallResult { result: content.clone(), timestamp: now };
        self.submit_content(content, turn, now)
    }

    /// Replaces the pending call at the tail by a denial carrying the
    /// same call and invocation text; the backend is not contacted.
    fn deny_tool_call(&mut self, now: u64)
        requires
            wf(old(self)@),
            has_pending(old(self)@.messages),
        ensures
            wf(final(self)@),
            final(self)@ == deny_spec(old(self)@, now),
    {
        let ghost pre = self@.messages;
        let tail = self.messages.pop_back();
        match tail {
            Some(Message::PendingToolCall { tool_call, original_message, .. }) => {
                self.messages.push_back(
                    Message::ToolCallDenied { tool_call, original_message, timestamp: now },
                );
                proof {
                    assert(msgs_view(self.messages@) =~= pre.drop_last().push(
                        MessageV::ToolCallDenied {
                            tool_call: pending_parts(pre.last()).0,
                            original_message: pending_parts(pre.last()).1,
                            timestamp: now,
                        },
                    ));
                    assert(self@ =~~= deny_spec(old(self)@, now));
                    assert(pending_only_at_tail(self@.messages)) by {
                        assert(self@.messages.drop_last() =~= pre.drop_last());
                    }
                }
            },
            _ => {
                proof {
                    assert(pre.last() == msgs_view(old(self).messages@).last());
                    assert(false);
                }
            },
        }
    }

    /// Handles one abstract key event. While a call is pending, only
    /// approval (the right arrow) and denial (the left arrow) act; the
    /// rest is ignored. While loading, everything is ignored. Otherwise
    /// keys select the model, edit the input line, or submit it.
    pub fn handle_input(&mut self, key: KeyEvent, now: u64) -> (action: Action)
        requires
            wf(old(self)@),
        ensures
            wf(final(self)@),
            final(self)@ == handle_input_state(old(self)@, key, now),
            action@ == handle_input_action(old(self)@, key, now),
    {
        let n = self.messages.len();
        let tail_pending = n > 0 && matches!(&self.messages[n - 1], Message::PendingToolCall { .. });
        proof {
            assert(tail_pending == has_pending(old(self)@.messages));
        }
        if tail_pending {
            match key {
                KeyEvent::Right => {
                    let ghost pre = self@.messages;
                    let tail = self.messages.pop_back();
                    match tail {
                        Some(Message::PendingToolCall { tool_call, original_message, .. }) => {
                            proof {
                                assert(self@ =~~= (AppV {
                                    messages: pre.drop_last(),
                                    ..old(self)@
                                }));
                                assert(pending_only_at_tail(self@.messages)) by {
                                    lemma_no_pending_of_drop(pre);
                                }
                            }
                            return Action::RunTool { tool_call, original_message };
                        },
                        _ => {
                            proof {
                                assert(false);
                            }
                            return Action::Noop;
                        },
                    }
                },
                KeyEvent::Left => {
                    self.deny_tool_call(now);
                    return Action::Noop;
                },
                _ => {
                    return Action::Noop;
                },
            }
        }
        if self.is_loading {
            return Action::Noop;
        }
        match key {
            KeyEvent::Up => {
                if self.selected_model_index > 0 {
                    self.selected_model_index = self.selected_model_index - 1;
                }
                proof {
                    assert(self@ =~~= handle_input_state(old(self)@, key, now));
                }
                Action::Noop
            },
            KeyEvent::Down => {
                let nm = self.models.len();
                if nm > 0 && self.selected_model_index < nm - 1 {
                    self.selected_model_index = self.selected_model_index + 1;
                }
                proof {
                    assert(self@ =~~= handle_input_state(old(self)@, key, now));
                }
                Action::Noop
            },
            KeyEvent::Char(c) => {
                if self.input.as_str().unicode_len() < usize::MAX {
                    insert_char_at(&mut self.input, self.input_cursor_position, c);
                    self.input_cursor_position = self.input_cursor_position + 1;
                }
                proof {
                    assert(self@ =~~= handle_input_state(old(self)@, key, now));
                }
                Action::Noop
            },
            KeyEvent::Backspace => {
                if self.input_cursor_position > 0 {
                    remove_char_at(&mut self.input, self.input_cursor_position - 1);
                    self.input_cursor_position = self.input_cursor_position - 1;
                }
                proof {
                    assert(self@ =~~= handle_input_state(old(self)@, key, now));
                }
                Action::Noop
            },
            KeyEvent::Delete => {
                if self.input_cursor_position < self.input.as_str().unicode_len() {
                    remove_char_at(&mut self.input, self.input_cursor_position);
                }
                proof {
                    assert(self@ =~~= handle_input_state(old(self)@, key, now));
                }
                Action::Noop
            },
            KeyEvent::Left => {
                if self.input_cursor_position > 0 {
                    self.input_cursor_position = self.input_cursor_position - 1;
                }
                proof {
                    assert(self@ =~~= handle_input_state(old(self)@, key, now));
                }
                Action::Noop
            },
            KeyEvent::Right => {
                if self.input_cursor_position < self.input.as_str().unicode_len() {
                    self.input_cursor_position = self.input_cursor_position + 1;
                }
                proof {
                    assert(self@ =~~= handle_input_state(old(self)@, key, now));
                }
                Action::Noop
            },
            KeyEvent::Enter => {
                let trimmed = trim_string(self.input.as_str());
                if !trimmed.as_str().is_empty() {
                    self.start_message_sending(now)
                } else {
                    Action::Noop
                }
            },
        }
    }
}

/// A message sequence whose pending call can stand only at the tail,
/// and whose tail is no pending call, holds no pending call at all.
proof fn lemma_no_pending(msgs: Seq<MessageV>)
    requires
        pending_only_at_tail(msgs),
        !has_pending(msgs),
    ensures
        no_pending(msgs),
{
    assert forall|i: int| 0 <= i < msgs.len() implies !(msgs[i] is PendingToolCall) by {
        if i < msgs.len() - 1 {
            assert(msgs.drop_last()[i] == msgs[i]);
        } else {
            assert(msgs[i] == msgs.last());
        }
    }
}

/// Dropping the tail of a pending-at-tail-only sequence leaves no
/// pending call anywhere, so the result is pending-at-tail-only too.
proof fn lemma_no_pending_of_drop(msgs: Seq<MessageV>)
    requires
        pending_only_at_tail(msgs),
        msgs.len() > 0,
    ensures
        no_pending(msgs.drop_last()),
        pending_only_at_tail(msgs.drop_last()),
{
    let d = msgs.drop_last();
    if d.len() > 0 {
        assert forall|i: int| 0 <= i < d.drop_last().len() implies !(d.drop_last()[i]
            is PendingToolCall) by {
            assert(d.drop_last()[i] == d[i]);
        }
    }
}

/// Appending a turn to a display free of pending calls keeps the cap,
/// keeps the pending-at-tail shape, and leaves the appended turn last.
proof fn lemma_push_display(msgs: Seq<MessageV>, m: MessageV)
    requires
        msgs.len() <= DISPLAY_CAP as int,
        no_pending(msgs),
    ensures
        push_display_spec(msgs, m).len() <= DISPLAY_CAP as int,
        push_display_spec(msgs, m).len() > 0,
        push_display_spec(msgs, m).last() == m,
        no_pending(push_display_spec(msgs, m).drop_last()),
        pending_only_at_tail(push_display_spec(msgs, m)),
        !(m is PendingToolCall) ==> no_pending(push_display_spec(msgs, m)),
        m is PendingToolCall ==> has_pending(push_display_spec(msgs, m)),
{
    let s2 = msgs.push(m);
    let r = push_display_spec(msgs, m);
    if s2.len() > DISPLAY_CAP as int {
        assert(r =~= s2.drop_first());
        assert(r.last() == m);
        assert forall|i: int| 0 <= i < r.drop_last().len() implies !(r.drop_last()[i]
            is PendingToolCall) by {
            assert(r.drop_last()[i] == msgs[i + 1]);
        }
        assert forall|i: int| !(m is PendingToolCall) && 0 <= i < r.len() implies !(r[i]
            is PendingToolCall) by {
            if i < r.len() - 1 {
                assert(r[i] == msgs[i + 1]);
            }
        }
    } else {
        assert(r =~= s2);
        assert(r.drop_last() =~= msgs);
        assert forall|i: int| !(m is PendingToolCall) && 0 <= i < r.len() implies !(r[i]
            is PendingToolCall) by {
            if i < r.len() - 1 {
                assert(r[i] == msgs[i]);
            }
        }
    }
}

} // verus!
