//! Laws of the session state machine, stated over the spec-level
//! transitions and proved once and for all.

use vstd::prelude::*;

use crate::session::{finalize_spec, handle_input_action, handle_input_state, has_pending,
    pending_parts, push_display_spec, stream_step_spec, AppV, DISPLAY_CAP};
use crate::turn::{ActionV, KeyEvent, MessageV, StreamEventV};

verus! {

/// The display history never exceeds its cap, and on overflow the
/// oldest entry is the one evicted: appending to a full display drops
/// the head and keeps the order of the rest.
pub proof fn lemma_display_capped(msgs: Seq<MessageV>, m: MessageV)
    requires
        msgs.len() <= DISPLAY_CAP as int,
    ensures
        push_display_spec(msgs, m).len() <= DISPLAY_CAP as int,
        msgs.len() < DISPLAY_CAP as int ==> push_display_spec(msgs, m) == msgs.push(m),
        msgs.len() == DISPLAY_CAP as int ==> push_display_spec(msgs, m) == msgs.drop_first().push(
            m,
        ),
{
    if msgs.len() == DISPLAY_CAP as int {
        assert(push_display_spec(msgs, m) =~= msgs.drop_first().push(m));
    }
}

/// While the display's tail is a pending tool call, every key event
/// but approval and denial is a no-op: the state is unchanged and the
/// driver is asked nothing.
pub proof fn lemma_pending_blocks_input(st: AppV, key: KeyEvent, now: u64)
    requires
        has_pending(st.messages),
        key != KeyEvent::Left,
        key != KeyEvent::Right,
    ensures
        handle_input_state(st, key, now) == st,
        handle_input_action(st, key, now) == ActionV::Noop,
{
}

/// Denying a pending call never contacts the backend: the driver is
/// asked nothing, the transcript and loading state are untouched, and
/// exactly one denial turn, carrying the original call and its
/// normalized invocation text verbatim, replaces the pending turn.
pub proof fn lemma_deny_is_local(st: AppV, now: u64)
    requires
        has_pending(st.messages),
    ensures
        handle_input_action(st, KeyEvent::Left, now) == ActionV::Noop,
        handle_input_state(st, KeyEvent::Left, now).messages == st.messages.drop_last().push(
            (MessageV::ToolCallDenied {
                tool_call: pending_parts(st.messages.last()).0,
                original_message: pending_parts(st.messages.last()).1,
                timestamp: now,
            }),
        ),
        handle_input_state(st, KeyEvent::Left, now).chat_history == st.chat_history,
        handle_input_state(st, KeyEvent::Left, now).is_loading == st.is_loading,
{
}

/// On an inactive stream every stream event is a no-op.
pub proof fn lemma_inactive_stream_is_noop(st: AppV, ev: StreamEventV, now: u64)
    requires
        !st.is_loading,
    ensures
        stream_step_spec(st, ev, now) == st,
{
}

/// Finalization happens at most once per stream: finalizing clears the
/// loading flag, and once the flag is down every further stream event,
/// a second end or error included, changes nothing — the committed
/// assistant turn cannot be duplicated.
pub proof fn lemma_finalize_once(st: AppV, ev: StreamEventV, now1: u64, now2: u64)
    ensures
        !finalize_spec(st, now1).is_loading,
        ({
            let st1 = stream_step_spec(st, StreamEventV::Ended, now1);
            stream_step_spec(st1, ev, now2) == st1
        }),
{
    let st1 = stream_step_spec(st, StreamEventV::Ended, now1);
    if !st1.is_loading {
        lemma_inactive_stream_is_noop(st1, ev, now2);
    } else {
        // only an ill-formed state keeps loading: its buffer is gone,
        // so the guard leaves it untouched either way
        assert(stream_step_spec(st1, ev, now2) == st1);
    }
}

} // verus!
