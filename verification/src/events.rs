//! The event variants the adapter client broadcasts, and the rules that
//! turn a `session/update` notification into one of them and route it to
//! a streaming prompt.

use vstd::prelude::*;
use crate::strutil::str_eq;

verus! {

/// An event fanned out to subscribers: a streamed message chunk, a tool
/// call and its updates, or a permission request awaiting an external
/// decision.
#[derive(Debug, Clone)]
pub enum AcpEvent {
    AgentMessageChunk { session_id: String, text: String },
    ToolCall {
        session_id: String,
        tool_call_id: Option<String>,
        title: String,
        status: Option<String>,
    },
    ToolCallUpdate {
        session_id: String,
        tool_call_id: Option<String>,
        title: Option<String>,
        status: Option<String>,
    },
    PermissionRequest { session_id: String, permission_id: String, title: String },
}

impl AcpEvent {
    /// The session an event belongs to.
    pub open spec fn spec_session_id(self) -> Seq<char> {
        match self {
            AcpEvent::AgentMessageChunk { session_id, .. } => session_id@,
            AcpEvent::ToolCall { session_id, .. } => session_id@,
            AcpEvent::ToolCallUpdate { session_id, .. } => session_id@,
            AcpEvent::PermissionRequest { session_id, .. } => session_id@,
        }
    }

    /// The session an event belongs to.
    pub fn session_id(&self) -> (r: &str)
        ensures
            r@ == self.spec_session_id(),
    {
        match self {
            AcpEvent::AgentMessageChunk { session_id, .. } => session_id.as_str(),
            AcpEvent::ToolCall { session_id, .. } => session_id.as_str(),
            AcpEvent::ToolCallUpdate { session_id, .. } => session_id.as_str(),
            AcpEvent::PermissionRequest { session_id, .. } => session_id.as_str(),
        }
    }
}

/// Whether a streaming prompt on `session_id` observes this event: its
/// own session's events, and events whose session is empty (the routing
/// fallback for adapter-initiated messages that omit the session).
pub open spec fn targets_prompt(event: AcpEvent, session_id: Seq<char>) -> bool {
    event.spec_session_id() == session_id || event.spec_session_id().len() == 0
}

/// Decides whether a streaming prompt hands this event to its caller.
pub fn event_targets_prompt(event: &AcpEvent, session_id: &str) -> (r: bool)
    ensures
        r == targets_prompt(*event, session_id@),
{
    let sid = event.session_id();
    if str_eq(sid, session_id) {
        true
    } else {
        sid.is_empty()
    }
}

/// The response to a `session/prompt` request.
pub struct PromptResponse {
    pub stop_reason: String,
}

/// The fields a `session/update` notification may carry, once extracted
/// from its JSON payload.
pub struct UpdateFields {
    pub text: Option<String>,
    pub title: Option<String>,
    pub status: Option<String>,
    pub tool_call_id: Option<String>,
}

/// Which event a `session/update` notification yields: a chunk only when
/// text is present, a tool call with a default title, a tool-call update
/// with everything optional; other update types yield nothing.
pub fn event_from_update(session_id: String, update_type: &str, fields: UpdateFields) -> (r:
    Option<AcpEvent>)
    ensures
        ({
            let t = update_type@;
            if t == "agent_message_chunk"@ {
                match fields.text {
                    Some(text) => (r matches Some(e) && e == (AcpEvent::AgentMessageChunk {
                        session_id,
                        text,
                    })),
                    None => r is None,
                }
            } else if t == "tool_call"@ {
                r matches Some(e) && (e matches AcpEvent::ToolCall {
                    session_id: s,
                    tool_call_id: tc,
                    title: ti,
                    status: st,
                } && s == session_id && tc == fields.tool_call_id && st == fields.status && (
                match fields.title {
                    Some(given) => ti == given,
                    None => ti@ == "tool call"@,
                }))
            } else if t == "tool_call_update"@ {
                r matches Some(e) && e == (AcpEvent::ToolCallUpdate {
                    session_id,
                    tool_call_id: fields.tool_call_id,
                    title: fields.title,
                    status: fields.status,
                })
            } else {
                r is None
            }
        }),
{
    if str_eq(update_type, "agent_message_chunk") {
        match fields.text {
            Some(text) => Some(AcpEvent::AgentMessageChunk { session_id, text }),
            None => None,
        }
    } else if str_eq(update_type, "tool_call") {
        let title = match fields.title {
            Some(title) => title,
            None => "tool call".to_owned(),
        };
        Some(
            AcpEvent::ToolCall {
                session_id,
                tool_call_id: fields.tool_call_id,
                title,
                status: fields.status,
            },
        )
    } else if str_eq(update_type, "tool_call_update") {
        Some(
            AcpEvent::ToolCallUpdate {
                session_id,
                tool_call_id: fields.tool_call_id,
                title: fields.title,
                status: fields.status,
            },
        )
    } else {
        None
    }
}

} // verus!
