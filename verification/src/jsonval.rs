//! Reading the JSON payloads of incoming traffic. The JSON tree itself is
//! an outside value and opaque here; these functions pull plain values out
//! of it and hand them to the exactly specified rules in the other
//! modules.

use vstd::prelude::*;
use crate::strutil::str_eq;
use crate::protocol::{IncomingKind, classify_incoming};
use crate::events::{AcpEvent, UpdateFields, event_from_update};
use crate::permission::{PermissionOption, select_allow_option};

verus! {

#[verifier::external_type_specification]
#[verifier::external_body]
pub struct ExValue(serde_json::Value);

/// Relies on `serde_json::Value::get` with a string key: the value under
/// the key if this is an object holding it.
#[verifier::external_body]
fn json_get<'a>(v: &'a serde_json::Value, key: &str) -> Option<&'a serde_json::Value> {
    v.get(key)
}

/// Relies on `serde_json::Value::as_str`: the text if this is a string.
#[verifier::external_body]
fn json_as_str(v: &serde_json::Value) -> Option<String> {
    v.as_str().map(|s| s.to_owned())
}

/// Relies on `serde_json::Value::as_u64`: the number if this is an
/// integer representable as `u64`.
#[verifier::external_body]
fn json_as_u64(v: &serde_json::Value) -> Option<u64> {
    v.as_u64()
}

/// Relies on `serde_json::Value::as_array`: the elements if this is an
/// array.
#[verifier::external_body]
fn json_as_array<'a>(v: &'a serde_json::Value) -> Option<&'a Vec<serde_json::Value>> {
    v.as_array()
}

fn json_get_string(v: &serde_json::Value, key: &str) -> Option<String> {
    match json_get(v, key) {
        Some(inner) => json_as_str(inner),
        None => None,
    }
}

/// Classifies an incoming line's JSON object by the presence of a string
/// `method` field and an `id` field.
pub fn classify_message(message: &serde_json::Value) -> IncomingKind {
    let has_method = match json_get(message, "method") {
        Some(m) => json_as_str(m).is_some(),
        None => false,
    };
    let has_id = json_get(message, "id").is_some();
    classify_incoming(has_method, has_id)
}

/// Turns a notification into the event to broadcast: only
/// `session/update` notifications carrying a session id and a recognized
/// update type yield one. The mapping itself is `event_from_update`.
pub fn notification_to_event(message: &serde_json::Value) -> Option<AcpEvent> {
    let method = match json_get_string(message, "method") {
        Some(m) => m,
        None => {
            return None;
        },
    };
    if !str_eq(method.as_str(), "session/update") {
        return None;
    }
    let params = match json_get(message, "params") {
        Some(p) => p,
        None => {
            return None;
        },
    };
    let session_id = match json_get_string(params, "sessionId") {
        Some(s) => s,
        None => {
            return None;
        },
    };
    let update = match json_get(params, "update") {
        Some(u) => u,
        None => {
            return None;
        },
    };
    let update_type = match json_get_string(update, "sessionUpdate") {
        Some(t) => t,
        None => {
            return None;
        },
    };
    let text = match json_get(update, "content") {
        Some(content) => json_get_string(content, "text"),
        None => None,
    };
    let fields = UpdateFields {
        text,
        title: json_get_string(update, "title"),
        status: json_get_string(update, "status"),
        tool_call_id: json_get_string(update, "toolCallId"),
    };
    event_from_update(session_id, update_type.as_str(), fields)
}

/// The session a reverse request belongs to, or the empty string.
pub fn session_id_of(params: &serde_json::Value) -> String {
    match json_get_string(params, "sessionId") {
        Some(s) => s,
        None => String::new(),
    }
}

/// The tool-call title of a permission request, or its default.
pub fn permission_title_of(params: &serde_json::Value) -> String {
    let title = match json_get(params, "toolCall") {
        Some(tool_call) => json_get_string(tool_call, "title"),
        None => None,
    };
    match title {
        Some(t) => t,
        None => "Tool permission".to_owned(),
    }
}

/// The options list of a `session/request_permission` request, each with
/// whatever fields it carries; `None` when the request has no options
/// array.
pub fn permission_options_from(params: &serde_json::Value) -> Option<Vec<PermissionOption>> {
    let raw = match json_get(params, "options") {
        Some(v) => match json_as_array(v) {
            Some(a) => a,
            None => {
                return None;
            },
        },
        None => {
            return None;
        },
    };
    let mut options: Vec<PermissionOption> = Vec::new();
    let mut i: usize = 0;
    while i < raw.len()
        decreases raw.len() - i,
    {
        let entry = &raw[i];
        options.push(
            PermissionOption {
                option_id: json_get_string(entry, "optionId"),
                kind: json_get_string(entry, "kind"),
            },
        );
        i = i + 1;
    }
    Some(options)
}

/// The reply selection for a permission request answered without an
/// interactive decision: the allow rule over the options, `None`
/// (cancelled) when there is no options array or nothing selectable.
pub fn noninteractive_permission_choice(params: &serde_json::Value) -> Option<String> {
    match permission_options_from(params) {
        Some(options) => select_allow_option(&options),
        None => None,
    }
}

/// The inputs of `fs/read_text_file`; `None` when the request is invalid
/// (no string `path`, or a `line`/`limit` that is not an unsigned
/// integer).
pub fn read_request_from(params: &serde_json::Value) -> Option<(String, Option<u64>, Option<u64>)> {
    let path = match json_get_string(params, "path") {
        Some(p) => p,
        None => {
            return None;
        },
    };
    let line = match json_get(params, "line") {
        Some(v) => match json_as_u64(v) {
            Some(n) => Some(n),
            None => {
                return None;
            },
        },
        None => None,
    };
    let limit = match json_get(params, "limit") {
        Some(v) => match json_as_u64(v) {
            Some(n) => Some(n),
            None => {
                return None;
            },
        },
        None => None,
    };
    Some((path, line, limit))
}

/// The inputs of `fs/write_text_file`; `None` when the request is
/// invalid.
pub fn write_request_from(params: &serde_json::Value) -> Option<(String, String)> {
    let path = match json_get_string(params, "path") {
        Some(p) => p,
        None => {
            return None;
        },
    };
    let content = match json_get_string(params, "content") {
        Some(c) => c,
        None => {
            return None;
        },
    };
    Some((path, content))
}

/// The inputs of `terminal/create`, extracted from its payload.
pub struct CreateParams {
    pub command: String,
    pub args: Option<Vec<String>>,
    pub cwd: Option<String>,
    pub env: Option<Vec<(String, String)>>,
    pub output_byte_limit: Option<usize>,
}

/// The inputs of `terminal/create`; `None` when the request is invalid
/// (no string `command`, a non-string argument or environment entry, or
/// an unusable byte limit).
pub fn create_request_from(params: &serde_json::Value) -> Option<CreateParams> {
    let command = match json_get_string(params, "command") {
        Some(c) => c,
        None => {
            return None;
        },
    };
    let args: Option<Vec<String>> = match json_get(params, "args") {
        Some(v) => {
            let raw = match json_as_array(v) {
                Some(a) => a,
                None => {
                    return None;
                },
            };
            let mut items: Vec<String> = Vec::new();
            let mut i: usize = 0;
            while i < raw.len()
                decreases raw.len() - i,
            {
                match json_as_str(&raw[i]) {
                    Some(s) => items.push(s),
                    None => {
                        return None;
                    },
                }
                i = i + 1;
            }
            Some(items)
        },
        None => None,
    };
    let cwd = match json_get(params, "cwd") {
        Some(v) => match json_as_str(v) {
            Some(s) => Some(s),
            None => {
                return None;
            },
        },
        None => None,
    };
    let env: Option<Vec<(String, String)>> = match json_get(params, "env") {
        Some(v) => {
            let raw = match json_as_array(v) {
                Some(a) => a,
                None => {
                    return None;
                },
            };
            let mut items: Vec<(String, String)> = Vec::new();
            let mut i: usize = 0;
            while i < raw.len()
                decreases raw.len() - i,
            {
                let name = match json_get_string(&raw[i], "name") {
                    Some(s) => s,
                    None => {
                        return None;
                    },
                };
                let value = match json_get_string(&raw[i], "value") {
                    Some(s) => s,
                    None => {
                        return None;
                    },
                };
                items.push((name, value));
                i = i + 1;
            }
            Some(items)
        },
        None => None,
    };
    let output_byte_limit = match json_get(params, "outputByteLimit") {
        Some(v) => match json_as_u64(v) {
            Some(n) => {
                if n <= usize::MAX as u64 {
                    Some(n as usize)
                } else {
                    return None;
                }
            },
            None => {
                return None;
            },
        },
        None => None,
    };
    Some(CreateParams { command, args, cwd, env, output_byte_limit })
}

/// The terminal a terminal-family request addresses; `None` when the
/// `terminalId` field is missing.
pub fn terminal_id_from(params: &serde_json::Value) -> Option<String> {
    json_get_string(params, "terminalId")
}

} // verus!
