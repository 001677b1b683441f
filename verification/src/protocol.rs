//! Classification of incoming JSON-RPC traffic, the `initialize`
//! version check, and the reverse-request method table.

use vstd::prelude::*;
use crate::strutil::{push_str, str_eq};
use crate::numfmt::{decimal_rep, format_u64};

verus! {

/// What an incoming line is, by the fields it carries: a response has an
/// id but no method, a notification a method but no id, a reverse request
/// both; anything else is ignored.
#[derive(Debug, PartialEq, Eq, Structural)]
pub enum IncomingKind {
    Response,
    Notification,
    ReverseRequest,
    Ignored,
}

/// The classification rule for an incoming message.
pub open spec fn incoming_kind(has_method: bool, has_id: bool) -> IncomingKind {
    if has_method && has_id {
        IncomingKind::ReverseRequest
    } else if has_method {
        IncomingKind::Notification
    } else if has_id {
        IncomingKind::Response
    } else {
        IncomingKind::Ignored
    }
}

/// Classifies an incoming message by whether it carries a string `method`
/// field and whether it carries an `id` field.
pub fn classify_incoming(has_method: bool, has_id: bool) -> (r: IncomingKind)
    ensures
        r == incoming_kind(has_method, has_id),
{
    if has_method && has_id {
        IncomingKind::ReverseRequest
    } else if has_method {
        IncomingKind::Notification
    } else if has_id {
        IncomingKind::Response
    } else {
        IncomingKind::Ignored
    }
}

/// The error text when an `initialize` response has no usable
/// `protocolVersion` field.
pub open spec fn missing_version_text() -> Seq<char> {
    "initialize response missing protocolVersion"@
}

/// The error text when the peer reports a protocol version other than the
/// supported one.
pub open spec fn version_mismatch_text(reported: nat) -> Seq<char> {
    "protocol version mismatch: expected 1, got "@ + decimal_rep(reported)
}

/// Checks the `protocolVersion` of an `initialize` response: absent or
/// non-numeric is an error, a version other than the supported one is a
/// mismatch error, and only the supported version succeeds.
pub fn check_protocol_version(reported: Option<u64>) -> (r: Result<(), String>)
    ensures
        match reported {
            None => r matches Err(m) && m@ == missing_version_text(),
            Some(v) => {
                if v == crate::PROTOCOL_VERSION {
                    r is Ok
                } else {
                    r matches Err(m) && m@ == version_mismatch_text(v as nat)
                }
            },
        },
{
    match reported {
        None => Err("initialize response missing protocolVersion".to_owned()),
        Some(v) => {
            if crate::protocol_version_ok(v) {
                Ok(())
            } else {
                let mut m: String = "protocol version mismatch: expected 1, got ".to_owned();
                let digits = format_u64(v);
                push_str(&mut m, digits.as_str());
                Err(m)
            }
        },
    }
}

/// The error text when a `session/new` response has no usable
/// `sessionId` field.
pub open spec fn missing_session_text() -> Seq<char> {
    "session/new response missing sessionId"@
}

/// Extracts the session handle from a `session/new` response: the
/// reported `sessionId`, or an error when the response carries none.
pub fn session_from_response(reported: Option<String>) -> (r: Result<String, String>)
    ensures
        match reported {
            Some(s) => (r matches Ok(id) && id == s),
            None => (r matches Err(m) && m@ == missing_session_text()),
        },
{
    match reported {
        Some(s) => Ok(s),
        None => Err("session/new response missing sessionId".to_owned()),
    }
}

/// The reverse-request methods this client terminates locally.
#[derive(Debug, PartialEq, Eq, Structural)]
pub enum ClientMethod {
    FsReadTextFile,
    FsWriteTextFile,
    TerminalCreate,
    TerminalOutput,
    TerminalWaitForExit,
    TerminalKill,
    TerminalRelease,
    SessionRequestPermission,
}

/// The dispatch table for reverse requests, by method name.
pub open spec fn client_method_of(m: Seq<char>) -> Option<ClientMethod> {
    if m == "fs/read_text_file"@ {
        Some(ClientMethod::FsReadTextFile)
    } else if m == "fs/write_text_file"@ {
        Some(ClientMethod::FsWriteTextFile)
    } else if m == "terminal/create"@ {
        Some(ClientMethod::TerminalCreate)
    } else if m == "terminal/output"@ {
        Some(ClientMethod::TerminalOutput)
    } else if m == "terminal/wait_for_exit"@ {
        Some(ClientMethod::TerminalWaitForExit)
    } else if m == "terminal/kill"@ {
        Some(ClientMethod::TerminalKill)
    } else if m == "terminal/release"@ {
        Some(ClientMethod::TerminalRelease)
    } else if m == "session/request_permission"@ {
        Some(ClientMethod::SessionRequestPermission)
    } else {
        None
    }
}

/// Resolves a reverse-request method name; an unsupported name yields
/// `None` and the caller replies with the JSON-RPC error.
pub fn parse_client_method(method: &str) -> (r: Option<ClientMethod>)
    ensures
        r == client_method_of(method@),
{
    if str_eq(method, "fs/read_text_file") {
        Some(ClientMethod::FsReadTextFile)
    } else if str_eq(method, "fs/write_text_file") {
        Some(ClientMethod::FsWriteTextFile)
    } else if str_eq(method, "terminal/create") {
        Some(ClientMethod::TerminalCreate)
    } else if str_eq(method, "terminal/output") {
        Some(ClientMethod::TerminalOutput)
    } else if str_eq(method, "terminal/wait_for_exit") {
        Some(ClientMethod::TerminalWaitForExit)
    } else if str_eq(method, "terminal/kill") {
        Some(ClientMethod::TerminalKill)
    } else if str_eq(method, "terminal/release") {
        Some(ClientMethod::TerminalRelease)
    } else if str_eq(method, "session/request_permission") {
        Some(ClientMethod::SessionRequestPermission)
    } else {
        None
    }
}

/// The JSON-RPC error code this client uses for every locally generated
/// error reply.
pub const LOCAL_ERROR_CODE: i64 = -32000;

/// The error text for an unsupported reverse-request method.
pub open spec fn unsupported_method_text(m: Seq<char>) -> Seq<char> {
    "unsupported ACP client method: "@ + m
}

/// Builds the error text for an unsupported reverse-request method.
pub fn unsupported_method_message(method: &str) -> (r: String)
    ensures
        r@ == unsupported_method_text(method@),
{
    let mut m: String = "unsupported ACP client method: ".to_owned();
    push_str(&mut m, method);
    m
}

/// The error text surfaced to a caller when the peer answers a request
/// with a JSON-RPC error object (rendered by the caller).
pub open spec fn request_failed_text(detail: Seq<char>) -> Seq<char> {
    "ACP request failed: "@ + detail
}

/// Builds the error text for a peer-reported request failure.
pub fn request_failed_message(detail: &str) -> (r: String)
    ensures
        r@ == request_failed_text(detail@),
{
    let mut m: String = "ACP request failed: ".to_owned();
    push_str(&mut m, detail);
    m
}

/// The status carried by the synthetic tool-call event that makes a
/// failed reverse request visible to observers.
pub open spec fn failed_status_text(detail: Seq<char>) -> Seq<char> {
    "failed: "@ + detail
}

/// Builds the status for the synthetic tool-call event of a failed
/// reverse request.
pub fn failed_status_message(detail: &str) -> (r: String)
    ensures
        r@ == failed_status_text(detail@),
{
    let mut m: String = "failed: ".to_owned();
    push_str(&mut m, detail);
    m
}

/// The stop reason of a `session/prompt` response: the reported string,
/// or `"unknown"` when the response carries none.
pub fn stop_reason_of(reported: Option<String>) -> (r: String)
    ensures
        match reported {
            Some(s) => r@ == s@,
            None => r@ == "unknown"@,
        },
{
    match reported {
        Some(s) => s,
        None => "unknown".to_owned(),
    }
}

} // verus!
