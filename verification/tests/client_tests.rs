use boss_engine::events::{event_from_update, event_targets_prompt, AcpEvent, UpdateFields};
use boss_engine::pending::PendingTable;
use boss_engine::permission::{
    respond_permission, select_allow_option, select_reject_option, select_resolved_option,
    PermissionCoordinator, PermissionOption,
};
use boss_engine::protocol::{
    check_protocol_version, classify_incoming, parse_client_method, request_failed_message,
    session_from_response, stop_reason_of, unsupported_method_message, ClientMethod, IncomingKind,
};

fn no_fields() -> UpdateFields {
    UpdateFields { text: None, title: None, status: None, tool_call_id: None }
}

#[test]
fn request_ids_increase_from_one() {
    let mut t = PendingTable::new();
    let a = t.begin_request();
    let b = t.begin_request();
    let c = t.begin_request();
    assert_eq!((a, b, c), (1, 2, 3));
}

#[test]
fn pending_entries_resolve_exactly_once() {
    let mut t = PendingTable::new();
    let a = t.begin_request();
    let b = t.begin_request();
    assert!(t.resolve_response(a));
    assert!(!t.resolve_response(a));
    assert!(!t.resolve_response(99));
    assert!(t.resolve_response(b));
    let c = t.begin_request();
    assert_eq!(c, 3);
}

#[test]
fn teardown_drops_all_pending_entries() {
    let mut t = PendingTable::new();
    let a = t.begin_request();
    let b = t.begin_request();
    t.teardown();
    assert!(!t.resolve_response(a));
    assert!(!t.resolve_response(b));
}

#[test]
fn protocol_version_check() {
    assert!(check_protocol_version(Some(1)).is_ok());
    let err = check_protocol_version(Some(2)).expect_err("mismatch");
    assert_eq!(err, "protocol version mismatch: expected 1, got 2");
    let err = check_protocol_version(None).expect_err("missing");
    assert_eq!(err, "initialize response missing protocolVersion");
}

#[test]
fn session_handle_extraction() {
    assert_eq!(
        session_from_response(Some("sess-9".to_owned())),
        Ok("sess-9".to_owned())
    );
    let err = session_from_response(None).expect_err("missing handle");
    assert_eq!(err, "session/new response missing sessionId");
}

#[test]
fn incoming_classification() {
    assert_eq!(classify_incoming(true, true), IncomingKind::ReverseRequest);
    assert_eq!(classify_incoming(true, false), IncomingKind::Notification);
    assert_eq!(classify_incoming(false, true), IncomingKind::Response);
    assert_eq!(classify_incoming(false, false), IncomingKind::Ignored);
}

#[test]
fn reverse_method_dispatch() {
    assert_eq!(parse_client_method("fs/read_text_file"), Some(ClientMethod::FsReadTextFile));
    assert_eq!(parse_client_method("fs/write_text_file"), Some(ClientMethod::FsWriteTextFile));
    assert_eq!(parse_client_method("terminal/create"), Some(ClientMethod::TerminalCreate));
    assert_eq!(parse_client_method("terminal/output"), Some(ClientMethod::TerminalOutput));
    assert_eq!(
        parse_client_method("terminal/wait_for_exit"),
        Some(ClientMethod::TerminalWaitForExit)
    );
    assert_eq!(parse_client_method("terminal/kill"), Some(ClientMethod::TerminalKill));
    assert_eq!(parse_client_method("terminal/release"), Some(ClientMethod::TerminalRelease));
    assert_eq!(
        parse_client_method("session/request_permission"),
        Some(ClientMethod::SessionRequestPermission)
    );
    assert_eq!(parse_client_method("session/other"), None);
    assert_eq!(
        unsupported_method_message("session/other"),
        "unsupported ACP client method: session/other"
    );
}

#[test]
fn request_failure_message() {
    assert_eq!(
        request_failed_message("{\"code\":-1}"),
        "ACP request failed: {\"code\":-1}"
    );
}

#[test]
fn prompt_stream_observes_chunks_in_order_and_stop_reason() {
    let session = "sess-1";
    let mut seen: Vec<String> = Vec::new();
    for part in ["Hel", "lo", "!"] {
        let fields = UpdateFields {
            text: Some(part.to_owned()),
            title: None,
            status: None,
            tool_call_id: None,
        };
        let event = event_from_update(session.to_owned(), "agent_message_chunk", fields)
            .expect("chunk event");
        if event_targets_prompt(&event, session) {
            match event {
                AcpEvent::AgentMessageChunk { text, .. } => seen.push(text),
                _ => panic!("unexpected event"),
            }
        }
    }
    assert_eq!(seen, vec!["Hel", "lo", "!"]);
    assert_eq!(stop_reason_of(Some("end_turn".to_owned())), "end_turn");
    assert_eq!(stop_reason_of(None), "unknown");
}

#[test]
fn events_route_by_session_with_empty_fallback() {
    let event = event_from_update(
        "sess-1".to_owned(),
        "agent_message_chunk",
        UpdateFields { text: Some("x".to_owned()), title: None, status: None, tool_call_id: None },
    )
    .expect("event");
    assert!(event_targets_prompt(&event, "sess-1"));
    assert!(!event_targets_prompt(&event, "sess-2"));
    let unrouted = event_from_update(
        String::new(),
        "agent_message_chunk",
        UpdateFields { text: Some("x".to_owned()), title: None, status: None, tool_call_id: None },
    )
    .expect("event");
    assert!(event_targets_prompt(&unrouted, "sess-2"));
    assert_eq!(unrouted.session_id(), "");
}

#[test]
fn update_mapping_rules() {
    assert!(event_from_update("s".to_owned(), "agent_message_chunk", no_fields()).is_none());
    let call = event_from_update(
        "s".to_owned(),
        "tool_call",
        UpdateFields { text: None, title: None, status: Some("running".to_owned()), tool_call_id: None },
    )
    .expect("tool call");
    match call {
        AcpEvent::ToolCall { title, status, .. } => {
            assert_eq!(title, "tool call");
            assert_eq!(status.as_deref(), Some("running"));
        }
        _ => panic!("unexpected event"),
    }
    let update = event_from_update(
        "s".to_owned(),
        "tool_call_update",
        UpdateFields {
            text: None,
            title: Some("Build".to_owned()),
            status: None,
            tool_call_id: Some("t1".to_owned()),
        },
    )
    .expect("tool call update");
    match update {
        AcpEvent::ToolCallUpdate { title, tool_call_id, .. } => {
            assert_eq!(title.as_deref(), Some("Build"));
            assert_eq!(tool_call_id.as_deref(), Some("t1"));
        }
        _ => panic!("unexpected event"),
    }
    assert!(event_from_update("s".to_owned(), "something_else", no_fields()).is_none());
}

fn option(id: Option<&str>, kind: Option<&str>) -> PermissionOption {
    PermissionOption {
        option_id: id.map(|s| s.to_owned()),
        kind: kind.map(|s| s.to_owned()),
    }
}

#[test]
fn interactive_permission_selection() {
    let options = vec![option(Some("a"), Some("allow_once")), option(Some("r"), Some("reject_once"))];
    assert_eq!(select_resolved_option(&options, true).as_deref(), Some("a"));
    assert_eq!(select_resolved_option(&options, false).as_deref(), Some("r"));
}

#[test]
fn noninteractive_permission_fallback() {
    let options = vec![option(Some("x"), Some("reject_once"))];
    assert_eq!(select_allow_option(&options).as_deref(), Some("x"));
    let empty: Vec<PermissionOption> = Vec::new();
    assert_eq!(select_allow_option(&empty), None);
    let allow_always = vec![
        option(Some("first"), None),
        option(Some("later"), Some("allow_always")),
    ];
    assert_eq!(select_allow_option(&allow_always).as_deref(), Some("later"));
    let unusable = vec![option(None, Some("allow_once")), option(Some("ok"), Some("allow_once"))];
    assert_eq!(select_allow_option(&unusable).as_deref(), Some("ok"));
}

#[test]
fn denied_without_reject_option_cancels() {
    let options = vec![option(Some("a"), Some("allow_once"))];
    assert_eq!(select_reject_option(&options), None);
    assert_eq!(select_resolved_option(&options, false), None);
}

#[test]
fn permission_tickets_resolve_exactly_once() {
    let mut c = PermissionCoordinator::new();
    let first = c.register();
    let second = c.register();
    assert_eq!(first, "perm-1");
    assert_eq!(second, "perm-2");
    assert_eq!(respond_permission(&mut c, "perm-1", true), Ok(true));
    let err = respond_permission(&mut c, "perm-1", true).expect_err("already resolved");
    assert_eq!(err, "unknown permission request id: perm-1");
    let err = respond_permission(&mut c, "perm-7", false).expect_err("never issued");
    assert_eq!(err, "unknown permission request id: perm-7");
    assert_eq!(respond_permission(&mut c, "perm-2", false), Ok(false));
}
