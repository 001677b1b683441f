use boss_engine::events::AcpEvent;
use boss_engine::jsonval::{
    classify_message, create_request_from, noninteractive_permission_choice,
    notification_to_event, permission_options_from, permission_title_of, read_request_from,
    session_id_of, terminal_id_from, write_request_from,
};
use boss_engine::permission::select_resolved_option;
use boss_engine::protocol::IncomingKind;
use serde_json::Value;

fn parse(text: &str) -> Value {
    serde_json::from_str(text).expect("test payload parses")
}

#[test]
fn classification_by_method_and_id() {
    assert_eq!(
        classify_message(&parse(r#"{"id":1,"result":{}}"#)),
        IncomingKind::Response
    );
    assert_eq!(
        classify_message(&parse(r#"{"method":"session/update","params":{}}"#)),
        IncomingKind::Notification
    );
    assert_eq!(
        classify_message(&parse(r#"{"id":5,"method":"fs/read_text_file"}"#)),
        IncomingKind::ReverseRequest
    );
    assert_eq!(classify_message(&parse(r#"{"jsonrpc":"2.0"}"#)), IncomingKind::Ignored);
    // a non-string method does not make a request
    assert_eq!(classify_message(&parse(r#"{"method":3}"#)), IncomingKind::Ignored);
}

#[test]
fn notification_yields_chunk_event() {
    let message = parse(
        r#"{"method":"session/update","params":{"sessionId":"s1",
            "update":{"sessionUpdate":"agent_message_chunk","content":{"text":"Hel"}}}}"#,
    );
    match notification_to_event(&message) {
        Some(AcpEvent::AgentMessageChunk { session_id, text }) => {
            assert_eq!(session_id, "s1");
            assert_eq!(text, "Hel");
        }
        other => panic!("unexpected event: {:?}", other.is_some()),
    }
}

#[test]
fn notification_without_session_or_type_is_dropped() {
    assert!(notification_to_event(&parse(r#"{"method":"session/update","params":{}}"#)).is_none());
    assert!(notification_to_event(&parse(
        r#"{"method":"session/update","params":{"sessionId":"s1","update":{"sessionUpdate":"diff"}}}"#
    ))
    .is_none());
    assert!(notification_to_event(&parse(r#"{"method":"other","params":{}}"#)).is_none());
}

#[test]
fn notification_yields_tool_call_event() {
    let message = parse(
        r#"{"method":"session/update","params":{"sessionId":"s1",
            "update":{"sessionUpdate":"tool_call","toolCallId":"t1","status":"running"}}}"#,
    );
    match notification_to_event(&message) {
        Some(AcpEvent::ToolCall { session_id, tool_call_id, title, status }) => {
            assert_eq!(session_id, "s1");
            assert_eq!(tool_call_id.as_deref(), Some("t1"));
            assert_eq!(title, "tool call");
            assert_eq!(status.as_deref(), Some("running"));
        }
        _ => panic!("expected a tool call event"),
    }
}

#[test]
fn permission_payload_reading() {
    let params = parse(
        r#"{"sessionId":"s1","toolCall":{"title":"Run tests"},
            "options":[{"optionId":"a","kind":"allow_once"},{"optionId":"r","kind":"reject_once"}]}"#,
    );
    assert_eq!(session_id_of(&params), "s1");
    assert_eq!(permission_title_of(&params), "Run tests");
    let options = permission_options_from(&params).expect("options present");
    assert_eq!(options.len(), 2);
    assert_eq!(select_resolved_option(&options, true).as_deref(), Some("a"));
    assert_eq!(select_resolved_option(&options, false).as_deref(), Some("r"));
}

#[test]
fn permission_defaults_for_missing_fields() {
    let params = parse(r#"{}"#);
    assert_eq!(session_id_of(&params), "");
    assert_eq!(permission_title_of(&params), "Tool permission");
    assert!(permission_options_from(&params).is_none());
    assert_eq!(noninteractive_permission_choice(&params), None);
}

#[test]
fn noninteractive_choice_falls_back_to_first_option() {
    let params = parse(r#"{"options":[{"optionId":"x","kind":"reject_once"}]}"#);
    assert_eq!(noninteractive_permission_choice(&params).as_deref(), Some("x"));
}

#[test]
fn read_and_write_request_payloads() {
    let read = parse(r#"{"path":"/tmp/f","line":2,"limit":3}"#);
    assert_eq!(
        read_request_from(&read),
        Some(("/tmp/f".to_owned(), Some(2), Some(3)))
    );
    let plain = parse(r#"{"path":"/tmp/f"}"#);
    assert_eq!(read_request_from(&plain), Some(("/tmp/f".to_owned(), None, None)));
    assert!(read_request_from(&parse(r#"{"line":2}"#)).is_none());
    assert!(read_request_from(&parse(r#"{"path":"/f","line":"x"}"#)).is_none());
    let write = parse(r#"{"path":"/tmp/f","content":"body"}"#);
    assert_eq!(
        write_request_from(&write),
        Some(("/tmp/f".to_owned(), "body".to_owned()))
    );
    assert!(write_request_from(&parse(r#"{"path":"/tmp/f"}"#)).is_none());
}

#[test]
fn terminal_request_payloads() {
    let create = parse(
        r#"{"command":"/bin/sh","args":["-c","printf hi"],"cwd":"/tmp",
            "env":[{"name":"K","value":"V"}],"outputByteLimit":8}"#,
    );
    let params = create_request_from(&create).expect("valid create request");
    assert_eq!(params.command, "/bin/sh");
    assert_eq!(params.args, Some(vec!["-c".to_owned(), "printf hi".to_owned()]));
    assert_eq!(params.cwd.as_deref(), Some("/tmp"));
    assert_eq!(params.env, Some(vec![("K".to_owned(), "V".to_owned())]));
    assert_eq!(params.output_byte_limit, Some(8));

    let bare = create_request_from(&parse(r#"{"command":"ls"}"#)).expect("bare create");
    assert_eq!(bare.command, "ls");
    assert!(bare.args.is_none());
    assert!(bare.cwd.is_none());
    assert!(bare.env.is_none());
    assert!(bare.output_byte_limit.is_none());

    assert!(create_request_from(&parse(r#"{"args":["x"]}"#)).is_none());
    assert!(create_request_from(&parse(r#"{"command":"ls","args":[3]}"#)).is_none());

    assert_eq!(
        terminal_id_from(&parse(r#"{"terminalId":"terminal-1"}"#)),
        Some("terminal-1".to_owned())
    );
    assert_eq!(terminal_id_from(&parse(r#"{}"#)), None);
}
