use boss_engine::terminal::{map_exit_status, ExitStatusInfo, OutputBuffer, TerminalTable};

#[test]
fn buffer_keeps_short_output_untruncated() {
    let mut b = OutputBuffer::new(64);
    b.push_chunk("hi");
    b.push_chunk(" there");
    let (text, truncated) = b.snapshot();
    assert_eq!(text, "hi there");
    assert!(!truncated);
}

#[test]
fn buffer_drops_oldest_bytes_and_latches_flag() {
    let mut b = OutputBuffer::new(8);
    b.push_chunk("ABCDEFGHIJ");
    let (text, truncated) = b.snapshot();
    assert_eq!(text, "CDEFGHIJ");
    assert!(truncated);
    b.push_chunk("K");
    let (text, truncated) = b.snapshot();
    assert_eq!(text, "DEFGHIJK");
    assert!(truncated);
}

#[test]
fn buffer_flag_stays_latched_after_later_short_output() {
    let mut b = OutputBuffer::new(4);
    b.push_chunk("12345");
    let (_, truncated) = b.snapshot();
    assert!(truncated);
    let mut c = OutputBuffer::new(4);
    c.push_chunk("1234");
    let (text, truncated) = c.snapshot();
    assert_eq!(text, "1234");
    assert!(!truncated);
}

#[test]
fn buffer_truncates_at_code_point_boundary() {
    // "a\u{e9}\u{e9}" is 5 bytes; a cap of 4 forces one byte out, and the
    // cut advances past the split code point, leaving 4 valid bytes.
    let mut b = OutputBuffer::new(4);
    b.push_chunk("a\u{e9}\u{e9}");
    let (text, truncated) = b.snapshot();
    assert_eq!(text, "\u{e9}\u{e9}");
    assert!(truncated);
}

#[test]
fn exit_status_mapping() {
    let plain = map_exit_status(Some(3), None);
    assert_eq!(plain.exit_code, Some(3));
    assert!(plain.signal.is_none());
    let killed = map_exit_status(None, Some(9));
    assert_eq!(killed.exit_code, None);
    assert_eq!(killed.signal.as_deref(), Some("SIGKILL"));
    let terminated = map_exit_status(None, Some(15));
    assert_eq!(terminated.signal.as_deref(), Some("SIGTERM"));
    let unnamed = map_exit_status(None, Some(99));
    assert_eq!(unnamed.signal.as_deref(), Some("99"));
}

#[test]
fn terminal_ids_are_minted_in_order() {
    let mut t = TerminalTable::new();
    let a = t.create(None);
    let b = t.create(Some(8));
    assert_eq!(a, "terminal-1");
    assert_eq!(b, "terminal-2");
}

#[test]
fn terminal_lifecycle_output_exit_release() {
    let mut t = TerminalTable::new();
    let id = t.create(Some(64));
    assert!(t.push_output(&id, "hi"));
    let captured = map_exit_status(Some(3), None);
    assert!(t.record_exit(&id, captured));
    let (text, truncated, exit) = t.output_snapshot(&id).expect("terminal exists");
    assert_eq!(text, "hi");
    assert!(!truncated);
    let exit = exit.expect("exit is cached");
    assert_eq!(exit.exit_code, Some(3));
    assert_eq!(exit.signal, None);
    assert!(t.release(&id));
    let err = t.output_snapshot(&id).expect_err("terminal is gone");
    assert_eq!(err, "terminal not found: terminal-1");
}

#[test]
fn terminal_exit_capture_is_idempotent() {
    let mut t = TerminalTable::new();
    let id = t.create(None);
    assert!(t.record_exit(&id, map_exit_status(Some(0), None)));
    assert!(t.record_exit(&id, map_exit_status(Some(7), Some(9))));
    let exit = t.cached_exit(&id).expect("terminal exists").expect("cached");
    assert_eq!(exit.exit_code, Some(0));
    assert_eq!(exit.signal, None);
}

#[test]
fn terminal_truncation_through_table() {
    let mut t = TerminalTable::new();
    let id = t.create(Some(8));
    assert!(t.push_output(&id, "ABCDE"));
    assert!(t.push_output(&id, "FGHIJ"));
    let (text, truncated, _) = t.output_snapshot(&id).expect("terminal exists");
    assert_eq!(text, "CDEFGHIJ");
    assert!(truncated);
}

#[test]
fn unknown_terminal_operations_fail() {
    let mut t = TerminalTable::new();
    assert!(!t.has_terminal("terminal-1"));
    assert!(!t.push_output("terminal-1", "x"));
    assert!(!t.record_exit("terminal-1", ExitStatusInfo { exit_code: None, signal: None }));
    assert!(!t.release("terminal-1"));
    let err = t.cached_exit("terminal-9").expect_err("unknown id");
    assert_eq!(err, "terminal not found: terminal-9");
}
