use sms_forwarder::protocol::{
    delete_command, format_at_command, list_command, textmode_command, CollectMode, CommandStatus,
    ResponseCollector, SendAction, SendEvent, SendSession,
};

#[test]
fn command_line_appends_terminator_exactly_once() {
    assert_eq!(format_at_command("+CMGF=1"), b"AT+CMGF=1\r\n");
    assert_eq!(format_at_command(""), b"AT\r\n");
}

#[test]
fn fixed_commands_are_framed() {
    assert_eq!(textmode_command(), b"AT+CMGF=1\r\n");
    assert_eq!(list_command(), b"AT+CMGL=\"ALL\"\r\n");
    assert_eq!(delete_command(7), b"AT+CMGD=7\r\n");
    assert_eq!(delete_command(0), b"AT+CMGD=0\r\n");
    assert_eq!(delete_command(4294967295), b"AT+CMGD=4294967295\r\n");
}

#[test]
fn collector_stops_at_ok() {
    let mut c = ResponseCollector::new(CollectMode::Command);
    assert!(!c.push_chunk(b"+CMGL: 1,\"REC\""));
    assert!(!c.push_chunk(b"\r\nbody\r\n"));
    assert!(c.push_chunk(b"OK\r\n"));
    let (status, bytes) = c.finish();
    assert!(status == CommandStatus::Completed);
    assert_eq!(&bytes, b"+CMGL: 1,\"REC\"\r\nbody\r\nOK\r\n");
}

#[test]
fn collector_stops_at_error() {
    let mut c = ResponseCollector::new(CollectMode::Command);
    assert!(!c.push_chunk(b"some noise"));
    assert!(c.push_chunk(b" ERROR"));
}

#[test]
fn collector_marker_split_across_chunks() {
    let mut c = ResponseCollector::new(CollectMode::Command);
    assert!(!c.push_chunk(b"O"));
    assert!(c.push_chunk(b"K"));
}

#[test]
fn collector_without_marker_is_partial_on_timeout() {
    let mut c = ResponseCollector::new(CollectMode::Command);
    assert!(!c.push_chunk(b"half a resp"));
    let (status, bytes) = c.finish();
    assert!(status == CommandStatus::PartialOnTimeout);
    assert_eq!(&bytes, b"half a resp");
}

#[test]
fn send_confirm_accepts_cmgs_marker() {
    let mut c = ResponseCollector::new(CollectMode::SendConfirm);
    assert!(!c.push_chunk(b"\r\n> "));
    assert!(c.push_chunk(b"+CMGS: 12\r\n"));

    let mut plain = ResponseCollector::new(CollectMode::Command);
    assert!(!plain.push_chunk(b"+CMGS: 12\r\n"));
}

#[test]
fn send_session_happy_path() {
    let mut s = SendSession::new("+123".to_string(), "hello".to_string(), 300, 10_000);
    match s.next_action() {
        SendAction::WriteAndCollect { line } => assert_eq!(line, b"AT+CMGF=1\r\n"),
        _ => panic!("expected text-mode command"),
    }
    s.advance(SendEvent::Response(b"OK\r\n".to_vec()));
    match s.next_action() {
        SendAction::WriteAndSettle { line, settle_ms } => {
            assert_eq!(line, b"AT+CMGS=\"+123\"\r\n");
            assert_eq!(settle_ms, 300);
        },
        _ => panic!("expected address entry"),
    }
    s.advance(SendEvent::Written);
    match s.next_action() {
        SendAction::WriteRaw { bytes } => assert_eq!(bytes, b"hello\x1a"),
        _ => panic!("expected body write"),
    }
    s.advance(SendEvent::Written);
    match s.next_action() {
        SendAction::Collect { timeout_ms } => assert_eq!(timeout_ms, 10_000),
        _ => panic!("expected confirmation collect"),
    }
    s.advance(SendEvent::Response(b"+CMGS: 4\r\nOK\r\n".to_vec()));
    match s.next_action() {
        SendAction::Finished { ok } => assert!(ok),
        _ => panic!("expected finish"),
    }
}

#[test]
fn send_session_error_response_fails() {
    let mut s = SendSession::new("+1".to_string(), "x".to_string(), 300, 10_000);
    s.advance(SendEvent::Response(b"OK".to_vec()));
    s.advance(SendEvent::Written);
    s.advance(SendEvent::Written);
    s.advance(SendEvent::Response(b"ERROR\r\n".to_vec()));
    match s.next_action() {
        SendAction::Finished { ok } => assert!(!ok),
        _ => panic!("expected finish"),
    }
}

#[test]
fn send_session_timeout_fails() {
    let mut s = SendSession::new("+1".to_string(), "x".to_string(), 300, 10_000);
    s.advance(SendEvent::TimedOut);
    match s.next_action() {
        SendAction::Finished { ok } => assert!(!ok),
        _ => panic!("expected finish"),
    }
}

#[test]
fn send_session_transport_failure_fails() {
    let mut s = SendSession::new("+1".to_string(), "x".to_string(), 300, 10_000);
    s.advance(SendEvent::Response(b"OK".to_vec()));
    s.advance(SendEvent::TransportFailed);
    match s.next_action() {
        SendAction::Finished { ok } => assert!(!ok),
        _ => panic!("expected finish"),
    }
}

#[test]
fn send_body_ends_with_single_control_byte() {
    let s = SendSession::new("+1".to_string(), "msg".to_string(), 1, 1);
    let mut s = s;
    s.advance(SendEvent::Response(b"OK".to_vec()));
    s.advance(SendEvent::Written);
    match s.next_action() {
        SendAction::WriteRaw { bytes } => {
            assert_eq!(bytes.iter().filter(|&&b| b == 0x1a).count(), 1);
            assert_eq!(*bytes.last().unwrap(), 0x1a);
        },
        _ => panic!("expected body write"),
    }
}
