use sca::framing::{
    classify_header_line, frame_message, FrameError, FrameHeader, FrameStep, HeaderLine,
};
use sca::protocol::{
    id_from, message_kind, notification_action, reply_for, AttemptOutcome, ClientState, IdError,
    Incoming, LifecycleEvent, MessageKind, NotificationAction, ProtocolSession, RawId,
    ReferenceRetry, RetryStep, ServerReply, WaitStep, RETRY_BACKOFF_MS,
};

#[test]
fn frames_body_with_content_length() {
    assert_eq!(frame_message(b"{}"), b"Content-Length: 2\r\n\r\n{}".to_vec());
    assert_eq!(frame_message(b""), b"Content-Length: 0\r\n\r\n".to_vec());
    let body = vec![b'x'; 1234];
    let framed = frame_message(&body);
    assert!(framed.starts_with(b"Content-Length: 1234\r\n\r\n"));
    assert_eq!(framed.len(), 24 + 1234);
}

#[test]
fn classifies_header_lines() {
    assert_eq!(classify_header_line("Content-Length: 42\r\n"), HeaderLine::ContentLength(42));
    assert_eq!(classify_header_line("Content-Length:7"), HeaderLine::ContentLength(7));
    assert_eq!(classify_header_line("Content-Length: +7 \r\n"), HeaderLine::ContentLength(7));
    assert_eq!(classify_header_line("Content-Length: x\r\n"), HeaderLine::BadLength);
    assert_eq!(classify_header_line("Content-Length: \r\n"), HeaderLine::BadLength);
    assert_eq!(classify_header_line("\r\n"), HeaderLine::End);
    assert_eq!(classify_header_line(""), HeaderLine::End);
    assert_eq!(
        classify_header_line("Content-Type: application/vscode-jsonrpc\r\n"),
        HeaderLine::Other
    );
}

#[test]
fn reads_header_until_blank_line() {
    let mut h = FrameHeader::new();
    assert_eq!(h.on_line("Content-Type: x\r\n"), FrameStep::ReadLine);
    assert_eq!(h.on_line("Content-Length: 17\r\n"), FrameStep::ReadLine);
    assert_eq!(h.on_line("\r\n"), FrameStep::ReadBody(17));
    let mut missing = FrameHeader::new();
    assert_eq!(missing.on_line("\r\n"), FrameStep::Failed(FrameError::MissingContentLength));
    let mut bad = FrameHeader::new();
    assert_eq!(
        bad.on_line("Content-Length: -1\r\n"),
        FrameStep::Failed(FrameError::InvalidContentLength)
    );
}

#[test]
fn reads_message_ids() {
    assert_eq!(id_from(&RawId::Number(Some(7))), Ok(7));
    assert_eq!(id_from(&RawId::Text("17".to_string())), Ok(17));
    assert_eq!(id_from(&RawId::Text("+5".to_string())), Ok(5));
    assert_eq!(id_from(&RawId::Text("18446744073709551615".to_string())), Ok(u64::MAX));
    assert_eq!(
        id_from(&RawId::Text("18446744073709551616".to_string())),
        Err(IdError::NotNumeric)
    );
    assert_eq!(id_from(&RawId::Text("abc".to_string())), Err(IdError::NotNumeric));
    assert_eq!(id_from(&RawId::Number(None)), Err(IdError::InvalidNumber));
    assert_eq!(id_from(&RawId::Null), Err(IdError::Null));
    assert_eq!(id_from(&RawId::Other), Err(IdError::Unsupported));
}

#[test]
fn classifies_messages_and_notifications() {
    assert_eq!(message_kind(true, true), MessageKind::Request);
    assert_eq!(message_kind(true, false), MessageKind::Notification);
    assert_eq!(message_kind(false, true), MessageKind::Response);
    assert_eq!(
        notification_action(&"window/logMessage".to_string()),
        NotificationAction::LogPayload
    );
    assert_eq!(notification_action(&"$/progress".to_string()), NotificationAction::Ignore);
    assert_eq!(
        notification_action(&"custom/thing".to_string()),
        NotificationAction::LogUnhandled
    );
}

#[test]
fn answers_server_requests() {
    assert_eq!(reply_for(&"workspace/configuration".to_string(), 3), ServerReply::NullPerItem(3));
    assert_eq!(
        reply_for(&"workspace/workspaceFolders".to_string(), 0),
        ServerReply::WorkspaceFolders
    );
    assert_eq!(reply_for(&"window/workDoneProgress/create".to_string(), 0), ServerReply::Null);
    assert_eq!(reply_for(&"client/registerCapability".to_string(), 0), ServerReply::Unhandled);
}

#[test]
fn request_ids_are_fresh_and_increasing() {
    let mut s = ProtocolSession::new();
    assert_eq!(s.begin_request("initialize"), Some(1));
    assert_eq!(s.begin_request("shutdown"), Some(2));
    assert_eq!(s.pending_count(), 2);
}

#[test]
fn configuration_request_answered_while_waiting() {
    let mut s = ProtocolSession::new();
    let id = s.begin_request("textDocument/references").unwrap();
    let step = s.on_message(
        id,
        &Incoming::Request { method: "workspace/configuration".to_string(), item_count: 2 },
    );
    assert_eq!(step, WaitStep::Reply(ServerReply::NullPerItem(2)));
    assert_eq!(s.pending_count(), 1);
    let step = s.on_message(id, &Incoming::Response { id: RawId::Number(Some(id)), is_error: false });
    assert_eq!(step, WaitStep::Complete);
    assert_eq!(s.pending_count(), 0);
}

#[test]
fn stale_and_failed_responses() {
    let mut s = ProtocolSession::new();
    let old = s.begin_request("textDocument/references").unwrap();
    let id = s.begin_request("textDocument/references").unwrap();
    let step = s.on_message(id, &Incoming::Response { id: RawId::Number(Some(old)), is_error: false });
    assert_eq!(step, WaitStep::Discard(old));
    let step = s.on_message(id, &Incoming::Response { id: RawId::Null, is_error: false });
    assert_eq!(step, WaitStep::BadId(IdError::Null));
    let step = s.on_message(id, &Incoming::Notification { method: "$/progress".to_string() });
    assert_eq!(step, WaitStep::Notified(NotificationAction::Ignore));
    let step = s.on_message(id, &Incoming::Response { id: RawId::Text(id.to_string()), is_error: true });
    assert_eq!(step, WaitStep::Failed);
    assert_eq!(s.pending_count(), 1);
}

#[test]
fn lifecycle_follows_its_stages() {
    let mut s = ProtocolSession::new();
    assert_eq!(s.state(), ClientState::Uninitialized);
    assert!(!s.advance(LifecycleEvent::HandshakeDone));
    assert!(s.advance(LifecycleEvent::HandshakeStarted));
    assert!(s.advance(LifecycleEvent::HandshakeDone));
    assert_eq!(s.state(), ClientState::Ready);
    assert!(s.advance(LifecycleEvent::ShutdownRequested));
    assert!(s.advance(LifecycleEvent::ProcessExited));
    assert_eq!(s.state(), ClientState::Terminated);
    assert!(!s.advance(LifecycleEvent::HandshakeStarted));
}

#[test]
fn references_retry_after_two_timeouts() {
    let mut q = ReferenceRetry::new();
    let mut waited: u64 = 0;
    let outcomes = [AttemptOutcome::TimedOut, AttemptOutcome::TimedOut, AttemptOutcome::Answered(Some(4))];
    let mut result = None;
    for outcome in outcomes {
        match q.on_outcome(outcome) {
            RetryStep::Retry(ms) => waited += ms,
            RetryStep::Done(n) => result = Some(n),
            other => panic!("unexpected {:?}", other),
        }
    }
    assert_eq!(result, Some(4));
    assert_eq!(waited, 2 * RETRY_BACKOFF_MS);
    assert_eq!(waited, 1000);
    assert_eq!(q.attempt(), 3);
}

#[test]
fn references_give_up_after_three_failures() {
    let mut q = ReferenceRetry::new();
    assert_eq!(q.on_outcome(AttemptOutcome::Failed), RetryStep::Retry(500));
    assert_eq!(q.on_outcome(AttemptOutcome::TimedOut), RetryStep::Retry(500));
    assert_eq!(q.on_outcome(AttemptOutcome::Failed), RetryStep::GiveUp);
    let mut r = ReferenceRetry::new();
    assert_eq!(r.on_outcome(AttemptOutcome::Answered(None)), RetryStep::Done(0));
    let mut u = ReferenceRetry::new();
    assert_eq!(u.on_outcome(AttemptOutcome::Undecodable), RetryStep::Abort);
}
