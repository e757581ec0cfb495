//! Scenario tests of the gateway session state machine: handshake,
//! heartbeat cadence and liveness, sequence bookkeeping, resume cycles and
//! the reconnect budget.

use rustycord::codec::decode;
use rustycord::codec::encode;
use rustycord::error::ClassifiedError;
use rustycord::models::gateway::GatewayMessage;
use rustycord::models::gateway::GatewayOpcode;
use rustycord::models::gateway::HelloPayload;
use rustycord::models::gateway::Payload;
use rustycord::models::token::Token;
use rustycord::session::GatewayAction;
use rustycord::session::Session;
use rustycord::session::SessionState;

fn hello(interval: u64) -> GatewayMessage {
    GatewayMessage {
        op: GatewayOpcode::Hello,
        d: Some(Payload::Hello(HelloPayload { heartbeat_interval: interval })),
        s: None,
        t: None,
    }
}

fn dispatch(name: &str, s: u64, payload: &str) -> GatewayMessage {
    GatewayMessage {
        op: GatewayOpcode::Dispatch,
        d: Some(Payload::Object(String::from(payload))),
        s: Some(s),
        t: Some(String::from(name)),
    }
}

fn op_only(op: GatewayOpcode) -> GatewayMessage {
    GatewayMessage { op, d: None, s: None, t: None }
}

/// Runs the handshake up to the steady state: connect, transport open,
/// `Hello`, then the ready dispatch.
fn steady_session(interval: u64, now: u64, jitter: u64) -> Session {
    let mut session = Session::new();
    assert!(matches!(session.state, SessionState::Idle));
    let a = session.connect(String::from("wss://gateway.example"));
    assert!(matches!(a, GatewayAction::Open { delay_ms: 0, .. }));
    assert!(matches!(session.state, SessionState::Connecting));
    session.on_transport_opened(now);
    assert!(matches!(session.state, SessionState::AwaitingHello));
    let a = session.on_frame(&hello(interval), now, jitter);
    assert!(matches!(a, GatewayAction::SendIdentify));
    assert!(matches!(session.state, SessionState::Identifying));
    assert_eq!(session.heartbeat_interval_ms, Some(interval));
    let ready = dispatch(
        "READY",
        1,
        "{\"v\":9,\"session_id\":\"abc123\",\"resume_gateway_url\":\"wss://resume.example\"}",
    );
    let a = session.on_frame(&ready, now, jitter);
    assert!(matches!(a, GatewayAction::Emit { .. }));
    session
}

#[test]
fn handshake_reaches_steady_state_with_first_heartbeat_in_window() {
    let session = steady_session(41250, 1000, 500);
    assert!(matches!(session.state, SessionState::Heartbeating));
    assert_eq!(session.sequence, Some(1));
    assert_eq!(session.session_id.as_deref(), Some("abc123"));
    assert_eq!(session.resume_url.as_deref(), Some("wss://resume.example"));
    // the first heartbeat is scheduled within [now, now + interval]
    let next = session.next_heartbeat_at.unwrap();
    assert!(next >= 1000 && next <= 1000 + 41250);
}

#[test]
fn zero_jitter_schedules_first_heartbeat_immediately() {
    let session = steady_session(41250, 1000, 0);
    assert_eq!(session.next_heartbeat_at, Some(1000));
}

#[test]
fn unexpected_frame_during_handshake_closes_the_session() {
    let mut session = Session::new();
    session.connect(String::from("wss://gateway.example"));
    session.on_transport_opened(0);
    let a = session.on_frame(&op_only(GatewayOpcode::HeartbeatAck), 0, 0);
    assert!(matches!(a, GatewayAction::Close));
    assert!(matches!(session.state, SessionState::Closed));
    assert!(matches!(
        session.close_reason,
        Some(ClassifiedError::UnexpectedFrame { op: GatewayOpcode::HeartbeatAck })
    ));
}

#[test]
fn dispatch_sequence_is_monotonic() {
    let mut session = steady_session(1000, 0, 0);
    for s in [2, 5, 9] {
        let a = session.on_frame(&dispatch("MESSAGE_CREATE", s, "{}"), 10, 0);
        assert!(matches!(a, GatewayAction::Emit { .. }));
    }
    assert_eq!(session.sequence, Some(9));
    // a stale or repeated sequence changes nothing and is dropped
    let a = session.on_frame(&dispatch("MESSAGE_CREATE", 4, "{}"), 11, 0);
    assert!(matches!(a, GatewayAction::Nothing));
    assert_eq!(session.sequence, Some(9));
    let a = session.on_frame(&dispatch("MESSAGE_CREATE", 9, "{}"), 12, 0);
    assert!(matches!(a, GatewayAction::Nothing));
    assert_eq!(session.sequence, Some(9));
}

#[test]
fn heartbeat_fires_when_due_and_waits_otherwise() {
    let mut session = steady_session(1000, 0, 200);
    // before the scheduled tick nothing happens
    let a = session.on_timer(100);
    assert!(matches!(a, GatewayAction::Nothing));
    // at the tick the heartbeat goes out and the next one moves one interval on
    let a = session.on_timer(200);
    assert!(matches!(a, GatewayAction::SendHeartbeat));
    assert!(session.ack_pending);
    assert_eq!(session.last_heartbeat_at, Some(200));
    assert_eq!(session.next_heartbeat_at, Some(1200));
}

#[test]
fn missed_acknowledgement_times_out_at_the_boundary() {
    let mut session = steady_session(1000, 0, 0);
    let a = session.on_timer(0);
    assert!(matches!(a, GatewayAction::SendHeartbeat));
    // an acknowledged heartbeat keeps the session alive
    session.on_frame(&op_only(GatewayOpcode::HeartbeatAck), 500, 0);
    assert!(!session.ack_pending);
    let a = session.on_timer(1000);
    assert!(matches!(a, GatewayAction::SendHeartbeat));
    // no acknowledgement within one full interval: the boundary itself counts
    let a = session.on_timer(1000 + 999);
    assert!(matches!(a, GatewayAction::Nothing));
    let a = session.on_timer(1000 + 1000);
    assert!(matches!(a, GatewayAction::Close));
    assert!(matches!(session.state, SessionState::Closed));
    assert!(matches!(session.close_reason, Some(ClassifiedError::HeartbeatTimeout)));
}

#[test]
fn server_heartbeat_request_is_answered_at_once() {
    let mut session = steady_session(1000, 0, 500);
    let a = session.on_frame(&op_only(GatewayOpcode::Heartbeat), 50, 0);
    assert!(matches!(a, GatewayAction::SendHeartbeat));
    assert_eq!(session.last_heartbeat_at, Some(50));
}

#[test]
fn reconnect_frame_enters_resume_with_the_resume_url() {
    let mut session = steady_session(1000, 0, 0);
    let a = session.on_frame(&op_only(GatewayOpcode::Reconnect), 10, 0);
    match a {
        GatewayAction::Open { url, delay_ms } => {
            assert_eq!(url, "wss://resume.example");
            assert_eq!(delay_ms, 0);
        },
        other => panic!("expected reopen, got {:?}", other),
    }
    assert!(matches!(session.state, SessionState::Resuming));
    // identity is kept for the resume
    assert_eq!(session.sequence, Some(1));
    assert_eq!(session.session_id.as_deref(), Some("abc123"));
}

#[test]
fn successful_resume_preserves_sequence_and_session_id() {
    let mut session = steady_session(1000, 0, 0);
    session.on_frame(&op_only(GatewayOpcode::Reconnect), 10, 0);
    session.on_transport_opened(20);
    let a = session.on_frame(&hello(1000), 30, 0);
    assert!(matches!(a, GatewayAction::SendResume));
    let resumed = GatewayMessage {
        op: GatewayOpcode::Dispatch,
        d: None,
        s: None,
        t: Some(String::from("RESUMED")),
    };
    let a = session.on_frame(&resumed, 40, 0);
    assert!(matches!(a, GatewayAction::Emit { .. }));
    assert!(matches!(session.state, SessionState::Heartbeating));
    assert_eq!(session.sequence, Some(1));
    assert_eq!(session.session_id.as_deref(), Some("abc123"));
}

#[test]
fn failed_resume_clears_identity_before_identifying() {
    let mut session = steady_session(1000, 0, 0);
    session.on_frame(&op_only(GatewayOpcode::Reconnect), 10, 0);
    session.on_transport_opened(20);
    session.on_frame(&hello(1000), 30, 0);
    let invalid = GatewayMessage {
        op: GatewayOpcode::InvalidSession,
        d: Some(Payload::Flag(false)),
        s: None,
        t: None,
    };
    let a = session.on_frame(&invalid, 40, 0);
    assert!(matches!(a, GatewayAction::SendIdentify));
    assert!(matches!(session.state, SessionState::Identifying));
    assert_eq!(session.sequence, None);
    assert_eq!(session.session_id, None);
}

#[test]
fn resumable_invalid_session_retries_the_resume() {
    let mut session = steady_session(1000, 0, 0);
    let invalid = GatewayMessage {
        op: GatewayOpcode::InvalidSession,
        d: Some(Payload::Flag(true)),
        s: None,
        t: None,
    };
    let a = session.on_frame(&invalid, 40, 0);
    assert!(matches!(a, GatewayAction::Open { .. }));
    assert!(matches!(session.state, SessionState::Resuming));
    assert_eq!(session.session_id.as_deref(), Some("abc123"));
}

#[test]
fn transport_failure_during_resume_backs_off_and_clears() {
    let mut session = steady_session(1000, 0, 0);
    session.on_frame(&op_only(GatewayOpcode::Reconnect), 10, 0);
    let a = session.on_transport_failed();
    match a {
        GatewayAction::Open { url, delay_ms } => {
            assert_eq!(url, "wss://gateway.example");
            assert_eq!(delay_ms, 1000);
        },
        other => panic!("expected backed-off reopen, got {:?}", other),
    }
    assert!(matches!(session.state, SessionState::Connecting));
    assert_eq!(session.sequence, None);
    assert_eq!(session.session_id, None);
    assert_eq!(session.reconnect_attempts, 1);
    assert_eq!(session.backoff_ms, 1000);
}

#[test]
fn backoff_doubles_and_is_capped() {
    let mut session = Session::new();
    session.connect(String::from("wss://gateway.example"));
    session.on_transport_opened(0);
    session.on_frame(&hello(1000), 0, 0);
    // drive repeated resume failures through the state machine
    let mut last: u64 = 0;
    for _ in 0..5 {
        session.on_frame(&op_only(GatewayOpcode::Reconnect), 0, 0);
        let a = session.on_transport_failed();
        match a {
            GatewayAction::Open { delay_ms, .. } => {
                assert!(delay_ms >= last);
                assert!(delay_ms <= 60000);
                last = delay_ms;
                session.on_transport_opened(0);
                session.on_frame(&hello(1000), 0, 0);
            },
            other => panic!("expected reopen, got {:?}", other),
        }
    }
    assert_eq!(session.reconnect_attempts, 5);
    // the budget is exhausted on the next failure
    session.on_frame(&op_only(GatewayOpcode::Reconnect), 0, 0);
    let a = session.on_transport_failed();
    assert!(matches!(a, GatewayAction::Close));
    assert!(matches!(session.state, SessionState::Closed));
}

#[test]
fn sustained_healthy_period_resets_the_budget() {
    let mut session = steady_session(1000, 0, 0);
    session.on_frame(&op_only(GatewayOpcode::Reconnect), 10, 0);
    session.on_transport_failed();
    assert_eq!(session.reconnect_attempts, 1);
    session.on_transport_opened(20);
    session.on_frame(&hello(1000), 30, 0);
    // identity was cleared by the failure, so the fresh identify completes
    // with a ready dispatch; what matters here is the healthy-period reset
    let ready = dispatch("READY", 1, "{\"session_id\":\"z9\"}");
    session.on_frame(&ready, 40, 0);
    assert!(matches!(session.state, SessionState::Heartbeating));
    session.on_frame(&op_only(GatewayOpcode::HeartbeatAck), 100, 0);
    session.on_timer(40 + 1000);
    assert_eq!(session.reconnect_attempts, 0);
    assert_eq!(session.backoff_ms, 0);
}

#[test]
fn shutdown_closes_and_cancels_in_one_action() {
    let mut session = steady_session(1000, 0, 0);
    let a = session.shutdown();
    assert!(matches!(a, GatewayAction::Close));
    assert!(matches!(session.state, SessionState::Closed));
    assert_eq!(session.next_heartbeat_at, None);
}

#[test]
fn handshake_timeout_is_bounded() {
    let mut session = Session::new();
    session.connect(String::from("wss://gateway.example"));
    session.on_transport_opened(0);
    let a = session.on_timer(59_999);
    assert!(matches!(a, GatewayAction::Nothing));
    let a = session.on_timer(60_000);
    assert!(matches!(a, GatewayAction::Close));
    assert!(matches!(session.state, SessionState::Closed));
}

#[test]
fn built_heartbeat_frame_round_trips_with_sequence() {
    let session = steady_session(1000, 0, 0);
    let frame = session.build_heartbeat();
    let text = encode(&frame).unwrap();
    assert_eq!(text, "{\"op\":1,\"d\":1}");
    let back = decode(&text).unwrap();
    assert!(matches!(back.op, GatewayOpcode::Heartbeat));
    assert!(matches!(back.d, Some(Payload::Number(1))));
}

#[test]
fn built_identify_frame_carries_escaped_token() {
    let session = steady_session(1000, 0, 0);
    let token = Token(String::from("se\\cr\"et"));
    let frame = session.build_identify(&token, 513);
    let text = encode(&frame).unwrap();
    assert_eq!(
        text,
        "{\"op\":2,\"d\":{\"token\":\"se\\\\cr\\\"et\",\"intents\":513,\"properties\":{\"os\":\"linux\",\"browser\":\"rustycord\",\"device\":\"rustycord\"}}}"
    );
    // the frame survives the codec unchanged
    let back = decode(&text).unwrap();
    assert!(matches!(back.op, GatewayOpcode::Identify));
}

#[test]
fn built_resume_frame_names_session_and_sequence() {
    let session = steady_session(1000, 0, 0);
    let token = Token(String::from("tok"));
    let frame = session.build_resume(&token).unwrap();
    let text = encode(&frame).unwrap();
    assert_eq!(
        text,
        "{\"op\":5,\"d\":{\"token\":\"tok\",\"session_id\":\"abc123\",\"seq\":1}}"
    );
}

#[test]
fn resume_without_identity_is_refused() {
    let session = Session::new();
    let token = Token(String::from("tok"));
    assert!(session.build_resume(&token).is_none());
}

#[test]
fn initial_connect_failure_is_terminal() {
    let mut session = Session::new();
    session.connect(String::from("wss://gateway.example"));
    let a = session.on_transport_failed();
    assert!(matches!(a, GatewayAction::Close));
    assert!(matches!(session.state, SessionState::Closed));
    match session.close_reason {
        Some(ClassifiedError::GatewayConnectFailure { ref url }) => {
            assert_eq!(url, "wss://gateway.example");
        }
        ref other => panic!("expected connect failure, got {:?}", other),
    }
}

#[test]
fn liveness_failures_are_resumable_and_credentials_are_fatal() {
    assert!(ClassifiedError::HeartbeatTimeout.is_resumable());
    assert!(ClassifiedError::TransportReceive.is_resumable());
    assert!(!ClassifiedError::InvalidToken.is_resumable());
    assert!(!ClassifiedError::MalformedFrame.is_resumable());
    assert!(ClassifiedError::InvalidToken.is_login_fatal());
    assert!(!ClassifiedError::HeartbeatTimeout.is_login_fatal());
}
