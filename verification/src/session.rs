//! The gateway session state machine.
//!
//! The session owns the mutable gateway identity (sequence number, session
//! id, resume URL, heartbeat interval) and decides every transition of the
//! connection lifecycle: handshake, heartbeat cadence, liveness detection,
//! resume and reconnect. It performs no I/O itself: the surrounding driver
//! feeds it transport events, decoded frames and timer ticks, and carries
//! out the single action each step returns. Every step is specified by a
//! total transition function over [`SessionModel`].

use vstd::prelude::*;

verus! {

use crate::error::ClassifiedError;
use crate::error::ErrorModel;
use crate::json::JsonKind;
use crate::json::obj_blob_wf;
use crate::json::obj_lookup;
use crate::json::spec_obj_lookup;
use crate::codec::json_quote;
use crate::codec::lemma_blob_quote;
use crate::codec::msg_wf;
use crate::codec::spec_quote;
use crate::models::gateway::GatewayMessage;
use crate::models::gateway::GatewayOpcode;
use crate::models::gateway::HelloPayload;
use crate::models::gateway::MessageModel;
use crate::models::gateway::Payload;
use crate::models::gateway::PayloadModel;
use crate::models::token::Token;
use crate::text::render_u64;
use crate::text::spec_udigits;
use crate::text::str_eq;

/// First reconnect backoff, in milliseconds.
pub const BACKOFF_BASE_MS: u64 = 1000;

/// Cap of the reconnect backoff, in milliseconds.
pub const BACKOFF_CAP_MS: u64 = 60000;

/// Bound on consecutive resume attempts before the session closes for
/// good.
pub const MAX_RECONNECT_ATTEMPTS: u32 = 5;

/// Bound on the wait for the server's `Hello` after the transport opens.
pub const HELLO_TIMEOUT_MS: u64 = 60000;

/// The connection lifecycle states.
#[derive(Clone, Copy, Debug, PartialEq, Eq, Structural)]
pub enum SessionState {
    Idle,
    Connecting,
    AwaitingHello,
    Identifying,
    Heartbeating,
    Resuming,
    Closed,
}

/// Model of a [`Session`].
#[verifier::ext_equal]
pub struct SessionModel {
    pub state: SessionState,
    pub url: Seq<char>,
    pub sequence: Option<u64>,
    pub session_id: Option<Seq<char>>,
    pub resume_url: Option<Seq<char>>,
    pub heartbeat_interval_ms: Option<u64>,
    pub ack_pending: bool,
    pub last_heartbeat_at: Option<u64>,
    pub next_heartbeat_at: Option<u64>,
    pub hello_deadline: Option<u64>,
    pub healthy_since: Option<u64>,
    pub reconnect_attempts: u32,
    pub backoff_ms: u64,
    pub close_reason: Option<ErrorModel>,
}

/// Model of a [`GatewayAction`].
#[verifier::ext_equal]
pub enum ActionModel {
    Nothing,
    SendIdentify,
    SendResume,
    SendHeartbeat,
    Emit { event_name: Seq<char>, payload: Option<PayloadModel> },
    Open { url: Seq<char>, delay_ms: u64 },
    Close,
}

/// What the driver must do after a step: send a frame it builds through the
/// session's builders, hand a dispatch to the event sink, open (or reopen)
/// the transport after a delay, close it, or nothing. `Close` always pairs
/// closing the transport with cancelling the heartbeat timer.
#[derive(Debug)]
pub enum GatewayAction {
    Nothing,
    SendIdentify,
    SendResume,
    SendHeartbeat,
    Emit { event_name: String, payload: Option<Payload> },
    Open { url: String, delay_ms: u64 },
    Close,
}

impl View for GatewayAction {
    type V = ActionModel;

    open spec fn view(&self) -> ActionModel {
        match self {
            GatewayAction::Nothing => ActionModel::Nothing,
            GatewayAction::SendIdentify => ActionModel::SendIdentify,
            GatewayAction::SendResume => ActionModel::SendResume,
            GatewayAction::SendHeartbeat => ActionModel::SendHeartbeat,
            GatewayAction::Emit { event_name, payload } => ActionModel::Emit {
                event_name: event_name@,
                payload: match payload {
                    Some(p) => Some(p@),
                    None => None,
                },
            },
            GatewayAction::Open { url, delay_ms } => ActionModel::Open {
                url: url@,
                delay_ms: *delay_ms,
            },
            GatewayAction::Close => ActionModel::Close,
        }
    }
}

/// The gateway session: lifecycle state, gateway identity and heartbeat
/// bookkeeping. Created empty; populated by the handshake; identity fields
/// reset on a non-resumable disconnect.
#[derive(Debug)]
pub struct Session {
    pub state: SessionState,
    pub url: String,
    pub sequence: Option<u64>,
    pub session_id: Option<String>,
    pub resume_url: Option<String>,
    pub heartbeat_interval_ms: Option<u64>,
    pub ack_pending: bool,
    pub last_heartbeat_at: Option<u64>,
    pub next_heartbeat_at: Option<u64>,
    pub hello_deadline: Option<u64>,
    pub healthy_since: Option<u64>,
    pub reconnect_attempts: u32,
    pub backoff_ms: u64,
    pub close_reason: Option<ClassifiedError>,
}

impl View for Session {
    type V = SessionModel;

    open spec fn view(&self) -> SessionModel {
        SessionModel {
            state: self.state,
            url: self.url@,
            sequence: self.sequence,
            session_id: match &self.session_id {
                Some(s) => Some(s@),
                None => None,
            },
            resume_url: match &self.resume_url {
                Some(s) => Some(s@),
                None => None,
            },
            heartbeat_interval_ms: self.heartbeat_interval_ms,
            ack_pending: self.ack_pending,
            last_heartbeat_at: self.last_heartbeat_at,
            next_heartbeat_at: self.next_heartbeat_at,
            hello_deadline: self.hello_deadline,
            healthy_since: self.healthy_since,
            reconnect_attempts: self.reconnect_attempts,
            backoff_ms: self.backoff_ms,
            close_reason: match &self.close_reason {
                Some(e) => Some(e@),
                None => None,
            },
        }
    }
}

/// Addition that stops at the top of the `u64` range; timestamps never get
/// there in practice.
pub open spec fn sat_add(a: u64, b: u64) -> u64 {
    if a + b > u64::MAX {
        u64::MAX
    } else {
        (a + b) as u64
    }
}

pub open spec fn min64(a: u64, b: u64) -> u64 {
    if a < b {
        a
    } else {
        b
    }
}

/// The heartbeat interval, where the handshake has set one.
pub open spec fn interval_of(s: SessionModel) -> u64 {
    match s.heartbeat_interval_ms {
        Some(v) => v,
        None => 0,
    }
}

/// The URL a resume reopens: the resume URL when the handshake supplied
/// one, else the original connect URL.
pub open spec fn pick_url(s: SessionModel) -> Seq<char> {
    match s.resume_url {
        Some(u) => u,
        None => s.url,
    }
}

/// The next reconnect backoff: strictly from zero to the base, then
/// doubling, capped.
pub open spec fn advance_backoff(b: u64) -> u64 {
    if b == 0 {
        BACKOFF_BASE_MS
    } else if b > BACKOFF_CAP_MS / 2 {
        BACKOFF_CAP_MS
    } else {
        (2 * b) as u64
    }
}

/// The backoff never decreases between consecutive failures and never
/// exceeds its cap.
pub proof fn lemma_backoff_monotone(b: u64)
    requires
        b <= BACKOFF_CAP_MS,
    ensures
        advance_backoff(b) >= b,
        advance_backoff(b) <= BACKOFF_CAP_MS,
{
}

/// Internal well-formedness of a session: states past the handshake know
/// the heartbeat interval, the steady state has its timer scheduled, a
/// pending acknowledgement refers to a sent heartbeat, and the backoff is
/// capped.
pub open spec fn session_wf(s: SessionModel) -> bool {
    &&& ((s.state == SessionState::Identifying || s.state == SessionState::Heartbeating
        || s.state == SessionState::Resuming) ==> s.heartbeat_interval_ms is Some)
    &&& (s.state == SessionState::Heartbeating ==> (s.next_heartbeat_at is Some
        && s.healthy_since is Some))
    &&& (s.ack_pending ==> s.last_heartbeat_at is Some)
    &&& s.backoff_ms <= BACKOFF_CAP_MS
}

/// The state after an error close: terminal, timers cleared, the reason
/// recorded.
pub open spec fn closed_with(s: SessionModel, e: ErrorModel) -> SessionModel {
    SessionModel {
        state: SessionState::Closed,
        close_reason: Some(e),
        ack_pending: false,
        next_heartbeat_at: None,
        hello_deadline: None,
        ..s
    }
}

/// Entering the resume path: the timer pauses and the transport reopens at
/// once.
pub open spec fn to_resuming(s: SessionModel) -> (SessionModel, ActionModel) {
    (
        SessionModel {
            state: SessionState::Resuming,
            ack_pending: false,
            next_heartbeat_at: None,
            hello_deadline: None,
            ..s
        },
        ActionModel::Open { url: pick_url(s), delay_ms: 0 },
    )
}

/// An `InvalidSession` frame: resumable resumes; non-resumable clears the
/// identity and identifies afresh.
pub open spec fn invalid_session_step(s: SessionModel, resumable: bool) -> (
    SessionModel,
    ActionModel,
) {
    if resumable {
        to_resuming(s)
    } else {
        (
            SessionModel {
                sequence: None,
                session_id: None,
                state: SessionState::Identifying,
                ..s
            },
            ActionModel::SendIdentify,
        )
    }
}

/// Entering the steady state: the first heartbeat is scheduled within one
/// interval of `now`, offset by the caller-supplied jitter (clamped to the
/// interval), and the healthy period starts.
pub open spec fn enter_heartbeating(s: SessionModel, now: u64, jitter: u64) -> SessionModel {
    SessionModel {
        state: SessionState::Heartbeating,
        ack_pending: false,
        healthy_since: Some(now),
        last_heartbeat_at: None,
        next_heartbeat_at: Some(sat_add(now, min64(jitter, interval_of(s)))),
        hello_deadline: None,
        ..s
    }
}

/// The event name of a frame, empty when absent.
pub open spec fn tname(m: MessageModel) -> Seq<char> {
    match m.t {
        Some(t) => t,
        None => Seq::<char>::empty(),
    }
}

/// Monotonic sequence bookkeeping: a larger value advances, anything else
/// leaves the sequence alone.
pub open spec fn max_seq(cur: Option<u64>, fresh: Option<u64>) -> Option<u64> {
    match fresh {
        Some(n) => match cur {
            Some(c) => if n > c {
                Some(n)
            } else {
                Some(c)
            },
            None => Some(n),
        },
        None => cur,
    }
}

/// A dispatch in place: an advancing sequence updates the bookkeeping and
/// reaches the sink; a stale or missing sequence changes nothing and is
/// dropped.
pub open spec fn note_dispatch(s: SessionModel, m: MessageModel) -> (SessionModel, ActionModel) {
    match m.s {
        Some(n) => {
            let adv = match s.sequence {
                Some(c) => n > c,
                None => true,
            };
            if adv {
                (
                    SessionModel { sequence: Some(n), ..s },
                    ActionModel::Emit { event_name: tname(m), payload: m.d },
                )
            } else {
                (s, ActionModel::Nothing)
            }
        },
        None => (s, ActionModel::Nothing),
    }
}

/// Sending a heartbeat now: the acknowledgement becomes due and the next
/// tick moves one interval out.
pub open spec fn send_heartbeat_now(s: SessionModel, now: u64) -> (SessionModel, ActionModel) {
    (
        SessionModel {
            ack_pending: true,
            last_heartbeat_at: Some(now),
            next_heartbeat_at: Some(sat_add(now, interval_of(s))),
            ..s
        },
        ActionModel::SendHeartbeat,
    )
}

/// Whether an `InvalidSession` payload signals resumability.
pub open spec fn resumable_flag(d: Option<PayloadModel>) -> bool {
    match d {
        Some(PayloadModel::Flag { value }) => value,
        _ => false,
    }
}

/// The string field named `key` of an object payload, when present.
pub open spec fn payload_str_field(d: Option<PayloadModel>, key: Seq<char>) -> Option<Seq<char>> {
    match d {
        Some(PayloadModel::Object { text }) => match spec_obj_lookup(text, key) {
            Some((found, end)) => match found {
                Some((kind, a, b)) => if kind == JsonKind::KStr {
                    Some(text.subrange(a, b))
                } else {
                    None
                },
                None => None,
            },
            None => None,
        },
        _ => None,
    }
}

/// The transition on an inbound frame. In the states without an open
/// transport no frame can truthfully arrive, and none changes anything.
pub open spec fn step_frame(s: SessionModel, m: MessageModel, now: u64, jitter: u64) -> (
    SessionModel,
    ActionModel,
) {
    if s.state == SessionState::AwaitingHello {
        if m.op == GatewayOpcode::Hello {
            match m.d {
                Some(PayloadModel::Hello { heartbeat_interval }) => (
                    SessionModel {
                        state: SessionState::Identifying,
                        heartbeat_interval_ms: Some(heartbeat_interval),
                        hello_deadline: None,
                        ..s
                    },
                    ActionModel::SendIdentify,
                ),
                _ => (closed_with(s, ErrorModel::DeserializeFailure), ActionModel::Close),
            }
        } else {
            (closed_with(s, ErrorModel::UnexpectedFrame { op: m.op }), ActionModel::Close)
        }
    } else if s.state == SessionState::Identifying || s.state == SessionState::Heartbeating
        || s.state == SessionState::Resuming {
        match m.op {
            GatewayOpcode::Hello => if s.state == SessionState::Resuming {
                match m.d {
                    Some(PayloadModel::Hello { heartbeat_interval }) => (
                        SessionModel {
                            heartbeat_interval_ms: Some(heartbeat_interval),
                            hello_deadline: None,
                            ..s
                        },
                        ActionModel::SendResume,
                    ),
                    _ => (closed_with(s, ErrorModel::DeserializeFailure), ActionModel::Close),
                }
            } else {
                (closed_with(s, ErrorModel::UnexpectedFrame { op: m.op }), ActionModel::Close)
            },
            GatewayOpcode::HeartbeatAck => (
                SessionModel { ack_pending: false, ..s },
                ActionModel::Nothing,
            ),
            GatewayOpcode::Heartbeat => send_heartbeat_now(s, now),
            GatewayOpcode::Reconnect => to_resuming(s),
            GatewayOpcode::InvalidSession => invalid_session_step(s, resumable_flag(m.d)),
            GatewayOpcode::Dispatch => if s.state == SessionState::Identifying && tname(m)
                == "READY"@ {
                let s1 = SessionModel {
                    session_id: payload_str_field(m.d, "session_id"@),
                    resume_url: payload_str_field(m.d, "resume_gateway_url"@),
                    ..s
                };
                (
                    SessionModel {
                        sequence: max_seq(s.sequence, m.s),
                        ..enter_heartbeating(s1, now, jitter)
                    },
                    ActionModel::Emit { event_name: tname(m), payload: m.d },
                )
            } else if s.state == SessionState::Resuming && tname(m) == "RESUMED"@ {
                (
                    SessionModel {
                        sequence: max_seq(s.sequence, m.s),
                        ..enter_heartbeating(s, now, jitter)
                    },
                    ActionModel::Emit { event_name: tname(m), payload: m.d },
                )
            } else {
                note_dispatch(s, m)
            },
            _ => (closed_with(s, ErrorModel::UnexpectedFrame { op: m.op }), ActionModel::Close),
        }
    } else {
        (s, ActionModel::Nothing)
    }
}

/// The transition on a timer tick.
pub open spec fn step_timer(s: SessionModel, now: u64) -> (SessionModel, ActionModel) {
    if s.state == SessionState::AwaitingHello || s.state == SessionState::Resuming {
        match s.hello_deadline {
            Some(dl) => if now >= dl {
                (
                    closed_with(s, ErrorModel::GatewayConnectFailure { url: pick_url(s) }),
                    ActionModel::Close,
                )
            } else {
                (s, ActionModel::Nothing)
            },
            None => (s, ActionModel::Nothing),
        }
    } else if s.state == SessionState::Heartbeating {
        let iv = interval_of(s);
        if s.ack_pending && s.last_heartbeat_at is Some && sat_add(
            s.last_heartbeat_at->Some_0,
            iv,
        ) <= now {
            (closed_with(s, ErrorModel::HeartbeatTimeout), ActionModel::Close)
        } else {
            let s0 = if s.healthy_since is Some && sat_add(s.healthy_since->Some_0, iv) <= now {
                SessionModel { reconnect_attempts: 0, backoff_ms: 0, ..s }
            } else {
                s
            };
            if s0.next_heartbeat_at is Some && now >= s0.next_heartbeat_at->Some_0 {
                send_heartbeat_now(s0, now)
            } else {
                (s0, ActionModel::Nothing)
            }
        }
    } else {
        (s, ActionModel::Nothing)
    }
}

/// The transition when the transport reports open.
pub open spec fn step_transport_opened(s: SessionModel, now: u64) -> (SessionModel, ActionModel) {
    if s.state == SessionState::Connecting {
        (
            SessionModel {
                state: SessionState::AwaitingHello,
                hello_deadline: Some(sat_add(now, HELLO_TIMEOUT_MS)),
                ..s
            },
            ActionModel::Nothing,
        )
    } else if s.state == SessionState::Resuming {
        (
            SessionModel { hello_deadline: Some(sat_add(now, HELLO_TIMEOUT_MS)), ..s },
            ActionModel::Nothing,
        )
    } else {
        (s, ActionModel::Nothing)
    }
}

/// The transition when the transport fails: the first connect fails hard, a
/// mid-session failure closes (resumable by a fresh session), and a failure
/// during resume clears the identity and retries a fresh connect under the
/// bounded backoff budget.
pub open spec fn step_transport_failed(s: SessionModel) -> (SessionModel, ActionModel) {
    if s.state == SessionState::Connecting {
        (closed_with(s, ErrorModel::GatewayConnectFailure { url: s.url }), ActionModel::Close)
    } else if s.state == SessionState::Resuming {
        if s.reconnect_attempts >= MAX_RECONNECT_ATTEMPTS {
            (closed_with(s, ErrorModel::TransportReceive), ActionModel::Close)
        } else {
            let b = advance_backoff(s.backoff_ms);
            (
                SessionModel {
                    state: SessionState::Connecting,
                    sequence: None,
                    session_id: None,
                    resume_url: None,
                    ack_pending: false,
                    next_heartbeat_at: None,
                    hello_deadline: None,
                    reconnect_attempts: (s.reconnect_attempts + 1) as u32,
                    backoff_ms: b,
                    ..s
                },
                ActionModel::Open { url: s.url, delay_ms: b },
            )
        }
    } else if s.state == SessionState::AwaitingHello || s.state == SessionState::Identifying
        || s.state == SessionState::Heartbeating {
        (closed_with(s, ErrorModel::TransportReceive), ActionModel::Close)
    } else {
        (s, ActionModel::Nothing)
    }
}

/// The initial, empty session.
pub open spec fn initial_session() -> SessionModel {
    SessionModel {
        state: SessionState::Idle,
        url: Seq::<char>::empty(),
        sequence: None,
        session_id: None,
        resume_url: None,
        heartbeat_interval_ms: None,
        ack_pending: false,
        last_heartbeat_at: None,
        next_heartbeat_at: None,
        hello_deadline: None,
        healthy_since: None,
        reconnect_attempts: 0,
        backoff_ms: 0,
        close_reason: None,
    }
}

/// The heartbeat frame for the current sequence: the payload carries the
/// last observed sequence, or nothing before the first dispatch.
pub open spec fn heartbeat_frame(s: SessionModel) -> MessageModel {
    MessageModel {
        op: GatewayOpcode::Heartbeat,
        d: match s.sequence {
            Some(n) => Some(PayloadModel::Number { value: n }),
            None => None,
        },
        s: None,
        t: None,
    }
}

/// The identify payload object: credential, intents and the static
/// connection properties.
pub open spec fn spec_identify_text(token: Seq<char>, intents: u64) -> Seq<char> {
    "{\"token\":"@ + spec_quote(token) + ",\"intents\":"@ + spec_udigits(intents as int)
        + ",\"properties\":{\"os\":\"linux\",\"browser\":\"rustycord\",\"device\":\"rustycord\"}}"@
}

/// The identify frame.
pub open spec fn identify_frame(token: Seq<char>, intents: u64) -> MessageModel {
    MessageModel {
        op: GatewayOpcode::Identify,
        d: Some(PayloadModel::Object { text: spec_identify_text(token, intents) }),
        s: None,
        t: None,
    }
}

/// The resume payload object: credential, the session being resumed and
/// the last observed sequence.
pub open spec fn spec_resume_text(token: Seq<char>, sid: Seq<char>, seqn: Option<u64>) -> Seq<
    char,
> {
    "{\"token\":"@ + spec_quote(token) + ",\"session_id\":"@ + spec_quote(sid) + ",\"seq\":"@
        + (match seqn {
        Some(n) => spec_udigits(n as int),
        None => "null"@,
    }) + "}"@
}

/// The resume frame.
pub open spec fn resume_frame(token: Seq<char>, sid: Seq<char>, seqn: Option<u64>) -> MessageModel {
    MessageModel {
        op: GatewayOpcode::Resume,
        d: Some(PayloadModel::Object { text: spec_resume_text(token, sid, seqn) }),
        s: None,
        t: None,
    }
}

/// The rendered identify payload is a self-contained object blob, whatever
/// the credential holds: its escaping keeps every string delimited.
#[verifier::rlimit(100)]
proof fn lemma_identify_text_wf(token: Seq<char>, intents: u64)
    ensures
        obj_blob_wf(spec_identify_text(token, intents)),
{
    reveal_strlit("{\"token\":");
    reveal_strlit(",\"intents\":");
    reveal_strlit(
        ",\"properties\":{\"os\":\"linux\",\"browser\":\"rustycord\",\"device\":\"rustycord\"}}",
    );
    let blob = spec_identify_text(token, intents);
    let q = spec_quote(token);
    let d = spec_udigits(intents as int);
    crate::text::lemma_udigits_shape(intents as int);
    let pre = "{\"token\":"@;
    let mid = ",\"intents\":"@;
    let tail = ",\"properties\":{\"os\":\"linux\",\"browser\":\"rustycord\",\"device\":\"rustycord\"}}"@;
    assert(pre.len() == 9 && mid.len() == 11 && tail.len() == 72);
    let b = 9 + q.len() as int;
    let c0 = b + 11;
    let e0 = c0 + d.len() as int;
    assert(blob.len() == e0 + 72);
    assert forall|k: int| 0 <= k < 9 implies #[trigger] blob[k] == pre[k] by {}
    assert forall|k: int| b <= k < c0 implies #[trigger] blob[k] == mid[k - b] by {}
    assert forall|k: int| e0 <= k < e0 + 72 implies #[trigger] blob[k] == tail[k - e0] by {}
    assert forall|k: int| c0 <= k < e0 implies crate::text::is_digit_char(#[trigger] blob[k]) by {
        assert(blob[k] == d[k - c0]);
    }
    assert(blob.subrange(9, b) =~= q) by {
        assert forall|k: int| 0 <= k < q.len() implies blob.subrange(9, b)[k] == q[k] by {
            assert(blob.subrange(9, b)[k] == blob[9 + k]);
            assert(blob[9 + k] == q[k]);
        }
    }
    assert(blob[0] == '{');
    crate::json::lemma_blob_step_string(blob, 1, 7, 1);
    crate::json::lemma_blob_step_plain(blob, 8, 9, 1);
    lemma_blob_quote(blob, 9, token, 1);
    crate::json::lemma_blob_step_plain(blob, b, b + 1, 1);
    crate::json::lemma_blob_step_string(blob, b + 1, b + 9, 1);
    crate::json::lemma_blob_step_plain(blob, b + 10, b + 11, 1);
    assert forall|k: int|
        c0 <= k < e0 implies ({
        let c = #[trigger] blob[k];
        c != '"' && c != '\\' && c != '{' && c != '[' && c != '}' && c != ']'
    }) by {
        assert(crate::text::is_digit_char(blob[k]));
    }
    crate::json::lemma_blob_step_plain(blob, c0, e0, 1);
    crate::json::lemma_blob_step_plain(blob, e0, e0 + 1, 1);
    crate::json::lemma_blob_step_string(blob, e0 + 1, e0 + 12, 1);
    crate::json::lemma_blob_step_plain(blob, e0 + 13, e0 + 14, 1);
    assert(crate::json::blob_end(blob, e0 + 14, 1, false, false) == crate::json::blob_end(
        blob,
        e0 + 15,
        2,
        false,
        false,
    ));
    crate::json::lemma_blob_step_string(blob, e0 + 15, e0 + 18, 2);
    crate::json::lemma_blob_step_plain(blob, e0 + 19, e0 + 20, 2);
    crate::json::lemma_blob_step_string(blob, e0 + 20, e0 + 26, 2);
    crate::json::lemma_blob_step_plain(blob, e0 + 27, e0 + 28, 2);
    crate::json::lemma_blob_step_string(blob, e0 + 28, e0 + 36, 2);
    crate::json::lemma_blob_step_plain(blob, e0 + 37, e0 + 38, 2);
    crate::json::lemma_blob_step_string(blob, e0 + 38, e0 + 48, 2);
    crate::json::lemma_blob_step_plain(blob, e0 + 49, e0 + 50, 2);
    crate::json::lemma_blob_step_string(blob, e0 + 50, e0 + 57, 2);
    crate::json::lemma_blob_step_plain(blob, e0 + 58, e0 + 59, 2);
    crate::json::lemma_blob_step_string(blob, e0 + 59, e0 + 69, 2);
    assert(crate::json::blob_end(blob, e0 + 70, 2, false, false) == crate::json::blob_end(
        blob,
        e0 + 71,
        1,
        false,
        false,
    ));
    assert(crate::json::blob_end(blob, e0 + 71, 1, false, false) == Some(e0 + 72));
    assert(obj_blob_wf(blob));
}

/// The rendered resume payload is a self-contained object blob.
#[verifier::rlimit(100)]
proof fn lemma_resume_text_wf(token: Seq<char>, sid: Seq<char>, seqn: Option<u64>)
    ensures
        obj_blob_wf(spec_resume_text(token, sid, seqn)),
{
    reveal_strlit("{\"token\":");
    reveal_strlit(",\"session_id\":");
    reveal_strlit(",\"seq\":");
    reveal_strlit("null");
    reveal_strlit("}");
    let blob = spec_resume_text(token, sid, seqn);
    let q = spec_quote(token);
    let q2 = spec_quote(sid);
    let dtext: Seq<char> = (match seqn {
        Some(n) => spec_udigits(n as int),
        None => "null"@,
    });
    if seqn is Some {
        crate::text::lemma_udigits_shape(seqn->Some_0 as int);
    }
    let b = 9 + q.len() as int;
    let c0 = b + 14;
    let e0 = c0 + q2.len() as int;
    let f0 = e0 + 7;
    let g0 = f0 + dtext.len() as int;
    assert(blob.len() == g0 + 1);
    assert(dtext.len() >= 1);
    assert forall|k: int| 0 <= k < 9 implies #[trigger] blob[k] == "{\"token\":"@[k] by {}
    assert forall|k: int| b <= k < c0 implies #[trigger] blob[k] == ",\"session_id\":"@[k - b] by {}
    assert forall|k: int| e0 <= k < f0 implies #[trigger] blob[k] == ",\"seq\":"@[k - e0] by {}
    assert forall|k: int| f0 <= k < g0 implies #[trigger] blob[k] == dtext[k - f0] by {}
    assert(blob[g0] == '}');
    assert(blob.subrange(9, b) =~= q) by {
        assert forall|k: int| 0 <= k < q.len() implies blob.subrange(9, b)[k] == q[k] by {
            assert(blob.subrange(9, b)[k] == blob[9 + k]);
            assert(blob[9 + k] == q[k]);
        }
    }
    assert(blob.subrange(c0, e0) =~= q2) by {
        assert forall|k: int| 0 <= k < q2.len() implies blob.subrange(c0, e0)[k] == q2[k] by {
            assert(blob.subrange(c0, e0)[k] == blob[c0 + k]);
            assert(blob[c0 + k] == q2[k]);
        }
    }
    assert(blob[0] == '{');
    crate::json::lemma_blob_step_string(blob, 1, 7, 1);
    crate::json::lemma_blob_step_plain(blob, 8, 9, 1);
    lemma_blob_quote(blob, 9, token, 1);
    crate::json::lemma_blob_step_plain(blob, b, b + 1, 1);
    crate::json::lemma_blob_step_string(blob, b + 1, b + 12, 1);
    crate::json::lemma_blob_step_plain(blob, b + 13, b + 14, 1);
    lemma_blob_quote(blob, c0, sid, 1);
    crate::json::lemma_blob_step_plain(blob, e0, e0 + 1, 1);
    crate::json::lemma_blob_step_string(blob, e0 + 1, e0 + 5, 1);
    crate::json::lemma_blob_step_plain(blob, e0 + 6, e0 + 7, 1);
    assert forall|k: int|
        f0 <= k < g0 implies ({
        let c = #[trigger] blob[k];
        c != '"' && c != '\\' && c != '{' && c != '[' && c != '}' && c != ']'
    }) by {
        if seqn is Some {
            assert(crate::text::is_digit_char(blob[k]));
        } else {
            assert(blob[k] == "null"@[k - f0]);
        }
    }
    crate::json::lemma_blob_step_plain(blob, f0, g0, 1);
    assert(crate::json::blob_end(blob, g0, 1, false, false) == Some(g0 + 1));
    assert(obj_blob_wf(blob));
}

fn sat_add_u64(a: u64, b: u64) -> (r: u64)
    ensures
        r == sat_add(a, b),
{
    match a.checked_add(b) {
        Some(v) => v,
        None => u64::MAX,
    }
}

/// A copy of a payload, equal in model.
pub fn clone_payload(p: &Payload) -> (r: Payload)
    ensures
        r@ == p@,
{
    match p {
        Payload::Hello(h) => Payload::Hello(HelloPayload { heartbeat_interval: h.heartbeat_interval }),
        Payload::Object(t) => Payload::Object(t.clone()),
        Payload::Number(v) => Payload::Number(*v),
        Payload::Flag(b) => Payload::Flag(*b),
    }
}

fn clone_opt_payload(p: &Option<Payload>) -> (r: Option<Payload>)
    ensures
        (match r {
            Some(q) => p matches Some(p0) && q@ == p0@,
            None => p is None,
        }),
{
    match p {
        Some(q) => Some(clone_payload(q)),
        None => None,
    }
}

fn event_name_of(m: &GatewayMessage) -> (r: String)
    ensures
        r@ == tname(m@),
{
    match &m.t {
        Some(t) => t.clone(),
        None => String::new(),
    }
}

/// Reads the string field named `key` of an object payload.
fn payload_str_get(d: &Option<Payload>, key: &str) -> (r: Option<String>)
    ensures
        (match r {
            Some(v) => payload_str_field(
                match d {
                    Some(p) => Some(p@),
                    None => None,
                },
                key@,
            ) == Some(v@),
            None => payload_str_field(
                match d {
                    Some(p) => Some(p@),
                    None => None,
                },
                key@,
            ) is None,
        }),
{
    match d {
        Some(Payload::Object(text)) => {
            let ts: &str = text.as_str();
            match obj_lookup(ts, key) {
                Some((found, end)) => match found {
                    Some((kind, a, b)) => {
                        if kind == JsonKind::KStr {
                            proof {
                                crate::json::lemma_lookup_found_range(ts@, key@);
                            }
                            let sub: &str = ts.substring_char(a, b);
                            Some(sub.to_owned())
                        } else {
                            None
                        }
                    },
                    None => None,
                },
                None => None,
            }
        },
        _ => None,
    }
}

impl Session {
    /// A fresh, idle session with no identity.
    pub fn new() -> (r: Session)
        ensures
            r@ == initial_session(),
            session_wf(r@),
    {
        let r = Session {
            state: SessionState::Idle,
            url: String::new(),
            sequence: None,
            session_id: None,
            resume_url: None,
            heartbeat_interval_ms: None,
            ack_pending: false,
            last_heartbeat_at: None,
            next_heartbeat_at: None,
            hello_deadline: None,
            healthy_since: None,
            reconnect_attempts: 0,
            backoff_ms: 0,
            close_reason: None,
        };
        proof {
            assert(r@ =~= initial_session());
        }
        r
    }

    fn do_close(&mut self, e: ClassifiedError) -> (a: GatewayAction)
        ensures
            final(self)@ == closed_with(old(self)@, e@),
            a@ == ActionModel::Close,
    {
        self.state = SessionState::Closed;
        self.close_reason = Some(e);
        self.ack_pending = false;
        self.next_heartbeat_at = None;
        self.hello_deadline = None;
        proof {
            assert(final(self)@ =~= closed_with(old(self)@, e@));
        }
        GatewayAction::Close
    }

    fn picked_url(&self) -> (r: String)
        ensures
            r@ == pick_url(self@),
    {
        match &self.resume_url {
            Some(u) => u.clone(),
            None => self.url.clone(),
        }
    }

    fn do_to_resuming(&mut self) -> (a: GatewayAction)
        ensures
            final(self)@ == to_resuming(old(self)@).0,
            a@ == to_resuming(old(self)@).1,
    {
        let url = self.picked_url();
        self.state = SessionState::Resuming;
        self.ack_pending = false;
        self.next_heartbeat_at = None;
        self.hello_deadline = None;
        proof {
            assert(final(self)@ =~= to_resuming(old(self)@).0);
        }
        GatewayAction::Open { url, delay_ms: 0 }
    }

    fn do_enter_heartbeating(&mut self, now: u64, jitter: u64)
        ensures
            final(self)@ == enter_heartbeating(old(self)@, now, jitter),
    {
        let iv = match self.heartbeat_interval_ms {
            Some(v) => v,
            None => 0,
        };
        let j = if jitter < iv {
            jitter
        } else {
            iv
        };
        self.state = SessionState::Heartbeating;
        self.ack_pending = false;
        self.healthy_since = Some(now);
        self.last_heartbeat_at = None;
        self.next_heartbeat_at = Some(sat_add_u64(now, j));
        self.hello_deadline = None;
        proof {
            assert(final(self)@ =~= enter_heartbeating(old(self)@, now, jitter));
        }
    }

    fn do_send_heartbeat(&mut self, now: u64) -> (a: GatewayAction)
        ensures
            final(self)@ == send_heartbeat_now(old(self)@, now).0,
            a@ == send_heartbeat_now(old(self)@, now).1,
    {
        let iv = match self.heartbeat_interval_ms {
            Some(v) => v,
            None => 0,
        };
        self.ack_pending = true;
        self.last_heartbeat_at = Some(now);
        self.next_heartbeat_at = Some(sat_add_u64(now, iv));
        proof {
            assert(final(self)@ =~= send_heartbeat_now(old(self)@, now).0);
        }
        GatewayAction::SendHeartbeat
    }

    /// Starts the lifecycle: the caller opens the transport at the returned
    /// URL and reports the outcome.
    pub fn connect(&mut self, url: String) -> (a: GatewayAction)
        requires
            old(self)@.state == SessionState::Idle,
            session_wf(old(self)@),
        ensures
            final(self)@ == (SessionModel {
                state: SessionState::Connecting,
                url: url@,
                ..old(self)@
            }),
            a@ == (ActionModel::Open { url: url@, delay_ms: 0 }),
            session_wf(final(self)@),
    {
        let ghost u = url@;
        let out = url.clone();
        self.url = url;
        self.state = SessionState::Connecting;
        proof {
            assert(final(self)@ =~= SessionModel {
                state: SessionState::Connecting,
                url: u,
                ..old(self)@
            });
        }
        GatewayAction::Open { url: out, delay_ms: 0 }
    }

    /// The transport opened: start the bounded wait for the handshake.
    pub fn on_transport_opened(&mut self, now: u64) -> (a: GatewayAction)
        requires
            session_wf(old(self)@),
        ensures
            final(self)@ == step_transport_opened(old(self)@, now).0,
            a@ == step_transport_opened(old(self)@, now).1,
            session_wf(final(self)@),
    {
        if self.state == SessionState::Connecting {
            self.state = SessionState::AwaitingHello;
            self.hello_deadline = Some(sat_add_u64(now, HELLO_TIMEOUT_MS));
            proof {
                assert(final(self)@ =~= step_transport_opened(old(self)@, now).0);
            }
            GatewayAction::Nothing
        } else if self.state == SessionState::Resuming {
            self.hello_deadline = Some(sat_add_u64(now, HELLO_TIMEOUT_MS));
            proof {
                assert(final(self)@ =~= step_transport_opened(old(self)@, now).0);
            }
            GatewayAction::Nothing
        } else {
            GatewayAction::Nothing
        }
    }

    /// The transport failed or went down.
    pub fn on_transport_failed(&mut self) -> (a: GatewayAction)
        requires
            session_wf(old(self)@),
        ensures
            final(self)@ == step_transport_failed(old(self)@).0,
            a@ == step_transport_failed(old(self)@).1,
            session_wf(final(self)@),
    {
        if self.state == SessionState::Connecting {
            let url = self.url.clone();
            self.do_close(ClassifiedError::GatewayConnectFailure { url })
        } else if self.state == SessionState::Resuming {
            if self.reconnect_attempts >= MAX_RECONNECT_ATTEMPTS {
                self.do_close(ClassifiedError::TransportReceive)
            } else {
                let b = if self.backoff_ms == 0 {
                    BACKOFF_BASE_MS
                } else if self.backoff_ms > BACKOFF_CAP_MS / 2 {
                    BACKOFF_CAP_MS
                } else {
                    2 * self.backoff_ms
                };
                self.state = SessionState::Connecting;
                self.sequence = None;
                self.session_id = None;
                self.resume_url = None;
                self.ack_pending = false;
                self.next_heartbeat_at = None;
                self.hello_deadline = None;
                self.reconnect_attempts = self.reconnect_attempts + 1;
                self.backoff_ms = b;
                let url = self.url.clone();
                proof {
                    assert(final(self)@ =~= step_transport_failed(old(self)@).0);
                }
                GatewayAction::Open { url, delay_ms: b }
            }
        } else if self.state == SessionState::AwaitingHello || self.state
            == SessionState::Identifying || self.state == SessionState::Heartbeating {
            self.do_close(ClassifiedError::TransportReceive)
        } else {
            GatewayAction::Nothing
        }
    }

    /// The caller tears the session down: timer cancellation and transport
    /// close form the single returned action.
    pub fn shutdown(&mut self) -> (a: GatewayAction)
        ensures
            final(self)@ == (SessionModel {
                state: SessionState::Closed,
                ack_pending: false,
                next_heartbeat_at: None,
                hello_deadline: None,
                ..old(self)@
            }),
            a@ == ActionModel::Close,
            session_wf(final(self)@) == (old(self)@.backoff_ms <= BACKOFF_CAP_MS),
    {
        self.state = SessionState::Closed;
        self.ack_pending = false;
        self.next_heartbeat_at = None;
        self.hello_deadline = None;
        proof {
            assert(final(self)@ =~= SessionModel {
                state: SessionState::Closed,
                ack_pending: false,
                next_heartbeat_at: None,
                hello_deadline: None,
                ..old(self)@
            });
        }
        GatewayAction::Close
    }

    /// An inbound frame. `jitter` offsets the first heartbeat when the
    /// steady state is entered; the caller may pass any value, larger ones
    /// are clamped to the interval.
    pub fn on_frame(&mut self, m: &GatewayMessage, now: u64, jitter: u64) -> (a: GatewayAction)
        requires
            session_wf(old(self)@),
        ensures
            final(self)@ == step_frame(old(self)@, m@, now, jitter).0,
            a@ == step_frame(old(self)@, m@, now, jitter).1,
            session_wf(final(self)@),
    {
        if !(self.state == SessionState::AwaitingHello || self.state == SessionState::Identifying
            || self.state == SessionState::Heartbeating || self.state
            == SessionState::Resuming) {
            return GatewayAction::Nothing;
        }
        if self.state == SessionState::AwaitingHello {
            if self.op_is(m, GatewayOpcode::Hello) {
                match &m.d {
                    Some(Payload::Hello(h)) => {
                        self.state = SessionState::Identifying;
                        self.heartbeat_interval_ms = Some(h.heartbeat_interval);
                        self.hello_deadline = None;
                        proof {
                            assert(final(self)@ =~= step_frame(old(self)@, m@, now, jitter).0);
                        }
                        GatewayAction::SendIdentify
                    },
                    _ => self.do_close(ClassifiedError::DeserializeFailure),
                }
            } else {
                self.do_close(ClassifiedError::UnexpectedFrame { op: m.op })
            }
        } else {
            match m.op {
                GatewayOpcode::Hello => {
                    if self.state == SessionState::Resuming {
                        match &m.d {
                            Some(Payload::Hello(h)) => {
                                self.heartbeat_interval_ms = Some(h.heartbeat_interval);
                                self.hello_deadline = None;
                                proof {
                                    assert(final(self)@ =~= step_frame(
                                        old(self)@,
                                        m@,
                                        now,
                                        jitter,
                                    ).0);
                                }
                                GatewayAction::SendResume
                            },
                            _ => self.do_close(ClassifiedError::DeserializeFailure),
                        }
                    } else {
                        self.do_close(ClassifiedError::UnexpectedFrame { op: m.op })
                    }
                },
                GatewayOpcode::HeartbeatAck => {
                    self.ack_pending = false;
                    proof {
                        assert(final(self)@ =~= step_frame(old(self)@, m@, now, jitter).0);
                    }
                    GatewayAction::Nothing
                },
                GatewayOpcode::Heartbeat => self.do_send_heartbeat(now),
                GatewayOpcode::Reconnect => self.do_to_resuming(),
                GatewayOpcode::InvalidSession => {
                    let resumable = match &m.d {
                        Some(Payload::Flag(v)) => *v,
                        _ => false,
                    };
                    if resumable {
                        self.do_to_resuming()
                    } else {
                        self.sequence = None;
                        self.session_id = None;
                        self.state = SessionState::Identifying;
                        proof {
                            assert(final(self)@ =~= step_frame(old(self)@, m@, now, jitter).0);
                        }
                        GatewayAction::SendIdentify
                    }
                },
                GatewayOpcode::Dispatch => {
                    proof {
                        reveal_strlit("READY");
                        reveal_strlit("RESUMED");
                    }
                    let named_ready = match &m.t {
                        Some(t) => str_eq(t.as_str(), "READY"),
                        None => false,
                    };
                    let named_resumed = match &m.t {
                        Some(t) => str_eq(t.as_str(), "RESUMED"),
                        None => false,
                    };
                    proof {
                        // an absent event name is the empty name, which is
                        // neither of the two the transitions look for
                        reveal_strlit("READY");
                        reveal_strlit("RESUMED");
                        if m@.t is None {
                            assert(tname(m@) == Seq::<char>::empty());
                            assert("READY"@.len() == 5 && "RESUMED"@.len() == 7);
                        }
                        assert(named_ready == (tname(m@) == "READY"@));
                        assert(named_resumed == (tname(m@) == "RESUMED"@));
                    }
                    if self.state == SessionState::Identifying && named_ready {
                        self.session_id = payload_str_get(&m.d, "session_id");
                        self.resume_url = payload_str_get(&m.d, "resume_gateway_url");
                        self.do_enter_heartbeating(now, jitter);
                        self.sequence = self.max_seq_step(m.s);
                        proof {
                            assert(final(self)@ =~= step_frame(old(self)@, m@, now, jitter).0);
                        }
                        GatewayAction::Emit {
                            event_name: event_name_of(m),
                            payload: clone_opt_payload(&m.d),
                        }
                    } else if self.state == SessionState::Resuming && named_resumed {
                        self.do_enter_heartbeating(now, jitter);
                        self.sequence = self.max_seq_step(m.s);
                        proof {
                            assert(final(self)@ =~= step_frame(old(self)@, m@, now, jitter).0);
                        }
                        GatewayAction::Emit {
                            event_name: event_name_of(m),
                            payload: clone_opt_payload(&m.d),
                        }
                    } else {
                        match m.s {
                            Some(n) => {
                                let adv = match self.sequence {
                                    Some(c) => n > c,
                                    None => true,
                                };
                                if adv {
                                    self.sequence = Some(n);
                                    proof {
                                        assert(final(self)@ =~= note_dispatch(old(self)@, m@).0);
                                    }
                                    GatewayAction::Emit {
                                        event_name: event_name_of(m),
                                        payload: clone_opt_payload(&m.d),
                                    }
                                } else {
                                    GatewayAction::Nothing
                                }
                            },
                            None => GatewayAction::Nothing,
                        }
                    }
                },
                _ => self.do_close(ClassifiedError::UnexpectedFrame { op: m.op }),
            }
        }
    }

    /// Builds the heartbeat frame carrying the current sequence.
    pub fn build_heartbeat(&self) -> (r: GatewayMessage)
        ensures
            r@ == heartbeat_frame(self@),
            msg_wf(r@),
    {
        let d = match self.sequence {
            Some(n) => Some(Payload::Number(n)),
            None => None,
        };
        let r = GatewayMessage { op: GatewayOpcode::Heartbeat, d, s: None, t: None };
        proof {
            assert(r@ =~= heartbeat_frame(self@));
        }
        r
    }

    /// Builds the identify frame for this credential and intent set; the
    /// escaping keeps the payload a self-contained blob whatever the
    /// credential holds, so the frame is always well-formed.
    pub fn build_identify(&self, token: &Token, intents: u64) -> (r: GatewayMessage)
        ensures
            r@ == identify_frame(token.0@, intents),
            msg_wf(r@),
    {
        let mut blob: String = "{\"token\":".to_owned();
        let q = json_quote(token.0.as_str());
        blob.append(q.as_str());
        blob.append(",\"intents\":");
        let ds = render_u64(intents);
        blob.append(ds.as_str());
        blob.append(
            ",\"properties\":{\"os\":\"linux\",\"browser\":\"rustycord\",\"device\":\"rustycord\"}}",
        );
        proof {
            assert(blob@ =~= spec_identify_text(token.0@, intents));
        }
        let f = GatewayMessage {
            op: GatewayOpcode::Identify,
            d: Some(Payload::Object(blob)),
            s: None,
            t: None,
        };
        proof {
            lemma_identify_text_wf(token.0@, intents);
            assert(f@ =~= identify_frame(token.0@, intents));
        }
        f
    }

    /// Builds the resume frame for this credential and the current
    /// identity; refused exactly when no session id is held.
    pub fn build_resume(&self, token: &Token) -> (r: Option<GatewayMessage>)
        ensures
            (match self@.session_id {
                None => r is None,
                Some(sid) => (r matches Some(f) && f@ == resume_frame(
                    token.0@,
                    sid,
                    self@.sequence,
                ) && msg_wf(f@)),
            }),
    {
        let sid: &String = match &self.session_id {
            Some(s) => s,
            None => {
                return None;
            },
        };
        let mut blob: String = "{\"token\":".to_owned();
        let q = json_quote(token.0.as_str());
        blob.append(q.as_str());
        blob.append(",\"session_id\":");
        let qs = json_quote(sid.as_str());
        blob.append(qs.as_str());
        blob.append(",\"seq\":");
        match self.sequence {
            Some(n) => {
                let ds = render_u64(n);
                blob.append(ds.as_str());
            },
            None => {
                blob.append("null");
            },
        }
        blob.append("}");
        proof {
            assert(blob@ =~= spec_resume_text(token.0@, sid@, self@.sequence));
        }
        let f = GatewayMessage {
            op: GatewayOpcode::Resume,
            d: Some(Payload::Object(blob)),
            s: None,
            t: None,
        };
        proof {
            lemma_resume_text_wf(token.0@, sid@, self@.sequence);
            assert(f@ =~= resume_frame(token.0@, sid@, self@.sequence));
        }
        Some(f)
    }

    fn op_is(&self, m: &GatewayMessage, op: GatewayOpcode) -> (r: bool)
        ensures
            r == (m@.op == op),
    {
        m.op == op
    }

    fn max_seq_step(&self, fresh: Option<u64>) -> (r: Option<u64>)
        ensures
            r == max_seq(self@.sequence, fresh),
    {
        match fresh {
            Some(n) => match self.sequence {
                Some(c) => if n > c {
                    Some(n)
                } else {
                    Some(c)
                },
                None => Some(n),
            },
            None => self.sequence,
        }
    }

    /// A timer tick at `now`: detects the zombied connection (an unanswered
    /// heartbeat one full interval old closes the session with
    /// `HeartbeatTimeout`, the boundary itself counting as timeout), resets
    /// the reconnect budget after a sustained healthy interval, and sends
    /// the due heartbeat.
    pub fn on_timer(&mut self, now: u64) -> (a: GatewayAction)
        requires
            session_wf(old(self)@),
        ensures
            final(self)@ == step_timer(old(self)@, now).0,
            a@ == step_timer(old(self)@, now).1,
            session_wf(final(self)@),
    {
        if self.state == SessionState::AwaitingHello || self.state == SessionState::Resuming {
            match self.hello_deadline {
                Some(dl) => {
                    if now >= dl {
                        let url = self.picked_url();
                        self.do_close(ClassifiedError::GatewayConnectFailure { url })
                    } else {
                        GatewayAction::Nothing
                    }
                },
                None => GatewayAction::Nothing,
            }
        } else if self.state == SessionState::Heartbeating {
            let iv = match self.heartbeat_interval_ms {
                Some(v) => v,
                None => 0,
            };
            let timed_out = self.ack_pending && match self.last_heartbeat_at {
                Some(l) => sat_add_u64(l, iv) <= now,
                None => false,
            };
            if timed_out {
                self.do_close(ClassifiedError::HeartbeatTimeout)
            } else {
                let sustained = match self.healthy_since {
                    Some(h) => sat_add_u64(h, iv) <= now,
                    None => false,
                };
                if sustained {
                    self.reconnect_attempts = 0;
                    self.backoff_ms = 0;
                }
                let due = match self.next_heartbeat_at {
                    Some(nx) => now >= nx,
                    None => false,
                };
                if due {
                    self.do_send_heartbeat(now)
                } else {
                    proof {
                        assert(final(self)@ =~= step_timer(old(self)@, now).0);
                    }
                    GatewayAction::Nothing
                }
            }
        } else {
            GatewayAction::Nothing
        }
    }
}

/// The session after a run of inbound frames, all at the same tick.
pub open spec fn run_frames(s: SessionModel, ms: Seq<MessageModel>, now: u64, jitter: u64) -> SessionModel
    decreases ms.len(),
{
    if ms.len() == 0 {
        s
    } else {
        run_frames(step_frame(s, ms[0], now, jitter).0, ms.subrange(1, ms.len() as int), now, jitter)
    }
}

/// In the steady state, a run of dispatch frames with strictly increasing
/// sequence numbers, each ahead of the session, drives `sequence` to the
/// maximum seen — the last of the run — and stays in the steady state.
pub proof fn lemma_sequence_tracks_max(
    s: SessionModel,
    ms: Seq<MessageModel>,
    now: u64,
    jitter: u64,
)
    requires
        session_wf(s),
        s.state == SessionState::Heartbeating,
        ms.len() >= 1,
        forall|k: int|
            0 <= k < ms.len() ==> (#[trigger] ms[k].op) == GatewayOpcode::Dispatch
                && ms[k].s is Some,
        forall|k: int| 0 <= k < ms.len() - 1 ==> (#[trigger] ms[k].s)->Some_0 < ms[k + 1].s->Some_0,
        s.sequence is Some ==> s.sequence->Some_0 < ms[0].s->Some_0,
    ensures
        run_frames(s, ms, now, jitter).sequence == ms[ms.len() - 1].s,
        run_frames(s, ms, now, jitter).state == SessionState::Heartbeating,
    decreases ms.len(),
{
    let s1 = step_frame(s, ms[0], now, jitter).0;
    assert(s1 == (SessionModel { sequence: ms[0].s, ..s }));
    if ms.len() == 1 {
        assert(run_frames(s1, ms.subrange(1, 1), now, jitter) == s1);
    } else {
        let rest = ms.subrange(1, ms.len() as int);
        assert forall|k: int| 0 <= k < rest.len() implies (#[trigger] rest[k].op)
            == GatewayOpcode::Dispatch && rest[k].s is Some by {
            assert(rest[k] == ms[k + 1]);
        }
        assert forall|k: int| 0 <= k < rest.len() - 1 implies (#[trigger] rest[k].s)->Some_0
            < rest[k + 1].s->Some_0 by {
            assert(rest[k] == ms[k + 1]);
            assert(rest[k + 1] == ms[k + 2]);
        }
        assert(rest[0] == ms[1]);
        lemma_sequence_tracks_max(s1, rest, now, jitter);
        assert(rest[rest.len() - 1] == ms[ms.len() - 1]);
    }
}

/// In the steady state, a dispatch whose sequence does not exceed the one
/// already observed changes nothing: the session is left exactly as it
/// was and the frame is dropped.
pub proof fn lemma_stale_dispatch_ignored(s: SessionModel, m: MessageModel, now: u64, jitter: u64)
    requires
        session_wf(s),
        s.state == SessionState::Heartbeating,
        m.op == GatewayOpcode::Dispatch,
        m.s is Some,
        s.sequence is Some,
        m.s->Some_0 <= s.sequence->Some_0,
    ensures
        step_frame(s, m, now, jitter).0 == s,
        step_frame(s, m, now, jitter).1 == ActionModel::Nothing,
{
}

/// Liveness: a heartbeat that has gone one full interval without an
/// acknowledgement — the boundary itself included — closes the session
/// with `HeartbeatTimeout` on the next tick.
pub proof fn lemma_heartbeat_timeout(s: SessionModel, now: u64)
    requires
        session_wf(s),
        s.state == SessionState::Heartbeating,
        s.ack_pending,
        sat_add(s.last_heartbeat_at->Some_0, interval_of(s)) <= now,
    ensures
        step_timer(s, now).0.state == SessionState::Closed,
        step_timer(s, now).0.close_reason == Some(ErrorModel::HeartbeatTimeout),
        step_timer(s, now).1 == ActionModel::Close,
{
}

/// A resume cycle that succeeds — the resumed acknowledgement arrives —
/// re-enters the steady state with the session id untouched and the
/// sequence only ever advanced, never cleared.
pub proof fn lemma_resume_success(s: SessionModel, m: MessageModel, now: u64, jitter: u64)
    requires
        session_wf(s),
        s.state == SessionState::Resuming,
        m.op == GatewayOpcode::Dispatch,
        tname(m) == "RESUMED"@,
    ensures
        step_frame(s, m, now, jitter).0.state == SessionState::Heartbeating,
        step_frame(s, m, now, jitter).0.session_id == s.session_id,
        step_frame(s, m, now, jitter).0.sequence == max_seq(s.sequence, m.s),
        m.s is None ==> step_frame(s, m, now, jitter).0.sequence == s.sequence,
{
}

/// A resume cycle that fails — the server declares the session invalid and
/// non-resumable — clears both the sequence and the session id before the
/// session re-enters the identify path.
pub proof fn lemma_resume_failure_clears(s: SessionModel, m: MessageModel, now: u64, jitter: u64)
    requires
        session_wf(s),
        s.state == SessionState::Resuming || s.state == SessionState::Heartbeating || s.state
            == SessionState::Identifying,
        m.op == GatewayOpcode::InvalidSession,
        !resumable_flag(m.d),
    ensures
        step_frame(s, m, now, jitter).0.sequence is None,
        step_frame(s, m, now, jitter).0.session_id is None,
        step_frame(s, m, now, jitter).0.state == SessionState::Identifying,
        step_frame(s, m, now, jitter).1 == ActionModel::SendIdentify,
{
}

/// Once the steady state has been sustained for one full interval, the
/// next tick resets the reconnect budget and the backoff.
pub proof fn lemma_backoff_resets_after_sustained_health(s: SessionModel, now: u64)
    requires
        session_wf(s),
        s.state == SessionState::Heartbeating,
        !(s.ack_pending && sat_add(s.last_heartbeat_at->Some_0, interval_of(s)) <= now),
        sat_add(s.healthy_since->Some_0, interval_of(s)) <= now,
    ensures
        step_timer(s, now).0.reconnect_attempts == 0,
        step_timer(s, now).0.backoff_ms == 0,
{
}

/// Entering the steady state schedules the first heartbeat within one full
/// interval of that instant, whatever jitter the caller supplies.
pub proof fn lemma_first_heartbeat_window(s: SessionModel, m: MessageModel, now: u64, jitter: u64)
    requires
        session_wf(s),
        s.state == SessionState::Identifying,
        m.op == GatewayOpcode::Dispatch,
        tname(m) == "READY"@,
    ensures
        step_frame(s, m, now, jitter).0.state == SessionState::Heartbeating,
        step_frame(s, m, now, jitter).0.next_heartbeat_at is Some,
        now <= step_frame(s, m, now, jitter).0.next_heartbeat_at->Some_0 <= sat_add(
            now,
            interval_of(s),
        ),
{
}

} // verus!
