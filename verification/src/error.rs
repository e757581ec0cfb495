//! The closed error taxonomy shared by the REST and gateway paths.
//!
//! Every failure the core can report is one of these kinds; both the REST
//! classification and the gateway session produce values of this type, and
//! no other error type crosses the core's boundary.

use vstd::prelude::*;

verus! {

use crate::models::gateway::GatewayOpcode;

/// Mathematical model of a [`ClassifiedError`]: the same variants with
/// string payloads abstracted to character sequences.
pub enum ErrorModel {
    TransportSend,
    TransportReceive,
    GatewayConnectFailure { url: Seq<char> },
    UnknownOpcode { op: u64 },
    MalformedFrame,
    UnexpectedFrame { op: GatewayOpcode },
    HeartbeatTimeout,
    InvalidToken,
    BadRequest { code: i64, message: Seq<char> },
    Unauthorized { code: i64, message: Seq<char> },
    Forbidden { code: i64, message: Seq<char> },
    NotFound { code: i64, message: Seq<char> },
    RateLimited { retry_after_ms: u64 },
    ServerError { status: u16 },
    HttpStatus { status: u16 },
    DeserializeFailure,
}

/// The classified failure kinds produced by the core.
///
/// REST calls classify HTTP responses into the `InvalidToken` /
/// `Unauthorized` / `Forbidden` / `NotFound` / `BadRequest` / `RateLimited` /
/// `ServerError` / `HttpStatus` / `DeserializeFailure` kinds; the gateway
/// session produces the transport, protocol and liveness kinds.
#[derive(Debug, Clone)]
pub enum ClassifiedError {
    /// Socket-level failure while sending.
    TransportSend,
    /// Socket-level failure while receiving.
    TransportReceive,
    /// The transport to the gateway could not be opened.
    GatewayConnectFailure { url: String },
    /// A frame carried an operation code outside the known range.
    UnknownOpcode { op: u64 },
    /// A frame violated the wire grammar or lacked a mandatory field.
    MalformedFrame,
    /// A structurally valid frame arrived in a state that does not admit it.
    UnexpectedFrame { op: GatewayOpcode },
    /// No heartbeat acknowledgement arrived within one full interval.
    HeartbeatTimeout,
    /// A 401 on the login path: the credential itself is bad.
    InvalidToken,
    /// HTTP 400 with the platform's error envelope.
    BadRequest { code: i64, message: String },
    /// HTTP 401 outside the login path.
    Unauthorized { code: i64, message: String },
    /// HTTP 403.
    Forbidden { code: i64, message: String },
    /// HTTP 404.
    NotFound { code: i64, message: String },
    /// HTTP 429; the caller must wait at least `retry_after_ms` before
    /// re-issuing the same logical request.
    RateLimited { retry_after_ms: u64 },
    /// Any 5xx status: transient, safe to retry idempotent GETs.
    ServerError { status: u16 },
    /// A failure status outside the specifically classified ones.
    HttpStatus { status: u16 },
    /// A 2xx body did not deserialize to the expected record.
    DeserializeFailure,
}

impl View for ClassifiedError {
    type V = ErrorModel;

    open spec fn view(&self) -> ErrorModel {
        match self {
            ClassifiedError::TransportSend => ErrorModel::TransportSend,
            ClassifiedError::TransportReceive => ErrorModel::TransportReceive,
            ClassifiedError::GatewayConnectFailure { url } => ErrorModel::GatewayConnectFailure {
                url: url@,
            },
            ClassifiedError::UnknownOpcode { op } => ErrorModel::UnknownOpcode { op: *op },
            ClassifiedError::MalformedFrame => ErrorModel::MalformedFrame,
            ClassifiedError::UnexpectedFrame { op } => ErrorModel::UnexpectedFrame { op: *op },
            ClassifiedError::HeartbeatTimeout => ErrorModel::HeartbeatTimeout,
            ClassifiedError::InvalidToken => ErrorModel::InvalidToken,
            ClassifiedError::BadRequest { code, message } => ErrorModel::BadRequest {
                code: *code,
                message: message@,
            },
            ClassifiedError::Unauthorized { code, message } => ErrorModel::Unauthorized {
                code: *code,
                message: message@,
            },
            ClassifiedError::Forbidden { code, message } => ErrorModel::Forbidden {
                code: *code,
                message: message@,
            },
            ClassifiedError::NotFound { code, message } => ErrorModel::NotFound {
                code: *code,
                message: message@,
            },
            ClassifiedError::RateLimited { retry_after_ms } => ErrorModel::RateLimited {
                retry_after_ms: *retry_after_ms,
            },
            ClassifiedError::ServerError { status } => ErrorModel::ServerError { status: *status },
            ClassifiedError::HttpStatus { status } => ErrorModel::HttpStatus { status: *status },
            ClassifiedError::DeserializeFailure => ErrorModel::DeserializeFailure,
        }
    }
}

/// Whether a closed session that reported this error may be recovered by a
/// resume cycle rather than a fresh identify.
pub open spec fn spec_is_resumable(e: ErrorModel) -> bool {
    match e {
        ErrorModel::HeartbeatTimeout => true,
        ErrorModel::TransportSend => true,
        ErrorModel::TransportReceive => true,
        _ => false,
    }
}

/// Whether the error is fatal for the login path: no retry may follow it.
pub open spec fn spec_is_login_fatal(e: ErrorModel) -> bool {
    e is InvalidToken
}

impl ClassifiedError {
    /// A liveness or transport failure is always resumable; protocol and
    /// configuration failures are not.
    pub fn is_resumable(&self) -> (r: bool)
        ensures
            r == spec_is_resumable(self@),
    {
        match self {
            ClassifiedError::HeartbeatTimeout => true,
            ClassifiedError::TransportSend => true,
            ClassifiedError::TransportReceive => true,
            _ => false,
        }
    }

    /// An invalid token must stop the login path outright: the session must
    /// never attempt an identify or resume with a credential known to be bad.
    pub fn is_login_fatal(&self) -> (r: bool)
        ensures
            r == spec_is_login_fatal(self@),
    {
        match self {
            ClassifiedError::InvalidToken => true,
            _ => false,
        }
    }
}

} // verus!
