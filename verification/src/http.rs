//! The REST response pipeline: status classification into the shared error
//! taxonomy, and readers for the records the platform returns.
//!
//! The transport performs the HTTP exchange outside the library and hands
//! in the status code, the body text and the retry hint from the headers;
//! everything decided about a response is decided here. A 401 on the
//! current-user (login) path is `InvalidToken`; the same status anywhere
//! else is `Unauthorized`. A 429 is always `RateLimited`, carrying the
//! supplied hint or zero when none can be read. Any 5xx is a transient
//! `ServerError`. A success body that does not read back as the expected
//! record is a `DeserializeFailure`, never silently defaulted.

use vstd::prelude::*;

verus! {

use crate::error::ClassifiedError;
use crate::error::ErrorModel;
use crate::json::JsonKind;
use crate::json::obj_lookup;
use crate::json::parse_u64_span;
use crate::json::spec_obj_lookup;
use crate::models::common::Snowflake;
use crate::models::error::DiscordError;
use crate::models::error::DiscordErrorModel;
use crate::models::gateway::BotGateway;
use crate::models::gateway::Gateway;
use crate::models::gateway::SessionStartLimit;
use crate::models::user::User;
use crate::models::user::UserModel;
use crate::text::parse_u64_from;

/// Which REST endpoint a response answers; the classification of a 401
/// depends on it.
#[derive(Clone, Copy, Debug, PartialEq, Eq, Structural)]
pub enum RestCall {
    CurrentUser,
    User,
    Gateway,
    GatewayBot,
}

/// The string field named `key`, when the object carries one.
pub open spec fn spec_opt_str(s: Seq<char>, key: Seq<char>) -> Option<Seq<char>> {
    match spec_obj_lookup(s, key) {
        Some((found, end)) => match found {
            Some((kind, a, b)) => if kind == JsonKind::KStr {
                Some(s.subrange(a, b))
            } else {
                None
            },
            None => None,
        },
        None => None,
    }
}

/// The boolean field named `key`, when the object carries one.
pub open spec fn spec_opt_bool(s: Seq<char>, key: Seq<char>) -> Option<bool> {
    match spec_obj_lookup(s, key) {
        Some((found, end)) => match found {
            Some((kind, a, b)) => if kind == JsonKind::KTrue {
                Some(true)
            } else if kind == JsonKind::KFalse {
                Some(false)
            } else {
                None
            },
            None => None,
        },
        None => None,
    }
}

/// The numeric field named `key` as a `u64`, when the object carries a
/// representable one.
pub open spec fn spec_opt_u64(s: Seq<char>, key: Seq<char>) -> Option<u64> {
    match spec_obj_lookup(s, key) {
        Some((found, end)) => match found {
            Some((kind, a, b)) => if kind == JsonKind::KNum {
                parse_u64_from(s, a, b, 0)
            } else {
                None
            },
            None => None,
        },
        None => None,
    }
}

/// The numeric field named `key` as an `i64`.
pub open spec fn spec_opt_i64(s: Seq<char>, key: Seq<char>) -> Option<i64> {
    match spec_opt_u64(s, key) {
        Some(v) => if v <= i64::MAX {
            Some(v as i64)
        } else {
            None
        },
        None => None,
    }
}

/// The numeric field named `key` as an `i32`.
pub open spec fn spec_opt_i32(s: Seq<char>, key: Seq<char>) -> Option<i32> {
    match spec_opt_u64(s, key) {
        Some(v) => if v <= i32::MAX {
            Some(v as i32)
        } else {
            None
        },
        None => None,
    }
}

/// An identifier field: the platform writes snowflakes as strings of
/// digits, but a bare number is accepted too.
pub open spec fn spec_opt_id(s: Seq<char>, key: Seq<char>) -> Option<i64> {
    match spec_obj_lookup(s, key) {
        Some((found, end)) => match found {
            Some((kind, a, b)) => if kind == JsonKind::KStr || kind == JsonKind::KNum {
                match parse_u64_from(s, a, b, 0) {
                    Some(v) => if v <= i64::MAX {
                        Some(v as i64)
                    } else {
                        None
                    },
                    None => None,
                }
            } else {
                None
            },
            None => None,
        },
        None => None,
    }
}

/// Whether `s` is a whole, readable object: the envelope walk succeeds and
/// consumes all of it.
pub open spec fn spec_body_ok(s: Seq<char>) -> bool {
    match spec_obj_lookup(s, "code"@) {
        Some((found, end)) => end == s.len(),
        None => false,
    }
}

/// The platform error envelope read out of a failure body, when it carries
/// the numeric code and message.
pub open spec fn spec_parse_api_error(s: Seq<char>) -> Option<DiscordErrorModel> {
    if spec_body_ok(s) {
        match spec_opt_i64(s, "code"@) {
            Some(code) => match spec_opt_str(s, "message"@) {
                Some(message) => Some(
                    DiscordErrorModel { code, message, errors: spec_opt_str(s, "errors"@) },
                ),
                None => None,
            },
            None => None,
        }
    } else {
        None
    }
}

/// The classification of a response status, given the parsed error
/// envelope (if any) and the retry hint read from the headers or body.
///
/// The status decides the family. Where the platform's error envelope was
/// readable it keys the specific client-error kinds; a 4xx whose body was
/// absent or unreadable falls back to the generic status-keyed kind. A
/// 401 and a 429 never fall back: the one is diagnostic for its path and
/// the other must always carry a usable wait.
pub open spec fn spec_classify(
    call: RestCall,
    status: u16,
    body: Option<DiscordErrorModel>,
    retry_after_ms: Option<u64>,
) -> Result<(), ErrorModel> {
    let code = match body {
        Some(e) => e.code,
        None => 0,
    };
    let message = match body {
        Some(e) => e.message,
        None => Seq::<char>::empty(),
    };
    if 200 <= status < 300 {
        Ok(())
    } else if status == 400 && body is Some {
        Err(ErrorModel::BadRequest { code, message })
    } else if status == 401 {
        if call == RestCall::CurrentUser {
            Err(ErrorModel::InvalidToken)
        } else {
            Err(ErrorModel::Unauthorized { code, message })
        }
    } else if status == 403 && body is Some {
        Err(ErrorModel::Forbidden { code, message })
    } else if status == 404 && body is Some {
        Err(ErrorModel::NotFound { code, message })
    } else if status == 429 {
        Err(
            ErrorModel::RateLimited {
                retry_after_ms: match retry_after_ms {
                    Some(v) => v,
                    None => 0,
                },
            },
        )
    } else if 500 <= status < 600 {
        Err(ErrorModel::ServerError { status })
    } else {
        Err(ErrorModel::HttpStatus { status })
    }
}

/// A 401 is `InvalidToken` exactly on the login path and `Unauthorized`
/// on every other path, whatever the body holds.
pub proof fn lemma_login_401_classification(
    call: RestCall,
    body: Option<DiscordErrorModel>,
    retry_after_ms: Option<u64>,
)
    ensures
        spec_classify(RestCall::CurrentUser, 401, body, retry_after_ms) == Err::<
            (),
            ErrorModel,
        >(ErrorModel::InvalidToken),
        call != RestCall::CurrentUser ==> spec_classify(call, 401, body, retry_after_ms) == Err::<
            (),
            ErrorModel,
        >(ErrorModel::Unauthorized {
            code: match body {
                Some(e) => e.code,
                None => 0,
            },
            message: match body {
                Some(e) => e.message,
                None => Seq::<char>::empty(),
            },
        }),
{
}

/// A 429 always classifies as `RateLimited`, carrying the supplied hint or
/// zero when none could be read — whatever the body holds, and never more
/// than the hint.
pub proof fn lemma_429_rate_limited(
    call: RestCall,
    body: Option<DiscordErrorModel>,
    retry_after_ms: Option<u64>,
)
    ensures
        spec_classify(call, 429, body, retry_after_ms) == Err::<(), ErrorModel>(
            ErrorModel::RateLimited {
                retry_after_ms: match retry_after_ms {
                    Some(v) => v,
                    None => 0,
                },
            },
        ),
{
}

/// Every 5xx status classifies as the transient `ServerError`.
pub proof fn lemma_5xx_server_error(
    call: RestCall,
    status: u16,
    body: Option<DiscordErrorModel>,
    retry_after_ms: Option<u64>,
)
    requires
        500 <= status < 600,
    ensures
        spec_classify(call, status, body, retry_after_ms) == Err::<(), ErrorModel>(
            ErrorModel::ServerError { status },
        ),
{
}

fn opt_str_get(s: &str, key: &str) -> (r: Option<String>)
    ensures
        (match r {
            Some(v) => spec_opt_str(s@, key@) == Some(v@),
            None => spec_opt_str(s@, key@) is None,
        }),
{
    match obj_lookup(s, key) {
        Some((found, end)) => match found {
            Some((kind, a, b)) => {
                if kind == JsonKind::KStr {
                    proof {
                        crate::json::lemma_lookup_found_range(s@, key@);
                    }
                    let sub: &str = s.substring_char(a, b);
                    Some(sub.to_owned())
                } else {
                    None
                }
            },
            None => None,
        },
        None => None,
    }
}

fn opt_bool_get(s: &str, key: &str) -> (r: Option<bool>)
    ensures
        r == spec_opt_bool(s@, key@),
{
    match obj_lookup(s, key) {
        Some((found, end)) => match found {
            Some((kind, a, b)) => {
                if kind == JsonKind::KTrue {
                    Some(true)
                } else if kind == JsonKind::KFalse {
                    Some(false)
                } else {
                    None
                }
            },
            None => None,
        },
        None => None,
    }
}

fn opt_u64_get(s: &str, key: &str) -> (r: Option<u64>)
    ensures
        r == spec_opt_u64(s@, key@),
{
    match obj_lookup(s, key) {
        Some((found, end)) => match found {
            Some((kind, a, b)) => {
                if kind == JsonKind::KNum {
                    proof {
                        crate::json::lemma_lookup_found_range(s@, key@);
                    }
                    parse_u64_span(s, a, b)
                } else {
                    None
                }
            },
            None => None,
        },
        None => None,
    }
}

fn opt_i64_get(s: &str, key: &str) -> (r: Option<i64>)
    ensures
        r == spec_opt_i64(s@, key@),
{
    match opt_u64_get(s, key) {
        Some(v) => {
            if v <= i64::MAX as u64 {
                Some(v as i64)
            } else {
                None
            }
        },
        None => None,
    }
}

fn opt_i32_get(s: &str, key: &str) -> (r: Option<i32>)
    ensures
        r == spec_opt_i32(s@, key@),
{
    match opt_u64_get(s, key) {
        Some(v) => {
            if v <= i32::MAX as u64 {
                Some(v as i32)
            } else {
                None
            }
        },
        None => None,
    }
}

fn opt_id_get(s: &str, key: &str) -> (r: Option<i64>)
    ensures
        r == spec_opt_id(s@, key@),
{
    match obj_lookup(s, key) {
        Some((found, end)) => match found {
            Some((kind, a, b)) => {
                if kind == JsonKind::KStr || kind == JsonKind::KNum {
                    proof {
                        crate::json::lemma_lookup_found_range(s@, key@);
                    }
                    match parse_u64_span(s, a, b) {
                        Some(v) => {
                            if v <= i64::MAX as u64 {
                                Some(v as i64)
                            } else {
                                None
                            }
                        },
                        None => None,
                    }
                } else {
                    None
                }
            },
            None => None,
        },
        None => None,
    }
}

fn body_ok(s: &str) -> (r: bool)
    ensures
        r == spec_body_ok(s@),
{
    let len = s.unicode_len();
    match obj_lookup(s, "code") {
        Some((found, end)) => end == len,
        None => false,
    }
}

/// Reads the platform's error envelope out of a failure body.
pub fn parse_api_error(s: &str) -> (r: Option<DiscordError>)
    ensures
        (match r {
            Some(e) => spec_parse_api_error(s@) == Some(e@),
            None => spec_parse_api_error(s@) is None,
        }),
{
    if !body_ok(s) {
        return None;
    }
    let code = match opt_i64_get(s, "code") {
        Some(c) => c,
        None => {
            return None;
        },
    };
    let message = match opt_str_get(s, "message") {
        Some(m) => m,
        None => {
            return None;
        },
    };
    let errors = opt_str_get(s, "errors");
    Some(DiscordError { code, message, errors })
}

/// Classifies a response status against the parsed error envelope and the
/// retry hint.
pub fn classify_response(
    call: RestCall,
    status: u16,
    body: &Option<DiscordError>,
    retry_after_ms: Option<u64>,
) -> (r: Result<(), ClassifiedError>)
    ensures
        (match r {
            Ok(u) => spec_classify(
                call,
                status,
                match body {
                    Some(e) => Some(e@),
                    None => None,
                },
                retry_after_ms,
            ) is Ok,
            Err(e) => spec_classify(
                call,
                status,
                match body {
                    Some(b) => Some(b@),
                    None => None,
                },
                retry_after_ms,
            ) == Err::<(), ErrorModel>(e@),
        }),
{
    let code: i64 = match body {
        Some(e) => e.code,
        None => 0,
    };
    let message: String = match body {
        Some(e) => e.message.clone(),
        None => String::new(),
    };
    if 200 <= status && status < 300 {
        Ok(())
    } else if status == 400 && body.is_some() {
        Err(ClassifiedError::BadRequest { code, message })
    } else if status == 401 {
        if call == RestCall::CurrentUser {
            Err(ClassifiedError::InvalidToken)
        } else {
            Err(ClassifiedError::Unauthorized { code, message })
        }
    } else if status == 403 && body.is_some() {
        Err(ClassifiedError::Forbidden { code, message })
    } else if status == 404 && body.is_some() {
        Err(ClassifiedError::NotFound { code, message })
    } else if status == 429 {
        let hint: u64 = match retry_after_ms {
            Some(v) => v,
            None => 0,
        };
        Err(ClassifiedError::RateLimited { retry_after_ms: hint })
    } else if 500 <= status && status < 600 {
        Err(ClassifiedError::ServerError { status })
    } else {
        Err(ClassifiedError::HttpStatus { status })
    }
}

/// The retry wait for a 429: the header hint when present, else the
/// `retry_after` field of the body, else zero.
pub open spec fn spec_retry_after(header_ms: Option<u64>, body: Seq<char>) -> u64 {
    match header_ms {
        Some(v) => v,
        None => match spec_opt_u64(body, "retry_after"@) {
            Some(v) => v,
            None => 0,
        },
    }
}

/// Resolves the retry wait for a 429 response.
pub fn retry_after_hint(header_ms: Option<u64>, body: &str) -> (r: u64)
    ensures
        r == spec_retry_after(header_ms, body@),
{
    match header_ms {
        Some(v) => v,
        None => match opt_u64_get(body, "retry_after") {
            Some(v) => v,
            None => 0,
        },
    }
}

/// The user record read out of a success body.
pub open spec fn spec_parse_user(s: Seq<char>) -> Option<UserModel> {
    match spec_opt_id(s, "id"@) {
        None => None,
        Some(id) => match spec_opt_str(s, "username"@) {
            None => None,
            Some(user_name) => match spec_opt_str(s, "discriminator"@) {
                None => None,
                Some(discriminator) => Some(
                    UserModel {
                        id,
                        user_name,
                        discriminator,
                        avatar: spec_opt_str(s, "avatar"@),
                        bot: spec_opt_bool(s, "bot"@),
                        system: spec_opt_bool(s, "system"@),
                        mfa_enabled: spec_opt_bool(s, "mfa_enabled"@),
                        locale: spec_opt_str(s, "locale"@),
                        verified: spec_opt_bool(s, "verified"@),
                        email: spec_opt_str(s, "email"@),
                        flags: spec_opt_i32(s, "flags"@),
                        premium_type: spec_opt_i32(s, "premium_type"@),
                        public_flags: spec_opt_i32(s, "public_flags"@),
                    },
                ),
            },
        },
    }
}

/// Reads a user record out of a success body.
pub fn parse_user(s: &str) -> (r: Option<User>)
    ensures
        (match r {
            Some(u) => spec_parse_user(s@) == Some(u@),
            None => spec_parse_user(s@) is None,
        }),
{
    let id = match opt_id_get(s, "id") {
        Some(v) => v,
        None => {
            return None;
        },
    };
    let user_name = match opt_str_get(s, "username") {
        Some(v) => v,
        None => {
            return None;
        },
    };
    let discriminator = match opt_str_get(s, "discriminator") {
        Some(v) => v,
        None => {
            return None;
        },
    };
    let u = User {
        id: Snowflake { value: id },
        user_name,
        discriminator,
        avatar: opt_str_get(s, "avatar"),
        bot: opt_bool_get(s, "bot"),
        system: opt_bool_get(s, "system"),
        mfa_enabled: opt_bool_get(s, "mfa_enabled"),
        locale: opt_str_get(s, "locale"),
        verified: opt_bool_get(s, "verified"),
        email: opt_str_get(s, "email"),
        flags: opt_i32_get(s, "flags"),
        premium_type: opt_i32_get(s, "premium_type"),
        public_flags: opt_i32_get(s, "public_flags"),
    };
    proof {
        assert(u@ =~= spec_parse_user(s@)->Some_0);
    }
    Some(u)
}

/// The socket URL read out of a gateway-discovery body.
pub open spec fn spec_parse_gateway_url(s: Seq<char>) -> Option<Seq<char>> {
    spec_opt_str(s, "url"@)
}

/// Reads the gateway-discovery record out of a success body.
pub fn parse_gateway(s: &str) -> (r: Option<Gateway>)
    ensures
        (match r {
            Some(g) => spec_parse_gateway_url(s@) == Some(g.url@),
            None => spec_parse_gateway_url(s@) is None,
        }),
{
    match opt_str_get(s, "url") {
        Some(url) => Some(Gateway { url }),
        None => None,
    }
}

/// The bot-gateway record read out of a success body.
pub open spec fn spec_parse_bot_gateway(s: Seq<char>) -> Option<
    (Seq<char>, i64, (i64, i64, i64, i64)),
> {
    match spec_opt_str(s, "url"@) {
        None => None,
        Some(url) => match spec_opt_i64(s, "shards"@) {
            None => None,
            Some(shards) => match spec_obj_lookup(s, "session_start_limit"@) {
                Some((found, end)) => match found {
                    Some((kind, a, b)) => if kind == JsonKind::KObj {
                        let o = s.subrange(a, b);
                        match (
                            spec_opt_i64(o, "total"@),
                            spec_opt_i64(o, "remaining"@),
                            spec_opt_i64(o, "reset_after"@),
                            spec_opt_i64(o, "max_concurrency"@),
                        ) {
                            (Some(total), Some(remaining), Some(reset_after), Some(mc)) => Some(
                                (url, shards, (total, remaining, reset_after, mc)),
                            ),
                            _ => None,
                        }
                    } else {
                        None
                    },
                    None => None,
                },
                None => None,
            },
        },
    }
}

/// Reads the bot-gateway record out of a success body.
pub fn parse_bot_gateway(s: &str) -> (r: Option<BotGateway>)
    ensures
        (match r {
            Some(g) => spec_parse_bot_gateway(s@) == Some(
                (
                    g.url@,
                    g.shards,
                    (
                        g.session_start_limit.total,
                        g.session_start_limit.remaining,
                        g.session_start_limit.reset_after,
                        g.session_start_limit.max_concurrency,
                    ),
                ),
            ),
            None => spec_parse_bot_gateway(s@) is None,
        }),
{
    let url = match opt_str_get(s, "url") {
        Some(v) => v,
        None => {
            return None;
        },
    };
    let shards = match opt_i64_get(s, "shards") {
        Some(v) => v,
        None => {
            return None;
        },
    };
    match obj_lookup(s, "session_start_limit") {
        Some((found, end)) => match found {
            Some((kind, a, b)) => {
                if kind == JsonKind::KObj {
                    proof {
                        crate::json::lemma_lookup_found_range(s@, "session_start_limit"@);
                    }
                    let o: &str = s.substring_char(a, b);
                    let total = opt_i64_get(o, "total");
                    let remaining = opt_i64_get(o, "remaining");
                    let reset_after = opt_i64_get(o, "reset_after");
                    let mc = opt_i64_get(o, "max_concurrency");
                    match (total, remaining, reset_after, mc) {
                        (Some(total), Some(remaining), Some(reset_after), Some(mc)) => Some(
                            BotGateway {
                                url,
                                shards,
                                session_start_limit: SessionStartLimit {
                                    total,
                                    remaining,
                                    reset_after,
                                    max_concurrency: mc,
                                },
                            },
                        ),
                        _ => None,
                    }
                } else {
                    None
                }
            },
            None => None,
        },
        None => None,
    }
}

/// What a whole REST exchange yields for a record-returning endpoint:
/// failure statuses classify (with the error envelope read from the body),
/// and a success body must read back as the record.
pub open spec fn spec_interpret(
    call: RestCall,
    status: u16,
    body: Seq<char>,
    retry_after_ms: Option<u64>,
) -> Result<(), ErrorModel> {
    spec_classify(call, status, spec_parse_api_error(body), retry_after_ms)
}

/// Classifies a whole response: status, error envelope and retry hint.
pub fn interpret_response(
    call: RestCall,
    status: u16,
    body: &str,
    retry_after_ms: Option<u64>,
) -> (r: Result<(), ClassifiedError>)
    ensures
        (match r {
            Ok(u) => spec_interpret(call, status, body@, retry_after_ms) is Ok,
            Err(e) => spec_interpret(call, status, body@, retry_after_ms) == Err::<
                (),
                ErrorModel,
            >(e@),
        }),
{
    let env = parse_api_error(body);
    classify_response(call, status, &env, retry_after_ms)
}

/// What a user-returning exchange yields: the classified failure, the
/// record of a readable success body, and `DeserializeFailure` — never a
/// silent default — when a success body does not read back.
pub open spec fn spec_user_outcome(
    call: RestCall,
    status: u16,
    body: Seq<char>,
    retry_after_ms: Option<u64>,
) -> Result<UserModel, ErrorModel> {
    match spec_interpret(call, status, body, retry_after_ms) {
        Err(e) => Err(e),
        Ok(u) => match spec_parse_user(body) {
            Some(user) => Ok(user),
            None => Err(ErrorModel::DeserializeFailure),
        },
    }
}

/// Model of a user-returning exchange result.
pub open spec fn user_outcome_model(r: Result<User, ClassifiedError>) -> Result<
    UserModel,
    ErrorModel,
> {
    match r {
        Ok(u) => Ok(u@),
        Err(e) => Err(e@),
    }
}

/// Interprets a response on the current-user (login) path: a 401 here is
/// `InvalidToken`; a success body must hold the user record.
pub fn interpret_current_user_response(status: u16, body: &str, retry_after_ms: Option<u64>) -> (r:
    Result<User, ClassifiedError>)
    ensures
        user_outcome_model(r) == spec_user_outcome(
            RestCall::CurrentUser,
            status,
            body@,
            retry_after_ms,
        ),
{
    match interpret_response(RestCall::CurrentUser, status, body, retry_after_ms) {
        Err(e) => Err(e),
        Ok(u) => match parse_user(body) {
            Some(user) => Ok(user),
            None => Err(ClassifiedError::DeserializeFailure),
        },
    }
}

/// Interprets a response for a user fetched by id: a 401 here stays
/// `Unauthorized`.
pub fn interpret_user_response(status: u16, body: &str, retry_after_ms: Option<u64>) -> (r: Result<
    User,
    ClassifiedError,
>)
    ensures
        user_outcome_model(r) == spec_user_outcome(RestCall::User, status, body@, retry_after_ms),
{
    match interpret_response(RestCall::User, status, body, retry_after_ms) {
        Err(e) => Err(e),
        Ok(u) => match parse_user(body) {
            Some(user) => Ok(user),
            None => Err(ClassifiedError::DeserializeFailure),
        },
    }
}

/// What a gateway-discovery exchange yields.
pub open spec fn spec_gateway_outcome(
    status: u16,
    body: Seq<char>,
    retry_after_ms: Option<u64>,
) -> Result<Seq<char>, ErrorModel> {
    match spec_interpret(RestCall::Gateway, status, body, retry_after_ms) {
        Err(e) => Err(e),
        Ok(u) => match spec_parse_gateway_url(body) {
            Some(url) => Ok(url),
            None => Err(ErrorModel::DeserializeFailure),
        },
    }
}

/// Interprets a gateway-discovery response: the record is just the socket
/// URL.
pub fn interpret_gateway_response(status: u16, body: &str, retry_after_ms: Option<u64>) -> (r:
    Result<Gateway, ClassifiedError>)
    ensures
        (match r {
            Ok(g) => spec_gateway_outcome(status, body@, retry_after_ms) == Ok::<
                Seq<char>,
                ErrorModel,
            >(g.url@),
            Err(e) => spec_gateway_outcome(status, body@, retry_after_ms) == Err::<
                Seq<char>,
                ErrorModel,
            >(e@),
        }),
{
    match interpret_response(RestCall::Gateway, status, body, retry_after_ms) {
        Err(e) => Err(e),
        Ok(u) => match parse_gateway(body) {
            Some(g) => Ok(g),
            None => Err(ClassifiedError::DeserializeFailure),
        },
    }
}

/// What a bot-gateway exchange yields.
pub open spec fn spec_bot_gateway_outcome(
    status: u16,
    body: Seq<char>,
    retry_after_ms: Option<u64>,
) -> Result<(Seq<char>, i64, (i64, i64, i64, i64)), ErrorModel> {
    match spec_interpret(RestCall::GatewayBot, status, body, retry_after_ms) {
        Err(e) => Err(e),
        Ok(u) => match spec_parse_bot_gateway(body) {
            Some(record) => Ok(record),
            None => Err(ErrorModel::DeserializeFailure),
        },
    }
}

/// Interprets a bot-gateway response.
pub fn interpret_bot_gateway_response(status: u16, body: &str, retry_after_ms: Option<u64>) -> (r:
    Result<BotGateway, ClassifiedError>)
    ensures
        (match r {
            Ok(g) => spec_bot_gateway_outcome(status, body@, retry_after_ms) == Ok::<
                (Seq<char>, i64, (i64, i64, i64, i64)),
                ErrorModel,
            >(
                (
                    g.url@,
                    g.shards,
                    (
                        g.session_start_limit.total,
                        g.session_start_limit.remaining,
                        g.session_start_limit.reset_after,
                        g.session_start_limit.max_concurrency,
                    ),
                ),
            ),
            Err(e) => spec_bot_gateway_outcome(status, body@, retry_after_ms) == Err::<
                (Seq<char>, i64, (i64, i64, i64, i64)),
                ErrorModel,
            >(e@),
        }),
{
    match interpret_response(RestCall::GatewayBot, status, body, retry_after_ms) {
        Err(e) => Err(e),
        Ok(u) => match parse_bot_gateway(body) {
            Some(g) => Ok(g),
            None => Err(ClassifiedError::DeserializeFailure),
        },
    }
}

} // verus!
