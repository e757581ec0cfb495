//! Tests of the REST response pipeline: status classification, the error
//! envelope, retry hints and the record readers.

use rustycord::error::ClassifiedError;
use rustycord::http::RestCall;
use rustycord::http::classify_response;
use rustycord::http::interpret_bot_gateway_response;
use rustycord::http::interpret_current_user_response;
use rustycord::http::interpret_gateway_response;
use rustycord::http::interpret_response;
use rustycord::http::interpret_user_response;
use rustycord::http::parse_api_error;
use rustycord::http::parse_bot_gateway;
use rustycord::http::parse_user;
use rustycord::http::retry_after_hint;

#[test]
fn unauthorized_on_login_path_is_invalid_token() {
    let body = "{\"code\":0,\"message\":\"401: Unauthorized\"}";
    let r = interpret_current_user_response(401, body, None);
    assert!(matches!(r, Err(ClassifiedError::InvalidToken)));
}

#[test]
fn unauthorized_elsewhere_stays_unauthorized() {
    let body = "{\"code\":0,\"message\":\"401: Unauthorized\"}";
    match interpret_user_response(401, body, None) {
        Err(ClassifiedError::Unauthorized { code, message }) => {
            assert_eq!(code, 0);
            assert_eq!(message, "401: Unauthorized");
        },
        other => panic!("expected unauthorized, got {:?}", other),
    }
}

#[test]
fn invalid_token_does_not_depend_on_the_body() {
    // even an unreadable body classifies the login 401 as a bad credential
    let r = interpret_current_user_response(401, "not json at all", None);
    assert!(matches!(r, Err(ClassifiedError::InvalidToken)));
}

#[test]
fn rate_limit_carries_the_hint() {
    let r = interpret_response(RestCall::Gateway, 429, "{\"code\":0,\"message\":\"slow down\"}", Some(1500));
    match r {
        Err(ClassifiedError::RateLimited { retry_after_ms }) => assert_eq!(retry_after_ms, 1500),
        other => panic!("expected rate limited, got {:?}", other),
    }
}

#[test]
fn rate_limit_defaults_to_zero_on_an_unreadable_body() {
    let r = interpret_response(RestCall::Gateway, 429, "garbage", None);
    match r {
        Err(ClassifiedError::RateLimited { retry_after_ms }) => assert_eq!(retry_after_ms, 0),
        other => panic!("expected rate limited, got {:?}", other),
    }
}

#[test]
fn retry_hint_prefers_the_header_then_the_body() {
    assert_eq!(retry_after_hint(Some(2000), "{\"retry_after\":900}"), 2000);
    assert_eq!(retry_after_hint(None, "{\"retry_after\":900}"), 900);
    assert_eq!(retry_after_hint(None, "not json"), 0);
}

#[test]
fn server_errors_are_transient() {
    for status in [500u16, 502, 503, 599] {
        match interpret_response(RestCall::Gateway, status, "", None) {
            Err(ClassifiedError::ServerError { status: s }) => assert_eq!(s, status),
            other => panic!("expected server error, got {:?}", other),
        }
    }
}

#[test]
fn client_errors_classify_by_status() {
    let body = "{\"code\":50035,\"message\":\"Invalid Form Body\"}";
    assert!(matches!(
        interpret_response(RestCall::User, 400, body, None),
        Err(ClassifiedError::BadRequest { code: 50035, .. })
    ));
    assert!(matches!(
        interpret_response(RestCall::User, 403, body, None),
        Err(ClassifiedError::Forbidden { .. })
    ));
    assert!(matches!(
        interpret_response(RestCall::User, 404, body, None),
        Err(ClassifiedError::NotFound { .. })
    ));
    // an unclassified failure status keeps its code
    assert!(matches!(
        interpret_response(RestCall::User, 418, body, None),
        Err(ClassifiedError::HttpStatus { status: 418 })
    ));
}

#[test]
fn unreadable_bodies_fall_back_to_the_status_keyed_kind() {
    for status in [400u16, 403, 404] {
        match interpret_response(RestCall::User, status, "not json", None) {
            Err(ClassifiedError::HttpStatus { status: s }) => assert_eq!(s, status),
            other => panic!("expected status-keyed fallback, got {:?}", other),
        }
    }
    // 401 never falls back: it is diagnostic for its path
    assert!(matches!(
        interpret_response(RestCall::User, 401, "not json", None),
        Err(ClassifiedError::Unauthorized { code: 0, .. })
    ));
}

#[test]
fn success_statuses_pass() {
    assert!(interpret_response(RestCall::User, 200, "", None).is_ok());
    assert!(interpret_response(RestCall::User, 204, "", None).is_ok());
}

#[test]
fn api_error_envelope_reads_back() {
    let body = "{\"code\":10013,\"message\":\"Unknown User\",\"errors\":\"detail\"}";
    let e = parse_api_error(body).unwrap();
    assert_eq!(e.code, 10013);
    assert_eq!(e.message, "Unknown User");
    assert_eq!(e.errors.as_deref(), Some("detail"));
    assert!(parse_api_error("{\"message\":\"no code\"}").is_none());
    assert!(parse_api_error("").is_none());
}

#[test]
fn user_record_reads_back() {
    let body = "{\"id\":\"80351110224678912\",\"username\":\"Nelly\",\"discriminator\":\"1337\",\"avatar\":\"8342729096ea3675442027381ff50dfe\",\"bot\":false,\"public_flags\":64}";
    let u = parse_user(body).unwrap();
    assert_eq!(u.id.value, 80351110224678912);
    assert_eq!(u.user_name, "Nelly");
    assert_eq!(u.discriminator, "1337");
    assert_eq!(u.avatar.as_deref(), Some("8342729096ea3675442027381ff50dfe"));
    assert_eq!(u.bot, Some(false));
    assert_eq!(u.public_flags, Some(64));
    assert_eq!(u.email, None);
    assert_eq!(u.flags, None);
}

#[test]
fn user_record_missing_identity_is_refused() {
    assert!(parse_user("{\"username\":\"Nelly\",\"discriminator\":\"1337\"}").is_none());
    assert!(parse_user("{\"id\":\"1\",\"username\":\"Nelly\"}").is_none());
}

#[test]
fn successful_login_body_must_hold_the_user() {
    let body = "{\"id\":\"1\",\"username\":\"bot\",\"discriminator\":\"0000\"}";
    let u = interpret_current_user_response(200, body, None).unwrap();
    assert_eq!(u.user_name, "bot");
    // a success status with a record that does not read back is surfaced
    let r = interpret_current_user_response(200, "{\"unexpected\":true}", None);
    assert!(matches!(r, Err(ClassifiedError::DeserializeFailure)));
}

#[test]
fn gateway_discovery_reads_the_url() {
    let g = interpret_gateway_response(200, "{\"url\":\"wss://gateway.discord.gg\"}", None).unwrap();
    assert_eq!(g.url, "wss://gateway.discord.gg");
    let r = interpret_gateway_response(500, "oops", None);
    assert!(matches!(r, Err(ClassifiedError::ServerError { status: 500 })));
}

#[test]
fn bot_gateway_reads_the_whole_record() {
    let body = "{\"url\":\"wss://gateway.discord.gg\",\"shards\":9,\"session_start_limit\":{\"total\":1000,\"remaining\":999,\"reset_after\":14400000,\"max_concurrency\":1}}";
    let g = parse_bot_gateway(body).unwrap();
    assert_eq!(g.url, "wss://gateway.discord.gg");
    assert_eq!(g.shards, 9);
    assert_eq!(g.session_start_limit.total, 1000);
    assert_eq!(g.session_start_limit.remaining, 999);
    assert_eq!(g.session_start_limit.reset_after, 14400000);
    assert_eq!(g.session_start_limit.max_concurrency, 1);
    let via = interpret_bot_gateway_response(200, body, None).unwrap();
    assert_eq!(via.shards, 9);
}

#[test]
fn classification_sees_parsed_envelope_fields() {
    let body = parse_api_error("{\"code\":20028,\"message\":\"rate limited channel\"}");
    match classify_response(RestCall::User, 400, &body, None) {
        Err(ClassifiedError::BadRequest { code, message }) => {
            assert_eq!(code, 20028);
            assert_eq!(message, "rate limited channel");
        },
        other => panic!("expected bad request, got {:?}", other),
    }
}
