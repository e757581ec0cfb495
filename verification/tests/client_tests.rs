//! Tests of the facade core: builder validation, the login outcome, and
//! the gateway-discovery fallback.

use rustycord::client::Client;
use rustycord::client::ClientBuilder;
use rustycord::client::LoginError;
use rustycord::client::resolve_gateway_url;
use rustycord::client::versioned_gateway_url;
use rustycord::error::ClassifiedError;
use rustycord::errors::ClientException;
use rustycord::errors::HTTPException;
use rustycord::errors::LoginException;
use rustycord::errors::RustyCordError;
use rustycord::errors::UnauthorizedException;
use rustycord::models::gateway::Gateway;
use rustycord::models::token::Token;

#[test]
fn builder_accepts_a_real_token() {
    let client = ClientBuilder::new().token("bot-credential-0123456789").intents(513).build().unwrap();
    assert_eq!(client.token.0, "bot-credential-0123456789");
    assert_eq!(client.intents, 513);
    assert!(client.user.is_none());
}

#[test]
fn builder_rejects_missing_empty_and_blank_tokens() {
    assert!(matches!(ClientBuilder::new().build(), Err(ClassifiedError::InvalidToken)));
    assert!(matches!(
        ClientBuilder::new().token("").build(),
        Err(ClassifiedError::InvalidToken)
    ));
    assert!(matches!(
        ClientBuilder::new().token(" \t\r\n ").build(),
        Err(ClassifiedError::InvalidToken)
    ));
}

#[test]
fn token_blankness_follows_trimming() {
    assert!(Token(String::new()).is_empty());
    assert!(Token(String::from("   ")).is_empty());
    assert!(Token(String::from("\u{00a0}\u{2003}")).is_empty());
    assert!(!Token(String::from(" x ")).is_empty());
}

#[test]
fn builder_entry_point_on_the_client() {
    let b = Client::builder();
    assert!(b.token.is_none());
    assert_eq!(b.intents, 0);
}

#[test]
fn login_outcome_stores_the_user() {
    let mut client = ClientBuilder::new().token("tok").build().unwrap();
    let body = "{\"id\":\"7\",\"username\":\"bot\",\"discriminator\":\"0001\"}";
    client.login_outcome(200, body, None).unwrap();
    let user = client.user.as_ref().unwrap();
    assert_eq!(user.user_name, "bot");
    assert_eq!(user.id.value, 7);
}

#[test]
fn login_outcome_surfaces_a_bad_credential() {
    let mut client = ClientBuilder::new().token("tok").build().unwrap();
    let r = client.login_outcome(401, "{\"code\":0,\"message\":\"401: Unauthorized\"}", None);
    assert!(matches!(r, Err(LoginError::InvalidToken)));
    assert!(client.user.is_none());
}

#[test]
fn login_outcome_carries_other_failures_through() {
    let mut client = ClientBuilder::new().token("tok").build().unwrap();
    let r = client.login_outcome(503, "", None);
    assert!(matches!(r, Err(LoginError::Rest(ClassifiedError::ServerError { status: 503 }))));
}

#[test]
fn discovery_failure_falls_back_to_the_default_host_with_a_warning() {
    let failed: Result<Gateway, ClassifiedError> = Err(ClassifiedError::ServerError {
        status: 500,
    });
    let (url, warned) = resolve_gateway_url(&failed);
    assert_eq!(url, "wss://gateway.discord.gg");
    assert!(warned);
    let fine: Result<Gateway, ClassifiedError> = Ok(Gateway {
        url: String::from("wss://somewhere.example"),
    });
    let (url, warned) = resolve_gateway_url(&fine);
    assert_eq!(url, "wss://somewhere.example");
    assert!(!warned);
}

#[test]
fn connect_url_carries_version_and_encoding() {
    assert_eq!(
        versioned_gateway_url("wss://gateway.discord.gg"),
        "wss://gateway.discord.gg/?v=9&encoding=json"
    );
}

#[test]
fn exceptions_answer_with_labelled_causes() {
    assert_eq!(ClientException(String::from("x")).cause(), "ClientException(x)");
    assert_eq!(HTTPException(String::from("y")).cause(), "HTTPException(y)");
    assert_eq!(
        UnauthorizedException(String::from("z")).cause(),
        "UnauthorizedException(z)"
    );
    assert_eq!(LoginException(String::from("w")).cause(), "LoginException(w)");
}
