//! The client facade core: builder-validated configuration, the login
//! outcome, and the gateway-discovery fallback.
//!
//! The facade owns the credential and composes the REST pipeline with the
//! gateway session. The transport around it performs the HTTP exchanges
//! and drives the socket; every decision — whether login succeeded, which
//! URL the gateway connect uses, how a discovery failure is absorbed — is
//! made by the functions here.

use vstd::prelude::*;

verus! {

use crate::error::ClassifiedError;
use crate::error::ErrorModel;
use crate::http::RestCall;
use crate::http::interpret_current_user_response;
use crate::http::spec_user_outcome;
use crate::models::gateway::Gateway;
use crate::models::token::Token;
use crate::models::token::token_blank;
use crate::models::user::User;
use crate::session::Session;
use crate::session::initial_session;
use crate::session::session_wf;

/// A failure of the login path: a bad credential is terminal, anything
/// else carries its REST classification.
#[derive(Debug)]
pub enum LoginError {
    InvalidToken,
    Rest(ClassifiedError),
}

/// A failure of the gateway connect path, carrying its classification.
#[derive(Debug)]
pub enum ConnectError {
    Gateway(ClassifiedError),
}

/// Maps a REST classification onto the login path: `InvalidToken` is
/// surfaced as itself, terminal and non-retryable; every other kind is
/// carried through.
pub fn login_error_of(e: ClassifiedError) -> (r: LoginError)
    ensures
        e@ == ErrorModel::InvalidToken ==> r is InvalidToken,
        e@ != ErrorModel::InvalidToken ==> (r matches LoginError::Rest(e2) && e2@ == e@),
{
    match e {
        ClassifiedError::InvalidToken => LoginError::InvalidToken,
        other => LoginError::Rest(other),
    }
}

/// Maps a classified failure onto the connect path.
pub fn connect_error_of(e: ClassifiedError) -> (r: ConnectError)
    ensures
        r matches ConnectError::Gateway(e2) && e2@ == e@,
{
    ConnectError::Gateway(e)
}

/// The well-known gateway host substituted when discovery fails.
pub fn default_gateway_url() -> (r: &'static str)
    ensures
        r@ == "wss://gateway.discord.gg"@,
{
    "wss://gateway.discord.gg"
}

/// The socket URL a connect actually uses: the discovered one, or — on any
/// classified discovery failure — the documented default host, flagged so
/// the caller surfaces a warning rather than swallowing the substitution.
pub fn resolve_gateway_url(r: &Result<Gateway, ClassifiedError>) -> (u: (String, bool))
    ensures
        (match r {
            Ok(g) => u.0@ == g.url@ && u.1 == false,
            Err(e) => u.0@ == "wss://gateway.discord.gg"@ && u.1 == true,
        }),
{
    match r {
        Ok(g) => (g.url.clone(), false),
        Err(e) => (default_gateway_url().to_owned(), true),
    }
}

/// The gateway URL with the API version and encoding suffix the socket
/// handshake requires.
pub fn versioned_gateway_url(base: &str) -> (r: String)
    ensures
        r@ == base@ + "/?v=9&encoding=json"@,
{
    base.to_owned().concat("/?v=9&encoding=json")
}

/// The client core: the validated credential, the declared intents, the
/// gateway session and the logged-in user.
#[derive(Debug)]
pub struct Client {
    pub token: Token,
    pub intents: u64,
    pub session: Session,
    pub user: Option<User>,
}

impl Client {
    /// Starts building a client.
    pub fn builder() -> (r: ClientBuilder)
        ensures
            r.token is None,
            r.intents == 0,
    {
        ClientBuilder::new()
    }

    /// Applies the current-user response of the login exchange: on success
    /// the user record is stored; a 401 surfaces as `InvalidToken`.
    pub fn login_outcome(&mut self, status: u16, body: &str, retry_after_ms: Option<u64>) -> (r:
        Result<(), LoginError>)
        ensures
            final(self).token == old(self).token,
            final(self).intents == old(self).intents,
            final(self).session == old(self).session,
            (match r {
                Ok(u) => (spec_user_outcome(RestCall::CurrentUser, status, body@, retry_after_ms)
                    matches Ok(um) && final(self).user matches Some(usr) && usr@ == um),
                Err(le) => final(self).user == old(self).user && (match spec_user_outcome(
                    RestCall::CurrentUser,
                    status,
                    body@,
                    retry_after_ms,
                ) {
                    Err(e) => (e == ErrorModel::InvalidToken ==> le is InvalidToken) && (e
                        != ErrorModel::InvalidToken ==> (le matches LoginError::Rest(ce) && ce@
                        == e)),
                    Ok(um) => false,
                }),
            }),
    {
        match interpret_current_user_response(status, body, retry_after_ms) {
            Ok(user) => {
                self.user = Some(user);
                Ok(())
            },
            Err(e) => Err(login_error_of(e)),
        }
    }
}

/// Builder configuration: the credential source and the declared intents.
#[derive(Debug)]
pub struct ClientBuilder {
    pub token: Option<Token>,
    pub intents: u64,
}

impl Default for ClientBuilder {
    /// The same fresh builder `new` returns.
    fn default() -> (r: ClientBuilder)
        ensures
            r.token is None,
            r.intents == 0,
    {
        ClientBuilder::new()
    }
}

impl ClientBuilder {
    /// A fresh builder with nothing set.
    pub fn new() -> (r: ClientBuilder)
        ensures
            r.token is None,
            r.intents == 0,
    {
        ClientBuilder { token: None, intents: 0 }
    }

    /// Sets the bot credential.
    pub fn token(self, token: &str) -> (r: ClientBuilder)
        ensures
            r.token matches Some(t) && t.0@ == token@,
            r.intents == self.intents,
    {
        ClientBuilder { token: Some(Token(token.to_owned())), intents: self.intents }
    }

    /// Declares the gateway intents.
    pub fn intents(self, intents: u64) -> (r: ClientBuilder)
        ensures
            r.token == self.token,
            r.intents == intents,
    {
        ClientBuilder { token: self.token, intents }
    }

    /// Builds the client core. A missing, empty or blank credential is
    /// rejected with `InvalidToken` before any request is made.
    pub fn build(self) -> (r: Result<Client, ClassifiedError>)
        ensures
            (match self.token {
                None => (r matches Err(e) && e@ == ErrorModel::InvalidToken),
                Some(t) => if token_blank(t.0@) {
                    r matches Err(e) && e@ == ErrorModel::InvalidToken
                } else {
                    r matches Ok(c) && c.token == t && c.intents == self.intents && c.user is None
                        && c.session@ == initial_session() && session_wf(c.session@)
                },
            }),
    {
        match self.token {
            None => Err(ClassifiedError::InvalidToken),
            Some(t) => {
                if t.is_empty() {
                    Err(ClassifiedError::InvalidToken)
                } else {
                    Ok(
                        Client {
                            token: t,
                            intents: self.intents,
                            session: Session::new(),
                            user: None,
                        },
                    )
                }
            },
        }
    }
}

} // verus!
