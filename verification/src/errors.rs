//! Legacy exception shims: string-labelled failures for callers that want
//! one flat error surface instead of the structured taxonomy.

use vstd::prelude::*;

verus! {

/// All flat exceptions of this crate answer with a labelled cause string.
pub trait RustyCordError {
    fn cause(&self) -> String;
}

/// A failure in the client facade.
#[derive(Debug, Clone)]
pub struct ClientException(pub String);

impl RustyCordError for ClientException {
    fn cause(&self) -> String {
        "ClientException(".to_owned().concat(self.0.as_str()).concat(")")
    }
}

/// A failure in the REST pipeline.
#[derive(Debug, Clone)]
pub struct HTTPException(pub String);

impl RustyCordError for HTTPException {
    fn cause(&self) -> String {
        "HTTPException(".to_owned().concat(self.0.as_str()).concat(")")
    }
}

/// A request refused for want of authorization.
#[derive(Debug, Clone)]
pub struct UnauthorizedException(pub String);

impl RustyCordError for UnauthorizedException {
    fn cause(&self) -> String {
        "UnauthorizedException(".to_owned().concat(self.0.as_str()).concat(")")
    }
}

/// A failed login.
#[derive(Debug, Clone)]
pub struct LoginException(pub String);

impl RustyCordError for LoginException {
    fn cause(&self) -> String {
        "LoginException(".to_owned().concat(self.0.as_str()).concat(")")
    }
}

} // verus!
