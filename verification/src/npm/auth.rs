//! NPM credentials and login failures.
use vstd::prelude::*;

verus! {

/// How the service authenticates to NPM.
#[derive(Debug, Clone, PartialEq, Eq)]
pub enum Credential {
    EmailPassword { email: String, password: String },
    Token(String),
}

/// A failed login: the transport failed (with its message), or NPM answered
/// with a non-success status.
#[derive(Debug, PartialEq, Eq)]
pub enum AuthError {
    Http(String),
    Status(u16),
}

} // verus!
