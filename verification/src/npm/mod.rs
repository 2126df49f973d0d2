//! Nginx Proxy Manager: the records it stores, the ownership marker this
//! service keeps in them, and the errors its API calls end in.
use vstd::prelude::*;

pub mod auth;
pub mod certificates;
pub mod meta;
pub mod proxy_hosts;
pub mod types;

use crate::npm::auth::AuthError;
use crate::npm::certificates::CertError;
use crate::npm::proxy_hosts::ProxyHostError;

verus! {

/// How a call to the NPM API failed.
#[derive(Debug, PartialEq, Eq)]
pub enum NpmError {
    Auth(AuthError),
    ProxyHost(ProxyHostError),
    Cert(CertError),
}

impl NpmError {
    /// The HTTP status NPM answered with, when the call got an answer.
    pub fn status(&self) -> (r: Option<u16>)
        ensures
            r == npm_error_status(*self),
    {
        match self {
            NpmError::Auth(AuthError::Status(s)) => Some(*s),
            NpmError::ProxyHost(ProxyHostError::Status(s)) => Some(*s),
            NpmError::Cert(CertError::Status(s)) => Some(*s),
            _ => None,
        }
    }

    /// Whether the call failed before an answer came (a transport error).
    pub fn is_transport(&self) -> (b: bool)
        ensures
            b == npm_error_is_transport(*self),
    {
        match self {
            NpmError::Auth(AuthError::Http(_)) => true,
            NpmError::ProxyHost(ProxyHostError::Http(_)) => true,
            NpmError::Cert(CertError::Http(_)) => true,
            _ => false,
        }
    }
}

/// The HTTP status an error carries.
pub open spec fn npm_error_status(e: NpmError) -> Option<u16> {
    match e {
        NpmError::Auth(AuthError::Status(s)) => Some(s),
        NpmError::ProxyHost(ProxyHostError::Status(s)) => Some(s),
        NpmError::Cert(CertError::Status(s)) => Some(s),
        _ => None,
    }
}

/// The error is a transport failure.
pub open spec fn npm_error_is_transport(e: NpmError) -> bool {
    match e {
        NpmError::Auth(AuthError::Http(_)) => true,
        NpmError::ProxyHost(ProxyHostError::Http(_)) => true,
        NpmError::Cert(CertError::Http(_)) => true,
        _ => false,
    }
}

} // verus!
