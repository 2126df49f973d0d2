//! Failures of the proxy-host endpoints.
use vstd::prelude::*;

verus! {

/// A failed proxy-host call: the transport failed (with its message), or NPM
/// answered with a non-success status.
#[derive(Debug, PartialEq, Eq)]
pub enum ProxyHostError {
    Http(String),
    Status(u16),
}

} // verus!
