//! How NPM failures are classified for the retry policy.
use vstd::prelude::*;
use crate::npm::{NpmError, npm_error_is_transport, npm_error_status};
use crate::writer::retry::FailKind;

verus! {

/// The classification of an NPM failure: 401 asks for a new login; 5xx and
/// 429 are transient; other 4xx are not; a transport failure is transient;
/// any other status is not.
pub open spec fn npm_fail_kind(e: NpmError) -> FailKind {
    match npm_error_status(e) {
        Some(s) => if s == 401 {
            FailKind::Unauthorized
        } else if s >= 500 || s == 429 {
            FailKind::Transient
        } else {
            FailKind::NonTransient
        },
        None => if npm_error_is_transport(e) {
            FailKind::Transient
        } else {
            FailKind::NonTransient
        },
    }
}

/// Classifies an NPM failure for the retry policy.
pub fn classify_npm(e: &NpmError) -> (k: FailKind)
    ensures
        k == npm_fail_kind(*e),
{
    match e.status() {
        Some(401) => FailKind::Unauthorized,
        Some(s) if s >= 500 || s == 429 => FailKind::Transient,
        Some(_) => FailKind::NonTransient,
        None => if e.is_transport() {
            FailKind::Transient
        } else {
            FailKind::NonTransient
        },
    }
}

/// How NPM answers are treated: 401 logs in again; 429 and every 5xx are
/// retried; every other 4xx is not; a transport failure is retried.
pub proof fn lemma_npm_failure_classes(e: NpmError)
    ensures
        npm_error_status(e) == Some(401u16) ==> npm_fail_kind(e) == FailKind::Unauthorized,
        npm_error_status(e) == Some(429u16) ==> npm_fail_kind(e) == FailKind::Transient,
        npm_error_status(e) matches Some(s) && s >= 500 ==> npm_fail_kind(e) == FailKind::Transient,
        npm_error_status(e) matches Some(s) && 400 <= s < 500 && s != 401 && s != 429 ==> npm_fail_kind(e)
            == FailKind::NonTransient,
        npm_error_is_transport(e) ==> npm_fail_kind(e) == FailKind::Transient,
{
}

} // verus!
