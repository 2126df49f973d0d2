//! Secrets read from the environment. The environment is handed in as a map
//! from variable names to their values.
use vstd::prelude::*;
use crate::keymap::KeyMap;

verus! {

/// A required environment variable is not set.
#[derive(Debug, PartialEq, Eq)]
pub enum SecretError {
    Missing(String),
}

/// The value of a required variable.
pub fn require(env: &KeyMap<String>, key: &str) -> (r: Result<String, SecretError>)
    ensures
        match r {
            Ok(v) => env@.contains_key(key@) && v@ == env@[key@]@,
            Err(SecretError::Missing(k)) => !env@.contains_key(key@) && k@ == key@,
        },
{
    match env.get(key) {
        Some(v) => Ok(v.clone()),
        None => Err(SecretError::Missing(String::from_str(key))),
    }
}

/// The value of an optional variable; an empty value counts as unset.
pub fn optional(env: &KeyMap<String>, key: &str) -> (r: Option<String>)
    ensures
        match r {
            Some(v) => env@.contains_key(key@) && v@ == env@[key@]@ && v@.len() > 0,
            None => !env@.contains_key(key@) || env@[key@]@.len() == 0,
        },
{
    match env.get(key) {
        Some(v) => if v.as_str().unicode_len() == 0 {
            None
        } else {
            Some(v.clone())
        },
        None => None,
    }
}

} // verus!
