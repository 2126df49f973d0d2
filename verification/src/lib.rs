//! Keeps Nginx Proxy Manager proxy hosts in sync with labelled Docker containers.
//!
//! This crate holds the verified decision logic: label parsing, the ownership
//! marker kept in a proxy host's `meta`, reconciliation planning, the writer's
//! state machine, the retry policy and configuration validation.
use vstd::prelude::*;

pub mod cloudflare;
pub mod config;
pub mod docker;
pub mod intent;
pub mod keymap;
pub mod npm;
pub mod reconciler;
pub mod text;
pub mod writer;

verus! {

} // verus!
