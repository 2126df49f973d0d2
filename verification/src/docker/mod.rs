//! Docker-side logic: container label parsing, the spec a container asks
//! for, and the decisions the event watcher takes.
pub mod events;
pub mod inspect;
pub mod labels;
pub mod spec;
