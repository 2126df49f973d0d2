//! The periodic sweep's planning step.
pub mod plan;
