//! A scripted backend and the checks that any backend must pass.

pub mod conformance;
pub mod scripted;
