//! The backend: what it answers to requests, and what becomes of a recording.

pub mod backend;
pub mod dictate;
pub mod events;
pub mod handle;
pub mod pipeline;
pub mod recording;
