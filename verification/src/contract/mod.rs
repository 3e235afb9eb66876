//! The versioned contract between the window and the backend.

pub mod codec;
pub mod dto;
pub mod envelope;
pub mod ids;
pub mod settings;
