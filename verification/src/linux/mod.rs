//! The Linux desktop: which helpers serve in a session, and what they are asked.

pub mod focus;
pub mod output;
pub mod overlay;
pub mod quoting;
pub mod shortcut;
pub mod terminal;
