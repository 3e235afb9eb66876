//! Captured speech: silence, automatic stop, phrases and files.
//!
//! An energy is a non-negative double-precision number and is held here as its IEEE 754
//! bits, which order as the numbers do.

pub mod phrase_laws;
pub mod phrase_split;
pub mod silence;
pub mod source;
pub mod wav;
