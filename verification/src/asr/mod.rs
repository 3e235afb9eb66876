//! From speech to text: cleaning up what a recogniser returns.

pub mod filler;
pub mod prompt_echo;
pub mod whisper;
