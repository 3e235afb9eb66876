//! Dictation logic with machine-checked contracts.

pub mod arith;
pub mod asr;
pub mod audio;
pub mod client;
pub mod contract;
pub mod daemon;
pub mod decimal;
pub mod gui;
pub mod insertion;
pub mod json;
pub mod linux;
pub mod llm;
pub mod macos;
pub mod migrate;
pub mod paths;
pub mod platform;
pub mod server;
pub mod service;
pub mod split;
pub mod state;
pub mod storage;
pub mod testing;
pub mod text;
