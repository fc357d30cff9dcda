//! Streaming-response core of a terminal chat client for language-model
//! backends: wire-format parsers, the turn state machine and the conversation
//! accumulator, each with a machine-checked contract.

pub mod app;
pub mod buffer;
pub mod cancel;
pub mod chat;
pub mod chatgpt;
pub mod config;
pub mod event;
pub mod exchange;
pub mod gemini;
pub mod gpt;
pub mod history;
pub mod json;
pub mod llamacpp;
pub mod llm;
pub mod notification;
pub mod ollama;
pub mod pattern;
pub mod prompt;
pub mod registry;
pub mod stream;
pub mod text;
pub mod tts;
pub mod utils;
pub mod xai;
