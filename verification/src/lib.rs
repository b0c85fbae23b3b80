//! Verified core of a local OpenAI-compatible chat backend.

pub mod api;
pub mod error;
pub mod ids;
pub mod local_openai;
pub mod local_openai_text;
pub mod text;
