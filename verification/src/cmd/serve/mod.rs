//! `serve`: the HTTP server with the Ollama, OpenAI and Anthropic APIs in front
//! of the inference engines.

pub mod anthropic;
pub mod api;
pub mod chat;
pub mod engine;
pub mod load;
pub mod props;
pub mod registry;
pub mod responses;
pub mod start;
pub mod stream;
