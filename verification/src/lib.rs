//! The verified core of a C interface to LLM completions: reading what C
//! callers pass (strings, messages, tools with their parameter schemas,
//! extensions), the decisions on the way to a provider, and what is handed back.
pub mod batch;
pub mod extension;
pub mod json;
pub mod ffi;
pub mod message;
pub mod provider;
pub mod role;
pub mod text;
pub mod tool;
