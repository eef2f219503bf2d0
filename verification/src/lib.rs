//! Vendor-abstraction layer for calling large-language-model backends.
//!
//! The library converts an internal conversation/tool representation into
//! the wire shape of the Gemini backend, decides retries for the transport
//! layer, and parses streamed or batched responses back into a normalized,
//! ordered event sequence. A separate deny-list component classifies shell
//! commands against configured regex patterns.

pub mod deny_list;
pub mod endpoint;
pub mod model;
pub mod requests;
pub mod retry;
pub mod sse;
pub mod text;
