//! A protocol-translating streaming proxy core: translates rich "Responses"
//! requests into flat chat-completion requests, turns the backend's chunk
//! stream into a sequenced output-item event stream, salvages tool calls that
//! arrive as in-band XML text, and gates requests behind a circuit breaker.

pub mod breaker;
pub mod dumps;
pub mod errors;
pub mod jsonval;
pub mod models;
pub mod orchestrator;
pub mod sequencer;
pub mod shim;
pub mod sse;
pub mod text;
pub mod translate;
pub mod xml;
