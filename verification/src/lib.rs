//! Core logic of a worker-pool dispatcher for LLM provider APIs: bounded
//! request/response queues, an active-request counter for idle detection,
//! JSON field-path navigation over provider responses, an SSE stream parser,
//! a non-streaming body accumulator, and a retry-with-backoff state machine.

pub mod base_llm;
pub mod config;
pub mod counter;
pub mod engine;
pub mod json;
pub mod queue;
pub mod retry;
pub mod stream;
pub mod text;

pub use counter::ActiveRequestCounter;
pub use json::Json;
pub use json::Seg;
