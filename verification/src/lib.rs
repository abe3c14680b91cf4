//! A local gateway library that translates between two OpenAI-compatible wire
//! protocols: the Chat-Completions shape and the Responses shape.  The modules
//! here hold the verified core: request normalization, protocol translation,
//! Server-Sent-Event reassembly, the streaming bridge state machine, and the
//! bearer-token gate, together with the session-browser labelling helpers.

pub mod strings;
pub mod json;
pub mod sse;
pub mod stream;
pub mod translate;
pub mod gateway;
pub mod titles;
pub mod resume;
