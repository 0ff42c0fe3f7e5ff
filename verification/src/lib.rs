//! Streaming response coordinator for a single-conversation chat server.
//!
//! The crate owns the conversation transcript, decides when streamed text is
//! flushed, when enough sentences have accumulated to hand a span to speech
//! synthesis, how tool calls are dispatched and patched in, and which events
//! are published, in which order, to the attached subscriber.

pub mod message;
pub mod text;
pub mod store;
pub mod event;
pub mod encoding;
pub mod broadcaster;
pub mod state;
pub mod flusher;
pub mod sentences;
pub mod audio;
pub mod coordinator;
pub mod templates;
pub mod tools;
