//! Client-side engine for chat sessions fed by a resumable server-push
//! event stream: a line-oriented event decoder, the reduction of decoded
//! events to typed session events, and the per-session turn state machine.
pub mod display;
pub mod driver;
pub mod events;
pub mod panels;
pub mod session;
pub mod sse;
pub mod text;
