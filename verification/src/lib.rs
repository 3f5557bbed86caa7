//! Bridge between a streaming HTTP engine and an asynchronous,
//! message-driven request handler.
//!
//! The inbound half ([`receiver::Receiver`]) turns the request body into
//! pull-based reads for the handler; the outbound half ([`sender::Sender`])
//! validates the handler's protocol messages, drives a response accumulator
//! through its `Fresh -> Initialized -> Finalized` state machine, and
//! resolves a one-shot completion channel with the finished response.

pub mod headers;
pub mod laws;
pub mod protocol;
pub mod receiver;
pub mod sender;

pub use protocol::ProtocolError;
pub use receiver::Receiver;
pub use sender::Sender;
