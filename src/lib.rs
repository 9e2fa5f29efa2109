//! The connection state machine of a capability-based RPC protocol: the
//! question, answer, import, export and embargo tables, the queued client that
//! buffers calls on an unresolved promise, and the dispatch of inbound
//! messages. Every step is a function from state and event to next state and
//! the messages to send; the transport that carries them lives outside.
pub mod connection;
pub mod error;
pub mod message;
pub mod queued;
pub mod system;
pub mod table;
