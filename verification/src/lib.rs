//! The wire protocol of a small chat service: length-prefixed frames that
//! carry JSON messages, and the state machines that client and server run
//! over them.

pub mod connection;
pub mod error;
pub mod frame;
pub mod json;
pub mod messages;
