//! Client-side engine for a signed, real-time chat protocol.
//!
//! The library holds the message model, the canonical wire codec, the
//! pending-request table that correlates responses with requests, and the
//! decision logic of the connection engine and of the logon handshake.
//! Sockets, tasks and timers live with the caller, which feeds events in and
//! performs the actions that come out.

pub mod text;
pub mod message;
pub mod wire;
pub mod parse;
pub mod decode;
pub mod envelope;
pub mod error;
pub mod identity;
pub mod clock;
pub mod pending;
pub mod engine;
pub mod logon;
pub mod roundtrip;
