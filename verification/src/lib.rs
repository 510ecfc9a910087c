//! Verified core of a small real-time group-chat backend.
//!
//! The library models the hub that authenticates streaming sessions, commits
//! chat actions to a message log, and fans the resulting events out to every
//! connected session: the message store, the broadcast bus, the session
//! lifecycle and frame dispatcher, the wire-frame codec, and the password
//! validator. HTTP, websocket and database plumbing live outside the library.

pub mod bus;
pub mod chat;
pub mod frame;
pub mod session;
pub mod store;
pub mod validator;
