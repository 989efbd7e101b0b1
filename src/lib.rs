//! A request/response protocol between named agents: framing, an
//! authenticated-encryption transport, the session state machines of both
//! roles, and the responder's abuse control.

pub mod abuse;
pub mod assoc;
pub mod bytes;
pub mod config;
pub mod crypto;
pub mod error;
pub mod keyring;
pub mod message;
pub mod policy;
pub mod protocol;
pub mod requester;
pub mod responder;
pub mod session;
