//! A sans-I/O implementation of the SOCKS5 protocol (RFC 1928) and of its
//! username/password sub-negotiation (RFC 1929).
//!
//! The crate never touches a socket. Messages are encoded into byte vectors
//! and decoded from in-memory readers, and the client and server sessions are
//! state machines that are fed events and answer with the next action to take.
//! Every function carries a contract that is checked by Verus.

pub mod codec;
pub mod socks5;
