//! The SOCKS5 protocol: wire types, client session and server session.

pub mod client;
pub mod credentials;
pub mod exchange;
pub mod proto;
pub mod server;
