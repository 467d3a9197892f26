//! The connection: what its ends are made from, how it is kept alive, and how packets cross it.
pub mod datagram;
pub mod endpoint;
pub mod keepalive;
pub mod session;
pub mod tls;
