//! Messages over a stream of bytes: how they are framed, and how long to wait for them.
pub mod channel;
pub mod codec;
pub mod keepalive;
