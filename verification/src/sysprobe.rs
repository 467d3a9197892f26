//! What a client reports of the machine that it runs on.
pub mod collector;
pub mod collectors;
pub mod port;
pub mod proto;
pub mod sink;
