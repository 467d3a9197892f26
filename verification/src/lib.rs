//! A point-to-site VPN over QUIC: the rules that server and client share.
//!
//! Everything here works on plain values. Sockets, files, timers and tasks
//! stand around this library; they hand it what they read and do what it
//! answers.
pub mod auth;
pub mod client;
pub mod config;
pub mod ctrl;
pub mod data;
pub mod io_error;
pub mod ipam;
pub mod msgx;
pub mod net;
pub mod quic_link;
pub mod shutdown;
pub mod sysprobe;
pub mod text;
pub mod time;
pub mod tun_setup;
pub mod user_store;
pub mod vpn;
