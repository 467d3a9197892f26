//! The client: how it gets in, and what it does once it is in.
use vstd::prelude::*;

use crate::net::{Ipv4Addr, Ipv4Net};

pub mod credentials;
pub mod preauth;
pub mod route;
pub mod setup;
pub mod supervisor;
pub mod telemetry;

verus! {

/// With what the client's end of the tunnel is set up.
#[derive(Debug, Clone, PartialEq, Eq)]
pub struct ClientTunParams {
    pub assigned_ip: Ipv4Addr,
    pub subnet: Ipv4Net,
    pub gateway: Ipv4Addr,
    pub mtu: u16,
    pub routes: Vec<Ipv4Net>,
}

} // verus!
