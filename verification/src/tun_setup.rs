//! The addresses of the tunnel's device.
use vstd::prelude::*;

use crate::net;
use crate::net::{Ipv4Addr, Ipv4Net};

verus! {

/// The address of the server in the tunnel: the first behind the network's own.
pub fn gateway_addr(subnet: Ipv4Net) -> (r: Ipv4Addr)
    requires
        subnet@.network() < u32::MAX,
    ensures
        r.bits == subnet@.network() + 1,
{
    let net = subnet.network().bits;
    Ipv4Addr { bits: net + 1 }
}

/// The gateway of a network from which addresses can be handed out lies in the network, is not
/// the network's own address, and is never handed out.
pub proof fn law_gateway_is_reserved(subnet: net::NetModel)
    requires
        subnet.wf(),
        1 <= subnet.prefix <= 30,
    ensures
        subnet.network() < u32::MAX,
        subnet.holds(subnet.network() + 1),
        !crate::ipam::PoolModel::fresh(subnet).in_pool(1),
{
    net::lemma_network_bounds(subnet);
    crate::ipam::law_fresh_pool_has_all_but_three(subnet);
}

/// The address of the server in the tunnel is the one behind the network's own.
pub proof fn law_gateway_follows_the_network(subnet: Ipv4Net, r: Ipv4Addr)
    requires
        call_ensures(gateway_addr, (subnet,), r),
    ensures
        r.bits - subnet@.network() == 1,
{
}

} // verus!
