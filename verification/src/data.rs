//! The packets that go through the tunnel.
use vstd::prelude::*;

use crate::io_error::IoError;
use crate::net;
use crate::net::Ipv4Addr;

verus! {

/// How many bytes of a packet are read from the device.
pub const TUN_RECV_BUF_SIZE: usize = 1280;

/// Whether a packet is one of IPv4 with a whole header.
pub open spec fn is_ipv4_packet(pkt: Seq<u8>) -> bool {
    pkt.len() >= 20 && pkt[0] / 16 == 4
}

/// The bytes of the address to which a packet goes.
pub open spec fn dst_octets(pkt: Seq<u8>) -> Seq<int> {
    pkt.subrange(16, 20).map_values(|b: u8| b as int)
}

/// The IPv4 address to which a packet goes.
pub fn dst_ipv4_addr(pkt: &[u8]) -> (r: Option<Ipv4Addr>)
    ensures
        match r {
            Some(a) => is_ipv4_packet(pkt@) && a.bits == net::octets_value(dst_octets(pkt@)),
            None => !is_ipv4_packet(pkt@),
        },
        r is Some <==> pkt@.len() >= 20 && 0x40 <= pkt@[0] <= 0x4f,
        r matches Some(a) ==> a.bits == 0x100_0000 * pkt@[16] + 0x1_0000 * pkt@[17] + 0x100
            * pkt@[18] + pkt@[19],
{
    if pkt.len() == 0 {
        return None;
    }
    let first = pkt[0];
    assert(first >> 4 == first / 16) by (bit_vector);
    if pkt.len() < 20 || first >> 4 != 4 {
        return None;
    }
    let a = Ipv4Addr::new(pkt[16], pkt[17], pkt[18], pkt[19]);
    assert(dst_octets(pkt@) =~= seq![
        pkt@[16] as int,
        pkt@[17] as int,
        pkt@[18] as int,
        pkt@[19] as int,
    ]);
    Some(a)
}

/// What the loop that takes packets from the tunnel has to do next.
#[derive(Debug)]
pub enum DownlinkAction {
    /// Hand a packet to whom it is for, and wait for the next.
    Dispatch(Vec<u8>),
    /// Stop.
    Stop(IoError),
}

/// What has to be done with what came from the tunnel: an error stops the loop.
pub fn downlink_step(received: Result<Vec<u8>, IoError>) -> (r: DownlinkAction)
    ensures
        r == match received {
            Ok(pkt) => DownlinkAction::Dispatch(pkt),
            Err(e) => DownlinkAction::Stop(e),
        },
{
    match received {
        Ok(pkt) => DownlinkAction::Dispatch(pkt),
        Err(e) => DownlinkAction::Stop(e),
    }
}

/// What a packet is for stands in its bytes 16 to 19, the most significant first, however long
/// it is: two packets with the same four bytes there are for the same address. A packet is one of
/// IPv4 if it has a whole header and its first byte says so.
pub proof fn law_destination_is_in_four_bytes(pkt: Seq<u8>)
    ensures
        is_ipv4_packet(pkt) <==> pkt.len() >= 20 && 0x40 <= pkt[0] <= 0x4f,
        pkt.len() >= 20 ==> net::octets_value(dst_octets(pkt)) == 0x100_0000 * pkt[16] + 0x1_0000
            * pkt[17] + 0x100 * pkt[18] + pkt[19],
{
    if pkt.len() >= 20 {
        assert(dst_octets(pkt) =~= seq![
            pkt[16] as int,
            pkt[17] as int,
            pkt[18] as int,
            pkt[19] as int,
        ]);
    }
}

} // verus!
