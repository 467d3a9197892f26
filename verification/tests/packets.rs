use vpn::data::{downlink_step, dst_ipv4_addr, DownlinkAction};
use vpn::io_error::{IoError, IoErrorKind};
use vpn::net::{Ipv4Addr, Ipv4Net};
use vpn::tun_setup::gateway_addr;

fn ip_header(version_ihl: u8, dst: [u8; 4], total_len: usize) -> Vec<u8> {
    let mut pkt = vec![0u8; total_len];
    pkt[0] = version_ihl;
    pkt[16..20].copy_from_slice(&dst);
    pkt
}

#[test]
fn test_dst_ipv4_addr_standard_20_byte_packet_returns_some() {
    let pkt = ip_header(0x45, [10, 0, 0, 5], 20);
    assert_eq!(dst_ipv4_addr(&pkt), Some(Ipv4Addr::new(10, 0, 0, 5)));
}

#[test]
fn test_dst_ipv4_addr_40_byte_packet_returns_some() {
    let pkt = ip_header(0x45, [192, 168, 1, 1], 40);
    assert_eq!(dst_ipv4_addr(&pkt), Some(Ipv4Addr::new(192, 168, 1, 1)));
}

#[test]
fn test_dst_ipv4_addr_packet_shorter_than_20_bytes_returns_none() {
    let pkt = vec![0x45u8; 19];
    assert_eq!(dst_ipv4_addr(&pkt), None);
}

#[test]
fn test_dst_ipv4_addr_non_ipv4_version_returns_none() {
    let pkt = ip_header(0x60, [10, 0, 0, 1], 40);
    assert_eq!(dst_ipv4_addr(&pkt), None);
}

#[test]
fn test_dst_ipv4_addr_packet_with_options_returns_some() {
    let pkt = ip_header(0x46, [10, 0, 0, 2], 24);
    assert_eq!(dst_ipv4_addr(&pkt), Some(Ipv4Addr::new(10, 0, 0, 2)));
}

#[test]
fn test_dst_ipv4_addr_empty_packet_returns_none() {
    assert_eq!(dst_ipv4_addr(&[]), None);
}

#[test]
fn downlink_dispatches_until_error() {
    assert!(matches!(
        downlink_step(Ok(vec![1, 2, 3])),
        DownlinkAction::Dispatch(p) if p == vec![1, 2, 3]
    ));
    let e = IoError { kind: IoErrorKind::BrokenPipe, message: "gone".to_string() };
    assert!(matches!(
        downlink_step(Err(e.clone())),
        DownlinkAction::Stop(got) if got == e
    ));
}

#[test]
fn test_gateway_addr_for_24_returns_network_plus_one() {
    let subnet = Ipv4Net::parse("10.0.0.0/24").unwrap();
    assert_eq!(gateway_addr(subnet), Ipv4Addr::new(10, 0, 0, 1));
}

#[test]
fn test_gateway_addr_for_30_returns_network_plus_one() {
    let subnet = Ipv4Net::parse("10.0.0.0/30").unwrap();
    assert_eq!(gateway_addr(subnet), Ipv4Addr::new(10, 0, 0, 1));
}

#[test]
fn test_gateway_addr_for_16_returns_network_plus_one() {
    let subnet = Ipv4Net::parse("172.16.0.0/16").unwrap();
    assert_eq!(gateway_addr(subnet), Ipv4Addr::new(172, 16, 0, 1));
}

#[test]
fn gateway_comes_from_the_network_and_not_from_the_address() {
    let subnet = Ipv4Net::parse("172.16.9.9/16").unwrap();
    assert_eq!(gateway_addr(subnet), Ipv4Addr::new(172, 16, 0, 1));
}
