use vpn::net::{Ipv4Addr, Ipv4Net};

#[test]
fn address_text_and_back() {
    for (a, t) in [
        (Ipv4Addr::new(0, 0, 0, 0), "0.0.0.0"),
        (Ipv4Addr::new(10, 0, 0, 1), "10.0.0.1"),
        (Ipv4Addr::new(255, 255, 255, 255), "255.255.255.255"),
        (Ipv4Addr::new(192, 168, 100, 7), "192.168.100.7"),
    ] {
        assert_eq!(a.to_text(), t);
        assert_eq!(Ipv4Addr::parse(t), Some(a));
    }
    assert_eq!(Ipv4Addr::new(1, 2, 3, 4).octets(), [1, 2, 3, 4]);
}

#[test]
fn address_texts_that_are_none() {
    for t in [
        "", "1", "1.2.3", "1.2.3.4.5", "256.0.0.1", "1.2.3.4 ", " 1.2.3.4", "1..2.3", "01.2.3.4",
        "1.2.3.a", "+1.2.3.4", "1.2.3.", "not-an-ip", "1.2.3.4444",
    ] {
        assert_eq!(Ipv4Addr::parse(t), None, "{t}");
    }
}

#[test]
fn network_text_and_back() {
    let n = Ipv4Net::parse("10.1.2.3/8").unwrap();
    assert_eq!(n.addr(), Ipv4Addr::new(10, 1, 2, 3));
    assert_eq!(n.prefix_len(), 8);
    assert_eq!(n.network(), Ipv4Addr::new(10, 0, 0, 0));
    assert_eq!(n.size(), 1 << 24);
    assert_eq!(n.to_text(), "10.1.2.3/8");
    assert_eq!(Ipv4Net::parse(&n.to_text()), Some(n));
    assert!(n.contains(Ipv4Addr::new(10, 255, 255, 255)));
    assert!(!n.contains(Ipv4Addr::new(11, 0, 0, 0)));
}

#[test]
fn network_texts_that_are_none() {
    for t in ["", "10.0.0.0", "10.0.0.0/33", "10.0.0.0/", "/24", "10.0.0/24", "not-a-net", "10.0.0.0/24 "] {
        assert_eq!(Ipv4Net::parse(t), None, "{t}");
    }
}

#[test]
fn network_text_may_have_leading_zeros() {
    assert_eq!(Ipv4Net::parse("010.0.0.0/08"), Ipv4Net::parse("10.0.0.0/8"));
    assert!(Ipv4Net::parse("010.0.0.0/08").is_some());
}

#[test]
fn network_prefix_is_bounded() {
    assert!(Ipv4Net::new(Ipv4Addr::new(10, 0, 0, 0), 32).is_some());
    assert!(Ipv4Net::new(Ipv4Addr::new(10, 0, 0, 0), 33).is_none());
}
