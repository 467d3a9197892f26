use vpn::ipam::{IpPool, IpPoolError};
use vpn::net::{Ipv4Addr, Ipv4Net};

fn net(a: u8, b: u8, c: u8, d: u8, prefix: u8) -> Ipv4Net {
    Ipv4Net::new_assert(Ipv4Addr::new(a, b, c, d), prefix)
}

#[test]
fn test_ip_pool_new_when_prefix_31_returns_invalid_subnet() {
    let err = IpPool::new(net(10, 0, 0, 0, 31)).unwrap_err();
    assert_eq!(err, IpPoolError::InvalidSubnet);
}

#[test]
fn test_ip_pool_new_when_prefix_32_returns_invalid_subnet() {
    let err = IpPool::new(net(10, 0, 0, 0, 32)).unwrap_err();
    assert_eq!(err, IpPoolError::InvalidSubnet);
}

#[test]
fn ip_pool_new_when_prefix_0_returns_invalid_subnet() {
    let err = IpPool::new(net(10, 0, 0, 0, 0)).unwrap_err();
    assert_eq!(err, IpPoolError::InvalidSubnet);
}

#[test]
fn test_ip_pool_new_when_24_available_count_is_253() {
    let pool = IpPool::new(net(10, 0, 0, 0, 24)).expect("valid /24");
    assert_eq!(pool.available_count(), 253);
}

#[test]
fn ip_pool_counts_for_other_prefixes() {
    for (prefix, want) in [(30u8, 1u32), (29, 5), (26, 61), (25, 125), (20, 4093), (16, 65_533)] {
        let pool = IpPool::new(net(10, 0, 0, 0, prefix)).expect("valid prefix");
        assert_eq!(pool.available_count(), want);
    }
}

#[test]
fn test_ip_pool_available_count_when_alloc_then_free_restores() {
    let mut pool = IpPool::new(net(10, 0, 0, 0, 24)).expect("valid /24");
    assert_eq!(pool.available_count(), 253);
    let a = pool.allocate().expect("alloc");
    assert_eq!(pool.available_count(), 252);
    pool.free(a).expect("free");
    assert_eq!(pool.available_count(), 253);
}

#[test]
fn test_ip_pool_alloc_when_24_first_returns_gateway_next() {
    let mut pool = IpPool::new(net(10, 0, 0, 0, 24)).expect("valid /24");
    assert_eq!(pool.allocate(), Ok(Ipv4Addr::new(10, 0, 0, 2)));
}

#[test]
fn test_ip_pool_alloc_when_successive_returns_ascending() {
    let mut pool = IpPool::new(net(10, 0, 0, 0, 24)).expect("valid /24");
    assert_eq!(pool.allocate(), Ok(Ipv4Addr::new(10, 0, 0, 2)));
    assert_eq!(pool.allocate(), Ok(Ipv4Addr::new(10, 0, 0, 3)));
    assert_eq!(pool.allocate(), Ok(Ipv4Addr::new(10, 0, 0, 4)));
}

#[test]
fn test_ip_pool_alloc_when_exhausted_returns_pool_exhausted() {
    let mut pool = IpPool::new(net(10, 0, 0, 0, 30)).expect("valid /30");
    assert_eq!(pool.available_count(), 1);
    assert_eq!(pool.allocate(), Ok(Ipv4Addr::new(10, 0, 0, 2)));
    assert_eq!(pool.available_count(), 0);
    assert_eq!(pool.allocate(), Err(IpPoolError::PoolExhausted));
    assert_eq!(pool.available_count(), 0);
}

#[test]
fn ip_pool_hands_out_the_whole_network_but_three() {
    let mut pool = IpPool::new(net(172, 16, 3, 77, 24)).expect("valid /24");
    for last in 2..=254u8 {
        assert_eq!(pool.allocate(), Ok(Ipv4Addr::new(172, 16, 3, last)));
    }
    assert_eq!(pool.allocate(), Err(IpPoolError::PoolExhausted));
}

#[test]
fn ip_pool_clone_goes_its_own_way() {
    let mut pool = IpPool::new(net(10, 0, 0, 0, 24)).expect("valid /24");
    let mut other = pool.clone();
    assert_eq!(pool.allocate(), Ok(Ipv4Addr::new(10, 0, 0, 2)));
    assert_eq!(other.allocate(), Ok(Ipv4Addr::new(10, 0, 0, 2)));
}

#[test]
fn test_ip_pool_free_then_alloc_returns_freed_address() {
    let mut pool = IpPool::new(net(10, 0, 0, 0, 24)).expect("valid /24");
    assert_eq!(pool.allocate(), Ok(Ipv4Addr::new(10, 0, 0, 2)));
    assert_eq!(pool.allocate(), Ok(Ipv4Addr::new(10, 0, 0, 3)));
    assert_eq!(pool.allocate(), Ok(Ipv4Addr::new(10, 0, 0, 4)));
    pool.free(Ipv4Addr::new(10, 0, 0, 3)).expect("free .3");
    assert_eq!(pool.allocate(), Ok(Ipv4Addr::new(10, 0, 0, 3)));
}

#[test]
fn test_ip_pool_free_when_out_of_subnet_returns_out_of_pool() {
    let mut pool = IpPool::new(net(10, 0, 0, 0, 24)).expect("valid /24");
    assert_eq!(
        pool.free(Ipv4Addr::new(10, 0, 1, 5)),
        Err(IpPoolError::OutOfPool(Ipv4Addr::new(10, 0, 1, 5)))
    );
    assert_eq!(
        pool.free(Ipv4Addr::new(9, 255, 255, 255)),
        Err(IpPoolError::OutOfPool(Ipv4Addr::new(9, 255, 255, 255)))
    );
}

#[test]
fn test_ip_pool_free_when_unallocated_returns_not_allocated() {
    let mut pool = IpPool::new(net(10, 0, 0, 0, 24)).expect("valid /24");
    assert_eq!(
        pool.free(Ipv4Addr::new(10, 0, 0, 5)),
        Err(IpPoolError::NotAllocated(Ipv4Addr::new(10, 0, 0, 5)))
    );
}

#[test]
fn test_ip_pool_free_when_gateway_returns_out_of_pool() {
    let mut pool = IpPool::new(net(10, 0, 0, 0, 24)).expect("valid /24");
    assert_eq!(
        pool.free(Ipv4Addr::new(10, 0, 0, 1)),
        Err(IpPoolError::OutOfPool(Ipv4Addr::new(10, 0, 0, 1)))
    );
}

#[test]
fn test_ip_pool_free_when_broadcast_returns_out_of_pool() {
    let mut pool = IpPool::new(net(10, 0, 0, 0, 24)).expect("valid /24");
    assert_eq!(
        pool.free(Ipv4Addr::new(10, 0, 0, 255)),
        Err(IpPoolError::OutOfPool(Ipv4Addr::new(10, 0, 0, 255)))
    );
}

#[test]
fn ip_pool_error_messages() {
    let a = Ipv4Addr::new(10, 0, 0, 7);
    assert_eq!(
        IpPoolError::InvalidSubnet.message(),
        "invalid subnet: no allocatable addresses after reservations"
    );
    assert_eq!(
        IpPoolError::PoolExhausted.message(),
        "pool exhausted: no free address available"
    );
    assert_eq!(
        IpPoolError::OutOfPool(a).message(),
        "address 10.0.0.7 is out of pool or reserved"
    );
    assert_eq!(
        IpPoolError::NotAllocated(a).message(),
        "address 10.0.0.7 is not allocated"
    );
}

#[test]
fn ip_pool_held_address_is_not_handed_out_again() {
    let mut pool = IpPool::new(net(10, 0, 0, 0, 29)).expect("valid /29");
    assert_eq!(pool.available_count(), 5);
    let held = pool.allocate().unwrap();
    for _ in 0..3 {
        let mut taken = Vec::new();
        while let Ok(addr) = pool.allocate() {
            assert_ne!(addr, held);
            taken.push(addr);
        }
        assert_eq!(pool.available_count(), 0);
        assert_eq!(taken.len(), 4);
        for addr in taken {
            assert_eq!(pool.free(addr), Ok(()));
        }
        assert_eq!(pool.available_count(), 4);
    }
    assert_eq!(pool.free(held), Ok(()));
    assert_eq!(pool.allocate(), Ok(held));
}
