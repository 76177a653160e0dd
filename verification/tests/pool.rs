use usb_core::pool::AddressPool;

#[test]
fn fresh_pool_allocates_in_order_and_skips_released() {
    let mut p = AddressPool::new();
    assert_eq!(p.allocate(), Some(1));
    assert_eq!(p.allocate(), Some(2));
    p.release(1);
    // The cursor advanced past 1, so the next grant is 3, not 1.
    assert_eq!(p.allocate(), Some(3));
}

#[test]
fn pool_grants_all_127_addresses_then_none() {
    let mut p = AddressPool::new();
    for expected in 1..=127u8 {
        assert_eq!(p.allocate(), Some(expected));
    }
    assert_eq!(p.allocate(), None);
    assert_eq!(p.allocate(), None);
}

#[test]
fn granted_addresses_are_in_range_and_distinct() {
    let mut p = AddressPool::new();
    let mut seen = [false; 128];
    for _ in 0..127 {
        let a = p.allocate().expect("pool should not be exhausted yet");
        assert!((1..=127).contains(&a));
        assert!(!seen[a as usize], "address granted twice while live");
        seen[a as usize] = true;
    }
}

#[test]
fn release_makes_an_address_grantable_after_wraparound() {
    let mut p = AddressPool::new();
    for _ in 0..127 {
        p.allocate().unwrap();
    }
    assert_eq!(p.allocate(), None);
    p.release(42);
    // The cursor wraps and finds the single free address again.
    assert_eq!(p.allocate(), Some(42));
    assert_eq!(p.allocate(), None);
}

#[test]
fn release_is_idempotent_on_free_addresses() {
    let mut p = AddressPool::new();
    p.release(5);
    assert_eq!(p.allocate(), Some(1));
}
