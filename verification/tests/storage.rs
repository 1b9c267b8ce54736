use pevm::perpdex::{InMemoryStorage, PerpDexLocation, PerpDexStorage, PerpDexValue};
use pevm::primitives::address::Address;
use pevm::primitives::u256::U256;

fn addr(last: u8) -> Address {
    let mut bytes = [0u8; 20];
    bytes[19] = last;
    Address::new(bytes)
}

#[test]
fn test_in_memory_storage_basic() {
    let mut storage = InMemoryStorage::new();
    let addr = addr(1);
    let loc = PerpDexLocation::Balance(addr, 0);

    // Initially empty
    assert!(storage.get(&loc).unwrap().is_none());

    // Set value
    storage.set(loc.clone(), PerpDexValue::Balance(U256::from_u128(1000))).unwrap();

    // Read back
    let value = storage.get(&loc).unwrap().unwrap();
    if let PerpDexValue::Balance(bal) = value {
        assert_eq!(bal, U256::from_u128(1000));
    } else {
        panic!("Expected Balance");
    }

    // Delete
    storage.delete(&loc).unwrap();
    assert!(storage.get(&loc).unwrap().is_none());
}

#[test]
fn test_with_balances() {
    let addr1 = addr(1);
    let addr2 = addr(2);

    let storage = InMemoryStorage::with_balances(vec![
        (addr1, 0, U256::from_u128(1000)),
        (addr2, 0, U256::from_u128(2000)),
    ]);

    let bal1 = storage.get(&PerpDexLocation::Balance(addr1, 0)).unwrap().unwrap();
    let bal2 = storage.get(&PerpDexLocation::Balance(addr2, 0)).unwrap().unwrap();

    if let PerpDexValue::Balance(b1) = bal1 {
        assert_eq!(b1, U256::from_u128(1000));
    } else {
        panic!("Expected Balance");
    }

    if let PerpDexValue::Balance(b2) = bal2 {
        assert_eq!(b2, U256::from_u128(2000));
    } else {
        panic!("Expected Balance");
    }
}

#[test]
fn test_order_tracking() {
    let mut storage = InMemoryStorage::new();
    let addr = addr(1);
    let market_id = 1u64;

    // Initially no orders
    assert!(storage.get_user_orders(addr, market_id).unwrap().is_empty());

    // Add order
    let order_loc = PerpDexLocation::Order(addr, market_id, 100);
    storage.set(order_loc.clone(), PerpDexValue::empty_position()).unwrap();

    // Should be tracked
    let orders = storage.get_user_orders(addr, market_id).unwrap();
    assert_eq!(orders, vec![100]);

    // Delete order
    storage.delete(&order_loc).unwrap();
    assert!(storage.get_user_orders(addr, market_id).unwrap().is_empty());
}

#[test]
fn with_balances_later_entry_wins() {
    let a = addr(7);
    let storage = InMemoryStorage::with_balances(vec![
        (a, 0, U256::from_u128(1)),
        (a, 1, U256::from_u128(5)),
        (a, 0, U256::from_u128(9)),
    ]);
    assert_eq!(storage.get(&PerpDexLocation::Balance(a, 0)).unwrap(), Some(PerpDexValue::Balance(U256::from_u128(9))));
    assert_eq!(storage.get(&PerpDexLocation::Balance(a, 1)).unwrap(), Some(PerpDexValue::Balance(U256::from_u128(5))));
    assert_eq!(storage.get(&PerpDexLocation::Balance(a, 2)).unwrap(), None);
}

#[test]
fn set_overwrites_and_leaves_other_locations() {
    let mut storage = InMemoryStorage::new();
    let a = addr(3);
    storage.set(PerpDexLocation::UserNonce(a), PerpDexValue::Nonce(1)).unwrap();
    storage.set(PerpDexLocation::MarketState(4), PerpDexValue::default_market_state(10)).unwrap();
    storage.set(PerpDexLocation::UserNonce(a), PerpDexValue::Nonce(2)).unwrap();
    assert_eq!(storage.get(&PerpDexLocation::UserNonce(a)).unwrap(), Some(PerpDexValue::Nonce(2)));
    assert_eq!(
        storage.get(&PerpDexLocation::MarketState(4)).unwrap(),
        Some(PerpDexValue::default_market_state(10))
    );
    // Deleting an absent location changes nothing.
    storage.delete(&PerpDexLocation::UserNonce(addr(4))).unwrap();
    assert_eq!(storage.get(&PerpDexLocation::UserNonce(a)).unwrap(), Some(PerpDexValue::Nonce(2)));
}

#[test]
fn deleted_orders_are_not_indexed() {
    let mut storage = InMemoryStorage::new();
    let a = addr(5);
    storage.set(PerpDexLocation::Order(a, 2, 77), PerpDexValue::Deleted).unwrap();
    assert!(storage.get_user_orders(a, 2).unwrap().is_empty());
    // The value itself is still stored.
    assert_eq!(storage.get(&PerpDexLocation::Order(a, 2, 77)).unwrap(), Some(PerpDexValue::Deleted));
}

#[test]
fn order_index_keeps_insertion_order_per_market() {
    let mut storage = InMemoryStorage::new();
    let a = addr(6);
    let b = addr(8);
    storage.set(PerpDexLocation::Order(a, 1, 10), PerpDexValue::empty_position()).unwrap();
    storage.set(PerpDexLocation::Order(a, 2, 20), PerpDexValue::empty_position()).unwrap();
    storage.set(PerpDexLocation::Order(b, 1, 30), PerpDexValue::empty_position()).unwrap();
    storage.set(PerpDexLocation::Order(a, 1, 11), PerpDexValue::empty_position()).unwrap();
    assert_eq!(storage.get_user_orders(a, 1).unwrap(), vec![10, 11]);
    assert_eq!(storage.get_user_orders(a, 2).unwrap(), vec![20]);
    assert_eq!(storage.get_user_orders(b, 1).unwrap(), vec![30]);
    assert_eq!(storage.get_all_user_orders(a).unwrap(), vec![10, 11, 20]);
    assert_eq!(storage.get_all_user_order_keys(a).unwrap(), vec![(1, 10), (1, 11), (2, 20)]);
    assert_eq!(storage.get_all_user_order_keys(b).unwrap(), vec![(1, 30)]);
    assert_eq!(storage.get_all_user_orders(b).unwrap(), vec![30]);
    assert!(storage.get_all_user_orders(addr(9)).unwrap().is_empty());

    storage.delete(&PerpDexLocation::Order(a, 1, 10)).unwrap();
    assert_eq!(storage.get_user_orders(a, 1).unwrap(), vec![11]);
    assert_eq!(storage.get_all_user_orders(a).unwrap(), vec![11, 20]);
}
