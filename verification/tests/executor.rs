use std::sync::Arc;

use pevm::perpdex::execution_spec::PositionData;
use pevm::perpdex::executor::PRICE_PRECISION;
use pevm::perpdex::executor_traits::{
    FinishExecFlags, MvMemory, ReadOrigin, ReadSet, TxVersion, VmExecutionResult, VmExecutor, WriteSet,
};
use pevm::perpdex::{
    BlockConfig, ExecutionError, InMemoryStorage, Operation, OperationResult, OrderStatus, OrderType,
    PerpDexExecutor, PerpDexLocation, PerpDexStorage, PerpDexTx, PerpDexValue, Side,
};
use pevm::primitives::address::Address;
use pevm::primitives::u256::U256;

fn units(n: u128) -> U256 {
    U256::from_u128(n).wrapping_mul(&U256::from_u128(PRICE_PRECISION))
}

fn executor_over(storage: InMemoryStorage) -> PerpDexExecutor<InMemoryStorage> {
    let config = BlockConfig { timestamp: 1000, block_number: 1 };
    PerpDexExecutor::new(Arc::new(storage), config)
}

fn tx(user: Address, nonce: u64, operations: Vec<Operation>) -> PerpDexTx {
    PerpDexTx { user, nonce, gas_limit: 100000, gas_price: U256::from_u128(1000), signature: None, operations }
}

fn place(order_type: OrderType, side: Side, price: U256, size: U256, leverage: u8, post_only: bool, reduce_only: bool) -> Operation {
    Operation::PlaceOrder {
        market_id: 1,
        order_type,
        side,
        price,
        size,
        leverage,
        post_only,
        reduce_only,
        expires_at: None,
    }
}

fn run(
    executor: &mut PerpDexExecutor<InMemoryStorage>,
    storage: &InMemoryStorage,
    t: &PerpDexTx,
) -> VmExecutionResult<PerpDexLocation, PerpDexValue, pevm::perpdex::PerpDexResult, ExecutionError> {
    executor.execute(&TxVersion { tx_idx: 0, tx_incarnation: 0 }, t, storage, &MvMemory)
}

#[test]
fn test_executor_creation() {
    let storage = Arc::new(InMemoryStorage::new());
    let config = BlockConfig { timestamp: 1000, block_number: 1 };
    let mut executor = PerpDexExecutor::new(storage, config);

    let order_id1 = executor.generate_order_id();
    let order_id2 = executor.generate_order_id();

    assert_eq!(order_id1, 1);
    assert_eq!(order_id2, 2);
}

#[test]
fn test_calculate_required_margin() {
    let storage = Arc::new(InMemoryStorage::new());
    let config = BlockConfig { timestamp: 1000, block_number: 1 };
    let executor = PerpDexExecutor::new(storage, config);

    // Price: $1000, Size: 1.0, Leverage: 10x
    // Expected margin: $100
    let price = U256::from_u128(1000).wrapping_mul(&U256::from_u128(PRICE_PRECISION));
    let size = U256::from_u128(1).wrapping_mul(&U256::from_u128(PRICE_PRECISION));
    let leverage = 10;

    let margin = executor.calculate_required_margin(price, size, leverage).unwrap();

    let expected = U256::from_u128(100).wrapping_mul(&U256::from_u128(PRICE_PRECISION));
    assert_eq!(margin, expected);
}

#[test]
fn test_is_reducing() {
    let storage = Arc::new(InMemoryStorage::new());
    let config = BlockConfig { timestamp: 1000, block_number: 1 };
    let executor = PerpDexExecutor::new(storage, config);

    // Long position of 100
    let position_size = 100i128;

    // Selling 50 = reducing
    assert!(executor.is_reducing(-50, position_size));

    // Buying 50 = increasing
    assert!(!executor.is_reducing(50, position_size));

    // Short position of -100
    let position_size = -100i128;

    // Buying 50 = reducing
    assert!(executor.is_reducing(50, position_size));

    // Selling 50 = increasing
    assert!(!executor.is_reducing(-50, position_size));
}

#[test]
fn is_reducing_no_position_never_reduces() {
    let executor = executor_over(InMemoryStorage::new());
    assert!(!executor.is_reducing(-5, 0));
    assert!(!executor.is_reducing(5, 0));
    // A zero-size order counts as a short one.
    assert!(executor.is_reducing(0, 10));
    assert!(!executor.is_reducing(0, -10));
    // An order larger than the position would flip it: not reducing.
    assert!(!executor.is_reducing(-300, 100));
    assert!(!executor.is_reducing(300, -100));
    assert!(executor.is_reducing(-100, 100));
    assert!(executor.is_reducing(i128::MAX, i128::MIN));
}

#[test]
fn required_margin_rounds_down() {
    let executor = executor_over(InMemoryStorage::new());
    // notional = 3 * 7 / 1e18 = 0 at this scale; margin 0.
    assert_eq!(executor.calculate_required_margin(U256::from_u128(3), U256::from_u128(7), 1).unwrap(), U256::zero());
    // 1.5 units at price 10 and leverage 4: notional 15, margin 3.75 units.
    let price = units(10);
    let size = U256::from_u128(1_500_000_000_000_000_000);
    assert_eq!(
        executor.calculate_required_margin(price, size, 4).unwrap(),
        U256::from_u128(3_750_000_000_000_000_000)
    );
}

#[test]
fn estimate_gas_is_flat() {
    let executor = executor_over(InMemoryStorage::new());
    let op = Operation::SetLeverage { market_id: 1, leverage: 3 };
    assert_eq!(executor.estimate_gas(&op), 21000);
}

#[test]
fn unrealized_pnl_formula() {
    let executor = executor_over(InMemoryStorage::new());
    let long = PositionData {
        size: 2_000_000_000_000_000_000,
        entry_price: units(1000),
        leverage: 10,
        margin: units(200),
        unrealized_pnl: 0,
        last_funding_index: U256::zero(),
    };
    // 2 units * (1100 - 1000) = 200 units of profit.
    assert_eq!(executor.calculate_unrealized_pnl(&long, units(1100)), 200_000_000_000_000_000_000);
    // 2 units * (900 - 1000) = 200 units of loss.
    assert_eq!(executor.calculate_unrealized_pnl(&long, units(900)), -200_000_000_000_000_000_000);
    let short = PositionData { size: -2_000_000_000_000_000_000, ..long };
    assert_eq!(executor.calculate_unrealized_pnl(&short, units(1100)), -200_000_000_000_000_000_000);
    assert_eq!(executor.calculate_unrealized_pnl(&short, units(900)), 200_000_000_000_000_000_000);
    let flat = PositionData { size: 0, ..long };
    assert_eq!(executor.calculate_unrealized_pnl(&flat, units(5000)), 0);
    // A profit beyond i128::MAX is capped.
    let huge = PositionData { size: i128::MAX, entry_price: U256::zero(), ..long };
    assert_eq!(executor.calculate_unrealized_pnl(&huge, units(1_000_000_000_000)), i128::MAX);
}

#[test]
fn nonce_mismatch_is_refused() {
    let storage = InMemoryStorage::new();
    let mut executor = executor_over(storage.clone());
    let user = Address::repeat_byte(0x21);
    match run(&mut executor, &storage, &tx(user, 5, vec![])) {
        VmExecutionResult::Error(ExecutionError::NonceMismatch { expected, actual }) => {
            assert_eq!(expected, 0);
            assert_eq!(actual, 5);
        }
        _ => panic!("unexpected result"),
    }
}

#[test]
fn stored_nonce_is_checked_and_bumped() {
    let user = Address::repeat_byte(0x22);
    let mut storage = InMemoryStorage::new();
    storage.set(PerpDexLocation::UserNonce(user), PerpDexValue::Nonce(7)).unwrap();
    let mut executor = executor_over(storage.clone());
    match run(&mut executor, &storage, &tx(user, 7, vec![])) {
        VmExecutionResult::Success { read_set, write_set, result, flags } => {
            assert_eq!(result.gas_used, 0);
            assert!(result.operations_executed.is_empty());
            let writes = write_set.iter();
            assert_eq!(writes.len(), 1);
            assert_eq!(writes[0].1, PerpDexLocation::UserNonce(user));
            assert_eq!(writes[0].2, PerpDexValue::Nonce(8));
            assert_eq!(flags, FinishExecFlags::need_validation());
            // The nonce was read from storage.
            assert!(!read_set.is_empty());
        }
        _ => panic!("unexpected result"),
    }
}

#[test]
fn insufficient_balance_is_refused() {
    let user = Address::repeat_byte(0x23);
    let storage = InMemoryStorage::with_balances(vec![(user, 0, units(10))]);
    let mut executor = executor_over(storage.clone());
    let t = tx(user, 0, vec![place(OrderType::Limit, Side::Long, units(1000), units(1), 10, false, false)]);
    match run(&mut executor, &storage, &t) {
        VmExecutionResult::Error(ExecutionError::InsufficientBalance { required, available }) => {
            assert_eq!(required, units(100));
            assert_eq!(available, units(10));
        }
        _ => panic!("unexpected result"),
    }
}

#[test]
fn invalid_leverage_is_refused() {
    let user = Address::repeat_byte(0x24);
    let storage = InMemoryStorage::with_balances(vec![(user, 0, units(100000))]);
    let mut executor = executor_over(storage.clone());
    let t = tx(user, 0, vec![Operation::SetLeverage { market_id: 1, leverage: 0 }]);
    assert!(matches!(run(&mut executor, &storage, &t), VmExecutionResult::Error(ExecutionError::InvalidLeverage(0))));
    let t = tx(user, 0, vec![place(OrderType::Market, Side::Long, units(1000), units(1), 101, false, false)]);
    assert!(matches!(run(&mut executor, &storage, &t), VmExecutionResult::Error(ExecutionError::InvalidLeverage(101))));
}

#[test]
fn reduce_only_without_position_is_refused() {
    let user = Address::repeat_byte(0x25);
    let storage = InMemoryStorage::with_balances(vec![(user, 0, units(100000))]);
    let mut executor = executor_over(storage.clone());
    let t = tx(user, 0, vec![place(OrderType::Market, Side::Short, units(1000), units(1), 10, false, true)]);
    assert!(matches!(run(&mut executor, &storage, &t), VmExecutionResult::Error(ExecutionError::ReduceOnlyViolation)));
}

#[test]
fn reduce_only_that_reduces_fills() {
    let user = Address::repeat_byte(0x26);
    let mut storage = InMemoryStorage::with_balances(vec![(user, 0, units(100000))]);
    storage
        .set(
            PerpDexLocation::Position(user, 1),
            PerpDexValue::Position {
                size: 3_000_000_000_000_000_000,
                entry_price: units(900),
                leverage: 10,
                margin: units(270),
                unrealized_pnl: 0,
                last_funding_index: U256::zero(),
            },
        )
        .unwrap();
    let mut executor = executor_over(storage.clone());
    let t = tx(user, 0, vec![place(OrderType::Market, Side::Short, units(1000), units(1), 10, false, true)]);
    match run(&mut executor, &storage, &t) {
        VmExecutionResult::Success { write_set, result, .. } => {
            assert_eq!(
                result.operations_executed,
                vec![OperationResult::OrderPlaced { order_id: 1, filled_size: units(1) }]
            );
            let writes = write_set.iter();
            // Position shrinks from 3 to 2 units and keeps its entry price.
            assert_eq!(writes[0].1, PerpDexLocation::Position(user, 1));
            assert_eq!(
                writes[0].2,
                PerpDexValue::Position {
                    size: 2_000_000_000_000_000_000,
                    entry_price: units(900),
                    leverage: 10,
                    margin: units(180),
                    unrealized_pnl: 0,
                    last_funding_index: U256::zero(),
                }
            );
            assert_eq!(writes[1].2, PerpDexValue::Balance(units(100000 - 100)));
        }
        _ => panic!("unexpected result"),
    }
}

#[test]
fn adjust_margin_without_position_is_refused() {
    let user = Address::repeat_byte(0x27);
    let storage = InMemoryStorage::with_balances(vec![(user, 0, units(100))]);
    let mut executor = executor_over(storage.clone());
    let t = tx(user, 0, vec![Operation::AdjustMargin { market_id: 1, amount: units(5) }]);
    match run(&mut executor, &storage, &t) {
        VmExecutionResult::Error(ExecutionError::InvalidPosition(msg)) => {
            assert_eq!(msg, "No position to adjust margin");
        }
        _ => panic!("unexpected result"),
    }
    let t = tx(user, 0, vec![Operation::AdjustMargin { market_id: 1, amount: units(500) }]);
    assert!(matches!(
        run(&mut executor, &storage, &t),
        VmExecutionResult::Error(ExecutionError::InsufficientBalance { .. })
    ));
}

#[test]
fn adjust_margin_moves_balance_into_position() {
    let user = Address::repeat_byte(0x28);
    let mut storage = InMemoryStorage::with_balances(vec![(user, 0, units(100))]);
    storage.set(PerpDexLocation::Position(user, 3), PerpDexValue::empty_position()).unwrap();
    let mut executor = executor_over(storage.clone());
    let t = tx(user, 0, vec![Operation::AdjustMargin { market_id: 3, amount: units(40) }]);
    match run(&mut executor, &storage, &t) {
        VmExecutionResult::Success { write_set, result, .. } => {
            assert_eq!(
                result.operations_executed,
                vec![OperationResult::MarginAdjusted { market_id: 3, amount: units(40) }]
            );
            let writes = write_set.iter();
            assert_eq!(writes.len(), 3);
            match writes[0].2 {
                PerpDexValue::Position { margin, .. } => assert_eq!(margin, units(40)),
                other => panic!("unexpected {:?}", other),
            }
            assert_eq!(writes[1].2, PerpDexValue::Balance(units(60)));
        }
        _ => panic!("unexpected result"),
    }
}

#[test]
fn corrupt_nonce_value_is_invalid() {
    let user = Address::repeat_byte(0x29);
    let mut storage = InMemoryStorage::new();
    storage.set(PerpDexLocation::UserNonce(user), PerpDexValue::Balance(U256::zero())).unwrap();
    let mut executor = executor_over(storage.clone());
    match run(&mut executor, &storage, &tx(user, 0, vec![])) {
        VmExecutionResult::Error(ExecutionError::InvalidPosition(msg)) => assert_eq!(msg, "Invalid nonce value"),
        _ => panic!("unexpected result"),
    }
}

#[test]
fn post_only_limit_rests_on_the_book() {
    let user = Address::repeat_byte(0x2A);
    let storage = InMemoryStorage::with_balances(vec![(user, 0, units(100000))]);
    let mut executor = executor_over(storage.clone());
    let t = tx(user, 0, vec![place(OrderType::Limit, Side::Long, units(1200), units(2), 5, true, false)]);
    match run(&mut executor, &storage, &t) {
        VmExecutionResult::Success { write_set, result, .. } => {
            assert_eq!(result.gas_used, 21000);
            assert_eq!(
                result.operations_executed,
                vec![OperationResult::OrderPlaced { order_id: 1, filled_size: U256::zero() }]
            );
            let writes = write_set.iter();
            assert_eq!(writes.len(), 2);
            assert_eq!(writes[0].1, PerpDexLocation::Order(user, 1, 1));
            assert_eq!(
                writes[0].2,
                PerpDexValue::Order {
                    order_type: OrderType::Limit,
                    side: Side::Long,
                    price: units(1200),
                    size: units(2),
                    filled: U256::zero(),
                    status: OrderStatus::Open,
                    post_only: true,
                    reduce_only: false,
                    created_at: 1000,
                    expires_at: None,
                }
            );
            assert_eq!(writes[1].2, PerpDexValue::Nonce(1));
        }
        _ => panic!("unexpected result"),
    }
}

#[test]
fn unfavourable_limit_does_not_fill() {
    let user = Address::repeat_byte(0x2B);
    let storage = InMemoryStorage::with_balances(vec![(user, 0, units(100000))]);
    let mut executor = executor_over(storage.clone());
    // Mark price defaults to 1000; a long limit below it cannot fill.
    let t = tx(user, 0, vec![place(OrderType::Limit, Side::Long, units(900), units(1), 10, false, false)]);
    match run(&mut executor, &storage, &t) {
        VmExecutionResult::Success { result, .. } => {
            assert_eq!(
                result.operations_executed,
                vec![OperationResult::OrderPlaced { order_id: 1, filled_size: U256::zero() }]
            );
        }
        _ => panic!("unexpected result"),
    }
}

#[test]
fn failed_transaction_still_takes_order_ids() {
    let user = Address::repeat_byte(0x2C);
    let storage = InMemoryStorage::with_balances(vec![(user, 0, units(100000))]);
    let mut executor = executor_over(storage.clone());
    let t = tx(
        user,
        0,
        vec![
            place(OrderType::Limit, Side::Long, units(1000), units(1), 10, true, false),
            Operation::SetLeverage { market_id: 1, leverage: 200 },
        ],
    );
    assert!(matches!(run(&mut executor, &storage, &t), VmExecutionResult::Error(ExecutionError::InvalidLeverage(200))));
    assert_eq!(executor.generate_order_id(), 2);
}

#[test]
fn cancel_order_deletes_each_listed_order() {
    let user = Address::repeat_byte(0x2D);
    let storage = InMemoryStorage::new();
    let mut executor = executor_over(storage.clone());
    let t = tx(user, 0, vec![Operation::CancelOrder { market_id: 4, order_ids: vec![8, 9] }]);
    match run(&mut executor, &storage, &t) {
        VmExecutionResult::Success { write_set, result, .. } => {
            assert_eq!(result.operations_executed, vec![OperationResult::OrdersCancelled { order_ids: vec![8, 9] }]);
            let writes = write_set.iter();
            assert_eq!(writes[0].1, PerpDexLocation::Order(user, 4, 8));
            assert_eq!(writes[0].2, PerpDexValue::Deleted);
            assert_eq!(writes[1].1, PerpDexLocation::Order(user, 4, 9));
            assert_eq!(writes[1].2, PerpDexValue::Deleted);
        }
        _ => panic!("unexpected result"),
    }
}

#[test]
fn cancel_all_uses_the_order_index() {
    let user = Address::repeat_byte(0x2E);
    let mut storage = InMemoryStorage::new();
    storage.set(PerpDexLocation::Order(user, 2, 31), PerpDexValue::empty_position()).unwrap();
    storage.set(PerpDexLocation::Order(user, 5, 32), PerpDexValue::empty_position()).unwrap();
    let mut executor = executor_over(storage.clone());
    let t = tx(user, 0, vec![Operation::CancelAll { market_id: Some(2) }, Operation::CancelAll { market_id: None }]);
    match run(&mut executor, &storage, &t) {
        VmExecutionResult::Success { write_set, result, .. } => {
            assert_eq!(
                result.operations_executed,
                vec![
                    OperationResult::OrdersCancelled { order_ids: vec![31] },
                    OperationResult::OrdersCancelled { order_ids: vec![31, 32] },
                ]
            );
            let writes = write_set.iter();
            assert_eq!(writes[0].1, PerpDexLocation::Order(user, 2, 31));
            // Without a market, each order is deleted at its own market.
            assert_eq!(writes[1].1, PerpDexLocation::Order(user, 2, 31));
            assert_eq!(writes[2].1, PerpDexLocation::Order(user, 5, 32));
            assert_eq!(writes[2].2, PerpDexValue::Deleted);
            assert_eq!(result.gas_used, 42000);
        }
        _ => panic!("unexpected result"),
    }
}

#[test]
fn lazy_locations_are_positions_of_placed_orders() {
    let user = Address::repeat_byte(0x2F);
    let executor = executor_over(InMemoryStorage::new());
    let mut second = place(OrderType::Limit, Side::Long, units(1), units(1), 1, true, false);
    if let Operation::PlaceOrder { ref mut market_id, .. } = second {
        *market_id = 9;
    }
    let t = tx(
        user,
        0,
        vec![
            place(OrderType::Market, Side::Long, units(1), units(1), 1, false, false),
            Operation::SetLeverage { market_id: 4, leverage: 2 },
            second,
        ],
    );
    assert_eq!(
        executor.get_lazy_locations(&t),
        vec![PerpDexLocation::Position(user, 1), PerpDexLocation::Position(user, 9)]
    );
}

#[test]
fn adding_to_a_position_averages_the_entry_price() {
    let user = Address::repeat_byte(0x30);
    let mut storage = InMemoryStorage::with_balances(vec![(user, 0, units(100000))]);
    storage
        .set(
            PerpDexLocation::Position(user, 1),
            PerpDexValue::Position {
                size: 1_000_000_000_000_000_000,
                entry_price: units(800),
                leverage: 10,
                margin: units(80),
                unrealized_pnl: 5,
                last_funding_index: U256::from_u128(77),
            },
        )
        .unwrap();
    let mut executor = executor_over(storage.clone());
    // A market buy of 1 unit at mark 1000: entry (800 + 1000) / 2 = 900.
    let t = tx(user, 0, vec![place(OrderType::Market, Side::Long, units(1000), units(1), 10, false, false)]);
    match run(&mut executor, &storage, &t) {
        VmExecutionResult::Success { write_set, .. } => {
            assert_eq!(
                write_set.iter()[0].2,
                PerpDexValue::Position {
                    size: 2_000_000_000_000_000_000,
                    entry_price: units(900),
                    leverage: 10,
                    margin: units(180),
                    unrealized_pnl: 0,
                    last_funding_index: U256::from_u128(77),
                }
            );
        }
        _ => panic!("unexpected result"),
    }
}

#[test]
fn reduce_only_order_that_would_flip_is_refused() {
    let user = Address::repeat_byte(0x31);
    let mut storage = InMemoryStorage::with_balances(vec![(user, 0, units(100000))]);
    storage
        .set(
            PerpDexLocation::Position(user, 1),
            PerpDexValue::Position {
                size: 1_000_000_000_000_000_000,
                entry_price: units(900),
                leverage: 10,
                margin: units(90),
                unrealized_pnl: 0,
                last_funding_index: U256::zero(),
            },
        )
        .unwrap();
    let mut executor = executor_over(storage.clone());
    // Selling 3 units against a long of 1 would leave a short of 2.
    let t = tx(user, 0, vec![place(OrderType::Market, Side::Short, units(1000), units(3), 10, false, true)]);
    assert!(matches!(run(&mut executor, &storage, &t), VmExecutionResult::Error(ExecutionError::ReduceOnlyViolation)));
}

#[test]
fn consecutive_order_ids_are_distinct() {
    let mut executor = executor_over(InMemoryStorage::new());
    let mut ids = Vec::new();
    for _ in 0..5 {
        ids.push(executor.generate_order_id());
    }
    assert_eq!(ids, vec![1, 2, 3, 4, 5]);
}

#[test]
fn failed_placement_writes_nothing_and_takes_no_id() {
    let user = Address::repeat_byte(0x32);
    let storage = InMemoryStorage::with_balances(vec![(user, 0, units(1))]);
    let mut executor = executor_over(storage.clone());
    let t = tx(user, 0, vec![place(OrderType::Limit, Side::Long, units(1000), units(1), 10, false, false)]);
    assert!(matches!(
        run(&mut executor, &storage, &t),
        VmExecutionResult::Error(ExecutionError::InsufficientBalance { .. })
    ));
    assert_eq!(executor.generate_order_id(), 1);
}

#[test]
fn read_and_write_sets_clone() {
    let mut reads: ReadSet<PerpDexLocation> = ReadSet::new();
    reads.insert(PerpDexLocation::MarketState(1), ReadOrigin::Storage);
    let copy = reads.clone();
    assert!(!copy.is_empty());
    let mut writes: WriteSet<PerpDexLocation, PerpDexValue> = WriteSet::new();
    writes.push(PerpDexLocation::MarketState(1), PerpDexValue::Nonce(3));
    let copy = writes.clone();
    assert_eq!(copy.iter().len(), 1);
    assert_eq!(copy.iter()[0].2, PerpDexValue::Nonce(3));
}
