use std::sync::Arc;

use alloy_consensus::{Transaction, TxLegacy};
use alloy_primitives::TxKind;

use pevm::hybrid::{encode_perpdex_tx, identify_vm_type, perpdex_contract_address, VmType};
use pevm::perpdex::executor_traits::{MvMemory, TxVersion, VmExecutionResult, VmExecutor};
use pevm::perpdex::{BlockConfig, InMemoryStorage, Operation, OrderType, PerpDexExecutor, PerpDexTx, Side};
use pevm::primitives::address::Address;
use pevm::primitives::u256::U256;

fn e18(n: u128) -> U256 {
    U256::from_u128(n).wrapping_mul(&U256::from_u128(10u128.pow(18)))
}

fn to_alloy(a: Address) -> alloy_primitives::Address {
    alloy_primitives::Address::from_slice(&a.to_vec())
}

fn recipient(tx: &TxLegacy) -> Option<Address> {
    tx.to().map(|a| Address::new(a.0 .0))
}

#[test]
fn test_identify_transaction_types() {
    let mut one = [0u8; 20];
    one[19] = 1;
    // Test EVM transaction
    let evm_tx = TxLegacy {
        chain_id: None,
        nonce: 0,
        gas_price: 1000,
        gas_limit: 21000,
        to: TxKind::Call(to_alloy(Address::new(one))),
        value: alloy_primitives::U256::ZERO,
        input: vec![].into(),
    };
    assert_eq!(identify_vm_type(recipient(&evm_tx)), VmType::Evm);

    // Test PerpDex transaction
    let perpdex_tx = TxLegacy {
        chain_id: None,
        nonce: 0,
        gas_price: 1000,
        gas_limit: 21000,
        to: TxKind::Call(to_alloy(perpdex_contract_address())),
        value: alloy_primitives::U256::ZERO,
        input: vec![].into(),
    };
    assert_eq!(identify_vm_type(recipient(&perpdex_tx)), VmType::PerpDex);
}

#[test]
fn test_perpdex_executor_basic() {
    // Setup storage with initial balance
    let user = Address::repeat_byte(0x11);
    let initial_balance = e18(10000); // 10000 USDC

    let storage = InMemoryStorage::with_balances(vec![(user, 0, initial_balance)]);
    let storage_arc = Arc::new(storage);

    let config = BlockConfig { timestamp: 1000, block_number: 1 };

    let mut executor = PerpDexExecutor::new(storage_arc.clone(), config);

    // Create a simple order transaction
    let perpdex_tx = PerpDexTx {
        user,
        nonce: 0,
        gas_limit: 100000,
        gas_price: U256::from_u128(1000),
        signature: None,
        operations: vec![Operation::PlaceOrder {
            market_id: 1,
            order_type: OrderType::Limit,
            side: Side::Long,
            price: e18(1000), // $1000
            size: e18(1),     // 1.0 BTC
            leverage: 10,
            post_only: true,
            reduce_only: false,
            expires_at: None,
        }],
    };

    let tx_version = TxVersion { tx_idx: 0, tx_incarnation: 0 };
    let mv_memory = MvMemory;

    let result = executor.execute(&tx_version, &perpdex_tx, &*storage_arc, &mv_memory);

    // Verify execution succeeded
    match result {
        VmExecutionResult::Success { result, .. } => {
            println!("Gas used: {}", result.gas_used);
            println!("Operations: {:?}", result.operations_executed);
            assert_eq!(result.operations_executed.len(), 1);
        }
        VmExecutionResult::Error(e) => {
            panic!("Execution failed: {:?}", e);
        }
        _ => {
            panic!("Unexpected result");
        }
    }
}

#[test]
fn test_encode_decode_perpdex_tx() {
    let user = Address::repeat_byte(0x22);

    let original_tx = PerpDexTx {
        user,
        nonce: 42,
        gas_limit: 200000,
        gas_price: U256::from_u128(5000),
        signature: None,
        operations: vec![
            Operation::PlaceOrder {
                market_id: 1,
                order_type: OrderType::Market,
                side: Side::Long,
                price: e18(1500),
                size: e18(2),
                leverage: 5,
                post_only: false,
                reduce_only: false,
                expires_at: Some(2000),
            },
            Operation::CancelAll { market_id: Some(1) },
        ],
    };

    let encoded = encode_perpdex_tx(&original_tx);

    // Verify encoded data structure
    assert!(encoded.len() >= 44); // Minimum header size

    // Verify user address
    assert_eq!(&encoded[0..20], user.to_vec().as_slice());

    // Verify nonce
    let decoded_nonce = u64::from_be_bytes(encoded[20..28].try_into().unwrap());
    assert_eq!(decoded_nonce, 42);

    println!("Successfully encoded {} operations into {} bytes", original_tx.operations.len(), encoded.len());
}

#[test]
fn test_perpdex_market_order() {
    let user = Address::repeat_byte(0x33);
    let initial_balance = e18(100000); // 100k USDC

    let storage = InMemoryStorage::with_balances(vec![(user, 0, initial_balance)]);
    let storage_arc = Arc::new(storage);

    let config = BlockConfig { timestamp: 2000, block_number: 2 };

    let mut executor = PerpDexExecutor::new(storage_arc.clone(), config);

    let perpdex_tx = PerpDexTx {
        user,
        nonce: 0,
        gas_limit: 100000,
        gas_price: U256::from_u128(1000),
        signature: None,
        operations: vec![Operation::PlaceOrder {
            market_id: 1,
            order_type: OrderType::Market,
            side: Side::Long,
            price: e18(1000),
            size: e18(1),
            leverage: 10,
            post_only: false,
            reduce_only: false,
            expires_at: None,
        }],
    };

    let tx_version = TxVersion { tx_idx: 0, tx_incarnation: 0 };
    let mv_memory = MvMemory;

    let result = executor.execute(&tx_version, &perpdex_tx, &*storage_arc, &mv_memory);

    match result {
        VmExecutionResult::Success { result, write_set, .. } => {
            println!("Market order executed:");
            println!("  Gas used: {}", result.gas_used);
            println!("  Operations: {} completed", result.operations_executed.len());
            println!("  Write set size: {}", write_set.iter().len());

            // Market orders should fill immediately
            assert_eq!(result.operations_executed.len(), 1);
        }
        VmExecutionResult::Error(e) => {
            panic!("Market order execution failed: {:?}", e);
        }
        _ => {
            panic!("Unexpected result");
        }
    }
}

#[test]
fn test_perpdex_batch_operations() {
    let user = Address::repeat_byte(0x44);
    let initial_balance = e18(50000);

    let storage = InMemoryStorage::with_balances(vec![(user, 0, initial_balance)]);
    let storage_arc = Arc::new(storage);

    let config = BlockConfig { timestamp: 3000, block_number: 3 };

    let mut executor = PerpDexExecutor::new(storage_arc.clone(), config);

    // Batch operations: place order + set leverage
    let perpdex_tx = PerpDexTx {
        user,
        nonce: 0,
        gas_limit: 300000,
        gas_price: U256::from_u128(1000),
        signature: None,
        operations: vec![
            Operation::PlaceOrder {
                market_id: 1,
                order_type: OrderType::Limit,
                side: Side::Long,
                price: e18(950),
                size: e18(1),
                leverage: 5,
                post_only: true,
                reduce_only: false,
                expires_at: None,
            },
            Operation::SetLeverage { market_id: 1, leverage: 10 },
        ],
    };

    let tx_version = TxVersion { tx_idx: 0, tx_incarnation: 0 };
    let mv_memory = MvMemory;

    let result = executor.execute(&tx_version, &perpdex_tx, &*storage_arc, &mv_memory);

    match result {
        VmExecutionResult::Success { result, .. } => {
            println!("Batch operations completed:");
            println!("  Total gas used: {}", result.gas_used);
            println!("  Operations executed: {}", result.operations_executed.len());

            // Should execute all operations
            assert_eq!(result.operations_executed.len(), 2);
        }
        VmExecutionResult::Error(e) => {
            panic!("Batch operations failed: {:?}", e);
        }
        _ => {
            panic!("Unexpected result");
        }
    }
}
