use alloy_consensus::{Transaction, TxLegacy};
use alloy_primitives::{Bytes, TxKind};

use pevm::hybrid::{
    decode_operations, decode_perpdex_tx, encode_perpdex_tx, identify_vm_type, perpdex_contract_address,
    try_decode_perpdex_tx, DecodeError, VmType,
};
use pevm::perpdex::{Operation, OrderType, PerpDexTx, Side};
use pevm::primitives::address::Address;
use pevm::primitives::u256::U256;

fn to_alloy(a: Address) -> alloy_primitives::Address {
    alloy_primitives::Address::from_slice(&a.to_vec())
}

fn recipient(tx: &TxLegacy) -> Option<Address> {
    tx.to().map(|a| Address::new(a.0 .0))
}

fn addr_hex_one() -> Address {
    let mut bytes = [0u8; 20];
    bytes[19] = 1;
    Address::new(bytes)
}

fn e18(n: u128) -> U256 {
    U256::from_u128(n).wrapping_mul(&U256::from_u128(10u128.pow(18)))
}

#[test]
fn test_identify_vm_type_perpdex() {
    let tx = TxLegacy {
        chain_id: None,
        nonce: 0,
        gas_price: 1000,
        gas_limit: 21000,
        to: TxKind::Call(to_alloy(perpdex_contract_address())),
        value: alloy_primitives::U256::ZERO,
        input: Bytes::new(),
    };

    assert_eq!(identify_vm_type(recipient(&tx)), VmType::PerpDex);
}

#[test]
fn test_identify_vm_type_evm() {
    let tx = TxLegacy {
        chain_id: None,
        nonce: 0,
        gas_price: 1000,
        gas_limit: 21000,
        to: TxKind::Call(to_alloy(addr_hex_one())),
        value: alloy_primitives::U256::ZERO,
        input: Bytes::new(),
    };

    assert_eq!(identify_vm_type(recipient(&tx)), VmType::Evm);
}

#[test]
fn contract_creation_is_evm() {
    assert_eq!(identify_vm_type(None), VmType::Evm);
    assert_eq!(perpdex_contract_address(), Address::repeat_byte(0xFF));
}

#[test]
fn test_encode_decode_simple_order() {
    let perpdex_tx = PerpDexTx {
        user: Address::repeat_byte(0x11),
        nonce: 5,
        gas_limit: 100000,
        gas_price: U256::from_u128(1000),
        signature: None,
        operations: vec![Operation::PlaceOrder {
            market_id: 1,
            order_type: OrderType::Limit,
            side: Side::Long,
            price: U256::from_u128(1000).wrapping_mul(&U256::from_u128(10u128.pow(18))),
            size: U256::from_u128(1).wrapping_mul(&U256::from_u128(10u128.pow(18))),
            leverage: 10,
            post_only: false,
            reduce_only: false,
            expires_at: None,
        }],
    };

    let encoded = encode_perpdex_tx(&perpdex_tx);

    // Verify basic structure
    assert!(encoded.len() >= 44); // Minimum size
    assert_eq!(&encoded[0..20], perpdex_tx.user.to_vec().as_slice());
    assert_eq!(u64::from_be_bytes(encoded[20..28].try_into().unwrap()), 5);
}

#[test]
fn encoding_layout_is_exact() {
    let tx = PerpDexTx {
        user: Address::repeat_byte(0xAB),
        nonce: 0x0102,
        gas_limit: 0x0304,
        gas_price: U256::from_limbs([0x0506, 9, 9, 9]),
        signature: None,
        operations: vec![
            Operation::SetLeverage { market_id: 7, leverage: 3 },
            Operation::CancelAll { market_id: None },
        ],
    };
    let encoded = encode_perpdex_tx(&tx);
    let mut expected = vec![0xABu8; 20];
    expected.extend_from_slice(&0x0102u64.to_be_bytes());
    expected.extend_from_slice(&0x0304u64.to_be_bytes());
    // Only the low 8 bytes of the gas price are kept.
    expected.extend_from_slice(&0x0506u64.to_be_bytes());
    expected.push(3);
    expected.extend_from_slice(&7u64.to_be_bytes());
    expected.push(3);
    expected.push(2);
    expected.extend_from_slice(&0u64.to_be_bytes());
    assert_eq!(encoded, expected);
}

#[test]
fn decode_gives_back_encoded_transaction() {
    let tx = PerpDexTx {
        user: Address::repeat_byte(0x22),
        nonce: 42,
        gas_limit: 200000,
        gas_price: U256::from_u128(5000),
        signature: None,
        operations: vec![
            Operation::PlaceOrder {
                market_id: 1,
                order_type: OrderType::StopMarket,
                side: Side::Short,
                price: e18(1500),
                size: e18(2),
                leverage: 5,
                post_only: true,
                reduce_only: true,
                expires_at: Some(2000),
            },
            Operation::CancelOrder { market_id: 3, order_ids: vec![1, 2, 3] },
            Operation::AdjustMargin { market_id: 4, amount: e18(12) },
            Operation::SetLeverage { market_id: 5, leverage: 50 },
            Operation::CancelAll { market_id: Some(1) },
        ],
    };
    let encoded = encode_perpdex_tx(&tx);
    let decoded = decode_perpdex_tx(&encoded, 5000).unwrap();
    assert_eq!(decoded, tx);
}

#[test]
fn decode_takes_gas_price_from_max_fee() {
    let tx = PerpDexTx {
        user: Address::repeat_byte(0x33),
        nonce: 1,
        gas_limit: 2,
        gas_price: U256::from_u128(3),
        signature: None,
        operations: vec![],
    };
    let decoded = decode_perpdex_tx(&encode_perpdex_tx(&tx), 987_654).unwrap();
    assert_eq!(decoded.gas_price, U256::from_u128(987_654));
    assert_eq!(decoded.user, tx.user);
    assert_eq!(decoded.nonce, 1);
    assert_eq!(decoded.gas_limit, 2);
    assert!(decoded.operations.is_empty());
}

#[test]
fn trailing_place_order_decodes() {
    // A place-order record is a type byte and 85 bytes; one that ends the
    // input decodes.
    let tx = PerpDexTx {
        user: Address::repeat_byte(0x44),
        nonce: 0,
        gas_limit: 0,
        gas_price: U256::zero(),
        signature: None,
        operations: vec![Operation::PlaceOrder {
            market_id: 1,
            order_type: OrderType::Limit,
            side: Side::Long,
            price: e18(1),
            size: e18(1),
            leverage: 1,
            post_only: false,
            reduce_only: false,
            expires_at: None,
        }],
    };
    let encoded = encode_perpdex_tx(&tx);
    assert_eq!(encoded.len(), 44 + 1 + 85);
    assert_eq!(decode_perpdex_tx(&encoded, 0), Ok(tx));
}

#[test]
fn place_order_record_is_eighty_five_bytes() {
    let mut data = vec![0u8];
    data.extend_from_slice(&1u64.to_be_bytes());
    data.extend_from_slice(&[0u8, 0u8]);
    data.extend_from_slice(&[0u8; 32]);
    data.extend_from_slice(&[0u8; 32]);
    data.extend_from_slice(&[10u8, 0u8, 0u8]);
    data.extend_from_slice(&0u64.to_be_bytes());
    assert_eq!(data.len(), 86);
    assert_eq!(
        decode_operations(&data),
        Ok(vec![Operation::PlaceOrder {
            market_id: 1,
            order_type: OrderType::Limit,
            side: Side::Long,
            price: U256::zero(),
            size: U256::zero(),
            leverage: 10,
            post_only: false,
            reduce_only: false,
            expires_at: None,
        }])
    );
    // One byte short is malformed.
    assert_eq!(decode_operations(&data[..85]), Err(DecodeError::InvalidFormat));
}

#[test]
fn zero_expiry_and_market_read_back_as_none() {
    let tx = PerpDexTx {
        user: Address::repeat_byte(0x55),
        nonce: 0,
        gas_limit: 0,
        gas_price: U256::zero(),
        signature: None,
        operations: vec![
            Operation::PlaceOrder {
                market_id: 1,
                order_type: OrderType::Limit,
                side: Side::Long,
                price: e18(1),
                size: e18(1),
                leverage: 1,
                post_only: false,
                reduce_only: false,
                expires_at: Some(0),
            },
            Operation::CancelAll { market_id: Some(0) },
        ],
    };
    let decoded = decode_perpdex_tx(&encode_perpdex_tx(&tx), 0).unwrap();
    match &decoded.operations[0] {
        Operation::PlaceOrder { expires_at, .. } => assert_eq!(*expires_at, None),
        other => panic!("unexpected {:?}", other),
    }
    assert_eq!(decoded.operations[1], Operation::CancelAll { market_id: None });
}

#[test]
fn short_input_is_invalid_length() {
    assert_eq!(decode_perpdex_tx(&[0u8; 43], 0), Err(DecodeError::InvalidLength));
    assert_eq!(decode_perpdex_tx(&[], 0), Err(DecodeError::InvalidLength));
    assert!(decode_perpdex_tx(&[0u8; 44], 0).unwrap().operations.is_empty());
}

#[test]
fn malformed_operations_are_invalid_format() {
    // Unknown operation type.
    assert_eq!(decode_operations(&[9]), Err(DecodeError::InvalidFormat));
    // Truncated set-leverage record.
    assert_eq!(decode_operations(&[3, 0, 0, 0, 0, 0, 0, 0, 1]), Err(DecodeError::InvalidFormat));
    // Cancel-order whose count runs past the end.
    let mut data = vec![1u8];
    data.extend_from_slice(&1u64.to_be_bytes());
    data.extend_from_slice(&2u64.to_be_bytes());
    data.extend_from_slice(&5u64.to_be_bytes());
    assert_eq!(decode_operations(&data), Err(DecodeError::InvalidFormat));
    // Unknown order type byte in a place-order record.
    let mut data = vec![0u8];
    data.extend_from_slice(&1u64.to_be_bytes());
    data.push(4);
    data.extend_from_slice(&[0u8; 90]);
    assert_eq!(decode_operations(&data), Err(DecodeError::InvalidFormat));
}

#[test]
fn decode_operations_reads_each_kind() {
    let mut data = vec![3u8];
    data.extend_from_slice(&9u64.to_be_bytes());
    data.push(20);
    data.push(4);
    data.extend_from_slice(&2u64.to_be_bytes());
    let mut amount = [0u8; 32];
    amount[31] = 77;
    data.extend_from_slice(&amount);
    data.push(1);
    data.extend_from_slice(&6u64.to_be_bytes());
    data.extend_from_slice(&1u64.to_be_bytes());
    data.extend_from_slice(&99u64.to_be_bytes());
    assert_eq!(
        decode_operations(&data).unwrap(),
        vec![
            Operation::SetLeverage { market_id: 9, leverage: 20 },
            Operation::AdjustMargin { market_id: 2, amount: U256::from_u128(77) },
            Operation::CancelOrder { market_id: 6, order_ids: vec![99] },
        ]
    );
    assert!(decode_operations(&[]).unwrap().is_empty());
}

#[test]
fn overflowing_id_count_is_reported() {
    let mut input = vec![0u8; 44];
    input.push(1);
    input.extend_from_slice(&7u64.to_be_bytes());
    input.extend_from_slice(&(1u64 << 61).to_be_bytes());
    // The end of 2^61 ids of 8 bytes overflows a 64-bit usize.
    assert_eq!(try_decode_perpdex_tx(&input, 0), None);

    let mut input = vec![0u8; 44];
    input.push(1);
    input.extend_from_slice(&7u64.to_be_bytes());
    input.extend_from_slice(&1000u64.to_be_bytes());
    assert_eq!(try_decode_perpdex_tx(&input, 0), Some(Err(DecodeError::InvalidFormat)));
    assert_eq!(try_decode_perpdex_tx(&[1u8; 10], 0), Some(Err(DecodeError::InvalidLength)));

    let tx = PerpDexTx {
        user: Address::repeat_byte(0x66),
        nonce: 3,
        gas_limit: 4,
        gas_price: U256::zero(),
        signature: None,
        operations: vec![Operation::CancelOrder { market_id: 2, order_ids: vec![5, 6] }],
    };
    let mut expected = tx.clone();
    expected.gas_price = U256::from_u128(11);
    assert_eq!(try_decode_perpdex_tx(&encode_perpdex_tx(&tx), 11), Some(Ok(expected)));
}
