//! Mixed EVM and PerpDex blocks: telling the two kinds of transaction apart,
//! and the byte format of PerpDex transactions.
//!
//! A PerpDex transaction's input is the user's 20 address bytes, the nonce,
//! the gas limit and the low 8 bytes of the gas price (8 bytes each,
//! big-endian), then the operations, each a type byte and its fields.
use vstd::prelude::*;

use crate::perpdex::types::{
    operations_view, Operation, OperationView, OrderType, PerpDexTx, PerpDexTxView, Side,
};
use crate::primitives::address::Address;
use crate::primitives::bytes::{
    be_bytes, be_value, lemma_be_bytes_len, lemma_be_value_of_bytes_small, lemma_pow256_values,
    push_be, read_be,
};
use crate::primitives::u256::{lemma_u256_of_view, u256_of, U256};

verus! {

/// VM type of a transaction.
#[derive(Clone, Copy, Debug, PartialEq, Eq, Structural)]
pub enum VmType {
    /// Ethereum Virtual Machine.
    Evm,
    /// PerpDex orderbook VM.
    PerpDex,
}

/// Decoding errors.
#[derive(Clone, Copy, Debug, PartialEq, Eq, Structural)]
pub enum DecodeError {
    /// The input is shorter than the 44-byte header.
    InvalidLength,
    /// An operation is malformed.
    InvalidFormat,
    /// The signature is invalid.
    InvalidSignature,
}

/// The bytes of the PerpDex contract address: twenty `0xFF`.
pub open spec fn perpdex_contract_bytes() -> Seq<u8> {
    Seq::new(20, |i: int| 0xFFu8)
}

/// The address to which PerpDex transactions are sent: twenty `0xFF` bytes.
pub fn perpdex_contract_address() -> (r: Address)
    ensures
        r@ == perpdex_contract_bytes(),
{
    Address::repeat_byte(0xFF)
}

/// A transaction whose recipient `to` is the PerpDex contract is a PerpDex
/// transaction; any other is an EVM transaction.
pub fn identify_vm_type(to: Option<Address>) -> (r: VmType)
    ensures
        r == if to matches Some(a) && a@ == perpdex_contract_bytes() {
            VmType::PerpDex
        } else {
            VmType::Evm
        },
{
    if let Some(to) = to {
        let contract = perpdex_contract_address();
        if to == contract {
            return VmType::PerpDex;
        }
        proof {
            if to@ == contract@ {
                to.lemma_view_injective(contract);
            }
        }
    }
    VmType::Evm
}

/// The byte of an order type.
pub open spec fn order_type_byte(t: OrderType) -> u8 {
    match t {
        OrderType::Limit => 0,
        OrderType::Market => 1,
        OrderType::StopLimit => 2,
        OrderType::StopMarket => 3,
    }
}

/// The byte of a side.
pub open spec fn side_byte(s: Side) -> u8 {
    match s {
        Side::Long => 0,
        Side::Short => 1,
    }
}

/// The byte of a flag.
pub open spec fn flag_byte(b: bool) -> u8 {
    if b {
        1
    } else {
        0
    }
}

/// Order ids, 8 bytes each.
pub open spec fn encode_ids(ids: Seq<u64>) -> Seq<u8>
    decreases ids.len(),
{
    if ids.len() == 0 {
        Seq::empty()
    } else {
        be_bytes(ids[0] as nat, 8) + encode_ids(ids.drop_first())
    }
}

/// The bytes of one operation.
pub open spec fn encode_op(op: OperationView) -> Seq<u8> {
    match op {
        OperationView::PlaceOrder {
            market_id,
            order_type,
            side,
            price,
            size,
            leverage,
            post_only,
            reduce_only,
            expires_at,
        } => seq![0u8] + be_bytes(market_id as nat, 8) + seq![order_type_byte(order_type), side_byte(side)]
            + be_bytes(price@, 32) + be_bytes(size@, 32) + seq![
            leverage,
            flag_byte(post_only),
            flag_byte(reduce_only),
        ] + be_bytes(
            match expires_at {
                Some(t) => t as nat,
                None => 0,
            },
            8,
        ),
        OperationView::CancelOrder { market_id, order_ids } => seq![1u8] + be_bytes(market_id as nat, 8)
            + be_bytes(order_ids.len(), 8) + encode_ids(order_ids),
        OperationView::CancelAll { market_id } => seq![2u8] + be_bytes(
            match market_id {
                Some(m) => m as nat,
                None => 0,
            },
            8,
        ),
        OperationView::SetLeverage { market_id, leverage } => seq![3u8] + be_bytes(market_id as nat, 8)
            + seq![leverage],
        OperationView::AdjustMargin { market_id, amount } => seq![4u8] + be_bytes(market_id as nat, 8)
            + be_bytes(amount@, 32),
    }
}

/// The bytes of a sequence of operations.
pub open spec fn encode_ops(ops: Seq<OperationView>) -> Seq<u8>
    decreases ops.len(),
{
    if ops.len() == 0 {
        Seq::empty()
    } else {
        encode_op(ops[0]) + encode_ops(ops.drop_first())
    }
}

/// The bytes of a transaction.
pub open spec fn encode_tx(tx: PerpDexTxView) -> Seq<u8> {
    tx.user@ + be_bytes(tx.nonce as nat, 8) + be_bytes(tx.gas_limit as nat, 8) + be_bytes(
        tx.gas_price@ % 0x1_0000_0000_0000_0000,
        8,
    ) + encode_ops(tx.operations)
}

/// Outcome of decoding operations.
pub enum DecodeOutcome {
    /// The operations.
    Decoded(Seq<OperationView>),
    /// A decoding error.
    Failed(DecodeError),
    /// An order-id count so large that computing its end overflows: the
    /// decoder would panic.
    Aborts,
}

/// `op` before the operations of an outcome.
pub open spec fn prepend(op: OperationView, rest: DecodeOutcome) -> DecodeOutcome {
    match rest {
        DecodeOutcome::Decoded(ops) => DecodeOutcome::Decoded(seq![op] + ops),
        other => other,
    }
}

/// `prefix` before the operations of an outcome.
pub open spec fn prepend_all(prefix: Seq<OperationView>, rest: DecodeOutcome) -> DecodeOutcome {
    match rest {
        DecodeOutcome::Decoded(ops) => DecodeOutcome::Decoded(prefix + ops),
        other => other,
    }
}

/// The big-endian value of `n` bytes of `data` at `pos`.
pub open spec fn be_at(data: Seq<u8>, pos: int, n: int) -> nat {
    be_value(data.subrange(pos, pos + n))
}

/// The order ids of a cancel record whose ids start at `pos`.
pub open spec fn ids_at(data: Seq<u8>, pos: int, count: nat) -> Seq<u64> {
    Seq::new(count, |k: int| be_at(data, pos + 8 * k, 8) as u64)
}

/// Decoding the operations of `data` from `pos` on.
pub open spec fn decode_from(data: Seq<u8>, pos: int) -> DecodeOutcome
    decreases data.len() - pos,
{
    if pos < 0 || pos >= data.len() {
        DecodeOutcome::Decoded(Seq::empty())
    } else {
        let off = pos + 1;
        let op_type = data[pos];
        if op_type == 0 {
            if off + 85 > data.len() {
                DecodeOutcome::Failed(DecodeError::InvalidFormat)
            } else if data[off + 8] > 3 {
                DecodeOutcome::Failed(DecodeError::InvalidFormat)
            } else {
                let expires_raw = be_at(data, off + 77, 8);
                let op = OperationView::PlaceOrder {
                    market_id: be_at(data, off, 8) as u64,
                    order_type: if data[off + 8] == 0 {
                        OrderType::Limit
                    } else if data[off + 8] == 1 {
                        OrderType::Market
                    } else if data[off + 8] == 2 {
                        OrderType::StopLimit
                    } else {
                        OrderType::StopMarket
                    },
                    side: if data[off + 9] == 0 {
                        Side::Long
                    } else {
                        Side::Short
                    },
                    price: u256_of(be_at(data, off + 10, 32)),
                    size: u256_of(be_at(data, off + 42, 32)),
                    leverage: data[off + 74],
                    post_only: data[off + 75] != 0,
                    reduce_only: data[off + 76] != 0,
                    expires_at: if expires_raw == 0 {
                        None
                    } else {
                        Some(expires_raw as u64)
                    },
                };
                prepend(op, decode_from(data, off + 85))
            }
        } else if op_type == 1 {
            if off + 16 > data.len() {
                DecodeOutcome::Failed(DecodeError::InvalidFormat)
            } else {
                let count = ((be_at(data, off + 8, 8) as u64) as usize) as nat;
                let start = off + 16;
                if start + count * 8 > usize::MAX {
                    DecodeOutcome::Aborts
                } else if start + count * 8 > data.len() {
                    DecodeOutcome::Failed(DecodeError::InvalidFormat)
                } else {
                    let op = OperationView::CancelOrder {
                        market_id: be_at(data, off, 8) as u64,
                        order_ids: ids_at(data, start, count),
                    };
                    prepend(op, decode_from(data, start + count * 8))
                }
            }
        } else if op_type == 2 {
            if off + 8 > data.len() {
                DecodeOutcome::Failed(DecodeError::InvalidFormat)
            } else {
                let raw = be_at(data, off, 8);
                let op = OperationView::CancelAll {
                    market_id: if raw == 0 {
                        None
                    } else {
                        Some(raw as u64)
                    },
                };
                prepend(op, decode_from(data, off + 8))
            }
        } else if op_type == 3 {
            if off + 9 > data.len() {
                DecodeOutcome::Failed(DecodeError::InvalidFormat)
            } else {
                let op = OperationView::SetLeverage {
                    market_id: be_at(data, off, 8) as u64,
                    leverage: data[off + 8],
                };
                prepend(op, decode_from(data, off + 9))
            }
        } else if op_type == 4 {
            if off + 40 > data.len() {
                DecodeOutcome::Failed(DecodeError::InvalidFormat)
            } else {
                let op = OperationView::AdjustMargin {
                    market_id: be_at(data, off, 8) as u64,
                    amount: u256_of(be_at(data, off + 8, 32)),
                };
                prepend(op, decode_from(data, off + 40))
            }
        } else {
            DecodeOutcome::Failed(DecodeError::InvalidFormat)
        }
    }
}

/// `prefix` then `op` then the rest is `prefix + [op]` then the rest.
proof fn lemma_prepend_step(prefix: Seq<OperationView>, op: OperationView, rest: DecodeOutcome)
    ensures
        prepend_all(prefix, prepend(op, rest)) == prepend_all(prefix.push(op), rest),
{
    match rest {
        DecodeOutcome::Decoded(ops) => {
            assert(prefix + (seq![op] + ops) =~= prefix.push(op) + ops);
        },
        _ => {},
    }
}

/// Decodes operations from bytes, or gives `None` where a count of order ids
/// is so large that the end of its ids overflows `usize`.
fn decode_operations_checked(data: &[u8]) -> (r: Option<Result<Vec<Operation>, DecodeError>>)
    ensures
        match decode_from(data@, 0) {
            DecodeOutcome::Decoded(ops) => r matches Some(Ok(v)) && operations_view(v@) == ops,
            DecodeOutcome::Failed(e) => r == Some(Err::<Vec<Operation>, DecodeError>(e)),
            DecodeOutcome::Aborts => r is None,
        },
{
    let len = data.len();
    if len == 0 {
        let empty: Vec<Operation> = Vec::new();
        assert(operations_view(empty@) =~= Seq::<OperationView>::empty());
        return Some(Ok(empty));
    }
    let mut operations: Vec<Operation> = Vec::new();
    let mut offset: usize = 0;
    assert(operations_view(operations@) =~= Seq::<OperationView>::empty());
    assert(prepend_all(Seq::<OperationView>::empty(), decode_from(data@, 0)) == decode_from(data@, 0)) by {
        match decode_from(data@, 0) {
            DecodeOutcome::Decoded(ops) => {
                assert(Seq::<OperationView>::empty() + ops =~= ops);
            },
            _ => {},
        }
    }
    while offset < len
        invariant
            len == data@.len(),
            offset <= len,
            decode_from(data@, 0) == prepend_all(operations_view(operations@), decode_from(data@, offset as int)),
        decreases len - offset,
    {
        let ghost pos = offset as int;
        let ghost prefix = operations_view(operations@);
        let op_type = data[offset];
        offset = offset + 1;
        let op: Operation;
        if op_type == 0 {
            if 85 > len - offset {
                return Some(Err(DecodeError::InvalidFormat));
            }
            let market_id = read_be(data, offset, 8);
            offset = offset + 8;
            let order_type_byte = data[offset];
            offset = offset + 1;
            let order_type = match order_type_byte {
                0 => OrderType::Limit,
                1 => OrderType::Market,
                2 => OrderType::StopLimit,
                3 => OrderType::StopMarket,
                _ => {
                    return Some(Err(DecodeError::InvalidFormat));
                },
            };
            let side = if data[offset] == 0 {
                Side::Long
            } else {
                Side::Short
            };
            offset = offset + 1;
            let price = U256::from_be_slice(&data[offset..offset + 32]);
            offset = offset + 32;
            let size = U256::from_be_slice(&data[offset..offset + 32]);
            offset = offset + 32;
            let leverage = data[offset];
            offset = offset + 1;
            let post_only = data[offset] != 0;
            offset = offset + 1;
            let reduce_only = data[offset] != 0;
            offset = offset + 1;
            let expires_at_raw = read_be(data, offset, 8);
            offset = offset + 8;
            let expires_at = if expires_at_raw == 0 {
                None
            } else {
                Some(expires_at_raw)
            };
            proof {
                lemma_u256_of_view(price);
                lemma_u256_of_view(size);
            }
            op = Operation::PlaceOrder {
                market_id,
                order_type,
                side,
                price,
                size,
                leverage,
                post_only,
                reduce_only,
                expires_at,
            };
        } else if op_type == 1 {
            if 16 > len - offset {
                return Some(Err(DecodeError::InvalidFormat));
            }
            let market_id = read_be(data, offset, 8);
            offset = offset + 8;
            let count = read_be(data, offset, 8) as usize;
            offset = offset + 8;
            let ghost start = offset as int;
            if count > (usize::MAX - offset) / 8 {
                proof {
                    assert(start + count * 8 > usize::MAX);
                    assert(decode_from(data@, pos) is Aborts);
                }
                return None;
            }
            if offset + count * 8 > len {
                return Some(Err(DecodeError::InvalidFormat));
            }
            let mut order_ids: Vec<u64> = Vec::with_capacity(count);
            let mut k: usize = 0;
            while k < count
                invariant
                    len == data@.len(),
                    start + count * 8 <= len,
                    k <= count,
                    offset == start + 8 * k,
                    order_ids@ == ids_at(data@, start, count as nat).take(k as int),
                decreases count - k,
            {
                let id = read_be(data, offset, 8);
                order_ids.push(id);
                assert(order_ids@ =~= ids_at(data@, start, count as nat).take(k + 1));
                offset = offset + 8;
                k = k + 1;
            }
            assert(order_ids@ =~= ids_at(data@, start, count as nat));
            op = Operation::CancelOrder { market_id, order_ids };
        } else if op_type == 2 {
            if 8 > len - offset {
                return Some(Err(DecodeError::InvalidFormat));
            }
            let market_id_raw = read_be(data, offset, 8);
            offset = offset + 8;
            let market_id = if market_id_raw == 0 {
                None
            } else {
                Some(market_id_raw)
            };
            op = Operation::CancelAll { market_id };
        } else if op_type == 3 {
            if 9 > len - offset {
                return Some(Err(DecodeError::InvalidFormat));
            }
            let market_id = read_be(data, offset, 8);
            offset = offset + 8;
            let leverage = data[offset];
            offset = offset + 1;
            op = Operation::SetLeverage { market_id, leverage };
        } else if op_type == 4 {
            if 40 > len - offset {
                return Some(Err(DecodeError::InvalidFormat));
            }
            let market_id = read_be(data, offset, 8);
            offset = offset + 8;
            let amount = U256::from_be_slice(&data[offset..offset + 32]);
            offset = offset + 32;
            proof {
                lemma_u256_of_view(amount);
            }
            op = Operation::AdjustMargin { market_id, amount };
        } else {
            return Some(Err(DecodeError::InvalidFormat));
        }
        proof {
            assert(decode_from(data@, pos) == prepend(op@, decode_from(data@, offset as int)));
            lemma_prepend_step(prefix, op@, decode_from(data@, offset as int));
        }
        operations.push(op);
        assert(operations_view(operations@) =~= prefix.push(op@));
    }
    proof {
        assert(decode_from(data@, offset as int) == DecodeOutcome::Decoded(Seq::empty()));
        assert(operations_view(operations@) + Seq::<OperationView>::empty() =~= operations_view(operations@));
    }
    Some(Ok(operations))
}

/// Decodes operations from bytes; a count of order ids whose end overflows
/// `usize` is refused by `requires`.
pub fn decode_operations(data: &[u8]) -> (r: Result<Vec<Operation>, DecodeError>)
    requires
        !(decode_from(data@, 0) is Aborts),
    ensures
        match decode_from(data@, 0) {
            DecodeOutcome::Decoded(ops) => r matches Ok(v) && operations_view(v@) == ops,
            DecodeOutcome::Failed(e) => r == Err::<Vec<Operation>, DecodeError>(e),
            DecodeOutcome::Aborts => false,
        },
{
    match decode_operations_checked(data) {
        Some(r) => r,
        None => Err(DecodeError::InvalidFormat),
    }
}

/// Appending an operation appends its bytes.
proof fn lemma_encode_ops_push(ops: Seq<OperationView>, op: OperationView)
    ensures
        encode_ops(ops.push(op)) == encode_ops(ops) + encode_op(op),
    decreases ops.len(),
{
    assert(ops.push(op)[0] == if ops.len() == 0 { op } else { ops[0] });
    if ops.len() == 0 {
        assert(ops.push(op).drop_first() =~= Seq::<OperationView>::empty());
        assert(encode_ops(Seq::<OperationView>::empty()) == Seq::<u8>::empty());
        assert(encode_ops(ops) == Seq::<u8>::empty());
        assert(encode_op(op) + Seq::<u8>::empty() =~= encode_op(op));
        assert(Seq::<u8>::empty() + encode_op(op) =~= encode_op(op));
    } else {
        assert(ops.push(op).drop_first() =~= ops.drop_first().push(op));
        lemma_encode_ops_push(ops.drop_first(), op);
        assert(encode_op(ops[0]) + (encode_ops(ops.drop_first()) + encode_op(op)) =~= (encode_op(ops[0])
            + encode_ops(ops.drop_first())) + encode_op(op));
    }
}

/// Appending an id appends its 8 bytes.
proof fn lemma_encode_ids_push(ids: Seq<u64>, id: u64)
    ensures
        encode_ids(ids.push(id)) == encode_ids(ids) + be_bytes(id as nat, 8),
    decreases ids.len(),
{
    assert(ids.push(id)[0] == if ids.len() == 0 { id } else { ids[0] });
    if ids.len() == 0 {
        assert(ids.push(id).drop_first() =~= Seq::<u64>::empty());
        assert(encode_ids(Seq::<u64>::empty()) == Seq::<u8>::empty());
        assert(encode_ids(ids) == Seq::<u8>::empty());
        assert(be_bytes(id as nat, 8) + Seq::<u8>::empty() =~= be_bytes(id as nat, 8));
        assert(Seq::<u8>::empty() + be_bytes(id as nat, 8) =~= be_bytes(id as nat, 8));
    } else {
        assert(ids.push(id).drop_first() =~= ids.drop_first().push(id));
        lemma_encode_ids_push(ids.drop_first(), id);
        assert(be_bytes(ids[0] as nat, 8) + (encode_ids(ids.drop_first()) + be_bytes(id as nat, 8)) =~= (
        be_bytes(ids[0] as nat, 8) + encode_ids(ids.drop_first())) + be_bytes(id as nat, 8));
    }
}

/// Appends the bytes of a slice.
fn push_slice(out: &mut Vec<u8>, bytes: &[u8])
    ensures
        final(out)@ == old(out)@ + bytes@,
{
    let mut i: usize = 0;
    while i < bytes.len()
        invariant
            i <= bytes@.len(),
            out@ == old(out)@ + bytes@.take(i as int),
        decreases bytes@.len() - i,
    {
        out.push(bytes[i]);
        assert(bytes@.take(i + 1) =~= bytes@.take(i as int).push(bytes@[i as int]));
        i = i + 1;
    }
    assert(bytes@.take(bytes@.len() as int) =~= bytes@);
}

/// Appends the bytes of one operation.
fn encode_operation(data: &mut Vec<u8>, op: &Operation)
    ensures
        final(data)@ == old(data)@ + encode_op(op@),
{
    match op {
        Operation::PlaceOrder {
            market_id,
            order_type,
            side,
            price,
            size,
            leverage,
            post_only,
            reduce_only,
            expires_at,
        } => {
            data.push(0u8);
            push_be(data, *market_id, 8);
            data.push(
                match order_type {
                    OrderType::Limit => 0u8,
                    OrderType::Market => 1u8,
                    OrderType::StopLimit => 2u8,
                    OrderType::StopMarket => 3u8,
                },
            );
            data.push(
                if *side == Side::Long {
                    0u8
                } else {
                    1u8
                },
            );
            let price_bytes = price.to_be_bytes();
            push_slice(data, price_bytes.as_slice());
            let size_bytes = size.to_be_bytes();
            push_slice(data, size_bytes.as_slice());
            data.push(*leverage);
            data.push(
                if *post_only {
                    1u8
                } else {
                    0u8
                },
            );
            data.push(
                if *reduce_only {
                    1u8
                } else {
                    0u8
                },
            );
            let expires = match expires_at {
                Some(t) => *t,
                None => 0,
            };
            push_be(data, expires, 8);
        },
        Operation::CancelOrder { market_id, order_ids } => {
            data.push(1u8);
            push_be(data, *market_id, 8);
            push_be(data, order_ids.len() as u64, 8);
            let ghost head = data@;
            let mut i: usize = 0;
            assert(order_ids@.take(0) =~= Seq::<u64>::empty());
            assert(head + encode_ids(Seq::<u64>::empty()) =~= head);
            while i < order_ids.len()
                invariant
                    i <= order_ids@.len(),
                    data@ == head + encode_ids(order_ids@.take(i as int)),
                decreases order_ids@.len() - i,
            {
                let id = order_ids[i];
                push_be(data, id, 8);
                proof {
                    assert(order_ids@.take(i + 1) =~= order_ids@.take(i as int).push(id));
                    lemma_encode_ids_push(order_ids@.take(i as int), id);
                }
                assert(data@ =~= head + encode_ids(order_ids@.take(i + 1)));
                i = i + 1;
            }
            assert(order_ids@.take(order_ids@.len() as int) =~= order_ids@);
        },
        Operation::CancelAll { market_id } => {
            data.push(2u8);
            let m = match market_id {
                Some(m) => *m,
                None => 0,
            };
            push_be(data, m, 8);
        },
        Operation::SetLeverage { market_id, leverage } => {
            data.push(3u8);
            push_be(data, *market_id, 8);
            data.push(*leverage);
        },
        Operation::AdjustMargin { market_id, amount } => {
            data.push(4u8);
            push_be(data, *market_id, 8);
            let amount_bytes = amount.to_be_bytes();
            push_slice(data, amount_bytes.as_slice());
        },
    }
    assert(data@ =~= old(data)@ + encode_op(op@));
}

/// Encodes a PerpDex transaction: the header, then each operation.
pub fn encode_perpdex_tx(tx: &PerpDexTx) -> (r: Vec<u8>)
    ensures
        r@ == encode_tx(tx@),
{
    let mut data: Vec<u8> = Vec::new();
    let mut user = tx.user.to_vec();
    data.append(&mut user);
    push_be(&mut data, tx.nonce, 8);
    push_be(&mut data, tx.gas_limit, 8);
    push_be(&mut data, tx.gas_price.low_u64(), 8);
    let ghost head = data@;
    let ghost ops = tx@.operations;
    assert(ops.take(0) =~= Seq::<OperationView>::empty());
    assert(head + encode_ops(Seq::<OperationView>::empty()) =~= head);
    let mut i: usize = 0;
    while i < tx.operations.len()
        invariant
            i <= tx.operations@.len(),
            ops == tx@.operations,
            data@ == head + encode_ops(ops.take(i as int)),
        decreases tx.operations@.len() - i,
    {
        encode_operation(&mut data, &tx.operations[i]);
        proof {
            assert(ops[i as int] == tx.operations@[i as int]@);
            assert(ops.take(i + 1) =~= ops.take(i as int).push(ops[i as int]));
            lemma_encode_ops_push(ops.take(i as int), ops[i as int]);
        }
        assert(data@ =~= head + encode_ops(ops.take(i + 1)));
        i = i + 1;
    }
    assert(ops.take(ops.len() as int) =~= ops);
    assert(data@ =~= encode_tx(tx@));
    data
}

/// Decodes a PerpDex transaction from a transaction's input and its max fee
/// per gas: the header gives the user, nonce and gas limit, the max fee the
/// gas price, and the rest the operations. Gives `None` exactly where a count
/// of order ids is so large that the end of its ids overflows `usize`.
pub fn try_decode_perpdex_tx(input: &[u8], max_fee_per_gas: u128) -> (r: Option<Result<PerpDexTx, DecodeError>>)
    ensures
        input@.len() < 44 ==> r == Some(Err::<PerpDexTx, DecodeError>(DecodeError::InvalidLength)),
        input@.len() >= 44 ==> match decode_from(input@.subrange(44, input@.len() as int), 0) {
            DecodeOutcome::Decoded(ops) => r matches Some(Ok(tx)) && tx.user@ == input@.subrange(0, 20)
                && tx.nonce as nat == be_at(input@, 20, 8) && tx.gas_limit as nat == be_at(input@, 28, 8)
                && tx.gas_price@ == max_fee_per_gas as nat && tx.signature is None && tx@.operations == ops,
            DecodeOutcome::Failed(e) => r == Some(Err::<PerpDexTx, DecodeError>(e)),
            DecodeOutcome::Aborts => r is None,
        },
{
    let len = input.len();
    if len < 44 {
        return Some(Err(DecodeError::InvalidLength));
    }
    let user = Address::from_slice(&input[0..20]);
    let nonce = read_be(input, 20, 8);
    let gas_limit = read_be(input, 28, 8);
    let gas_price = U256::from_u128(max_fee_per_gas);
    let operations = match decode_operations_checked(&input[44..len]) {
        Some(Ok(ops)) => ops,
        Some(Err(e)) => {
            return Some(Err(e));
        },
        None => {
            return None;
        },
    };
    Some(Ok(PerpDexTx { user, operations, gas_limit, gas_price, nonce, signature: None }))
}

/// Decodes a PerpDex transaction, as `try_decode_perpdex_tx` does; inputs on
/// which that gives `None` are refused by `requires`.
pub fn decode_perpdex_tx(input: &[u8], max_fee_per_gas: u128) -> (r: Result<PerpDexTx, DecodeError>)
    requires
        input@.len() >= 44 ==> !(decode_from(input@.subrange(44, input@.len() as int), 0) is Aborts),
    ensures
        input@.len() < 44 ==> r == Err::<PerpDexTx, DecodeError>(DecodeError::InvalidLength),
        input@.len() >= 44 ==> match decode_from(input@.subrange(44, input@.len() as int), 0) {
            DecodeOutcome::Decoded(ops) => r matches Ok(tx) && tx.user@ == input@.subrange(0, 20)
                && tx.nonce as nat == be_at(input@, 20, 8) && tx.gas_limit as nat == be_at(input@, 28, 8)
                && tx.gas_price@ == max_fee_per_gas as nat && tx.signature is None && tx@.operations == ops,
            DecodeOutcome::Failed(e) => r == Err::<PerpDexTx, DecodeError>(e),
            DecodeOutcome::Aborts => false,
        },
{
    match try_decode_perpdex_tx(input, max_fee_per_gas) {
        Some(r) => r,
        None => Err(DecodeError::InvalidFormat),
    }
}

/// An operation that decoding gives back as it was encoded: an expiry or a
/// market filter of 0 reads back as none.
pub open spec fn op_round_trips(op: OperationView) -> bool {
    match op {
        OperationView::PlaceOrder { expires_at, .. } => expires_at != Some(0u64),
        OperationView::CancelAll { market_id } => market_id != Some(0u64),
        _ => true,
    }
}

/// Operations that decoding gives back: each round-trips.
pub open spec fn ops_round_trip(ops: Seq<OperationView>) -> bool {
    forall|i: int| 0 <= i < ops.len() ==> op_round_trips(#[trigger] ops[i])
}

proof fn lemma_encode_ids_len(ids: Seq<u64>)
    ensures
        encode_ids(ids).len() == 8 * ids.len(),
    decreases ids.len(),
{
    if ids.len() > 0 {
        lemma_encode_ids_len(ids.drop_first());
        lemma_be_bytes_len(ids[0] as nat, 8);
    }
}

/// The bytes of the `k`-th id.
proof fn lemma_encode_ids_index(ids: Seq<u64>, k: int)
    requires
        0 <= k < ids.len(),
    ensures
        encode_ids(ids).subrange(8 * k, 8 * k + 8) == be_bytes(ids[k] as nat, 8),
    decreases ids.len(),
{
    lemma_encode_ids_len(ids);
    lemma_be_bytes_len(ids[0] as nat, 8);
    let head = be_bytes(ids[0] as nat, 8);
    let tail = encode_ids(ids.drop_first());
    if k == 0 {
        assert(encode_ids(ids).subrange(0, 8) =~= head);
    } else {
        lemma_encode_ids_index(ids.drop_first(), k - 1);
        lemma_encode_ids_len(ids.drop_first());
        assert(encode_ids(ids).subrange(8 * k, 8 * k + 8) =~= tail.subrange(8 * (k - 1), 8 * (k - 1) + 8));
    }
}

/// A field of a record that `data` holds at `pos`.
proof fn lemma_field(data: Seq<u8>, pos: int, e: Seq<u8>, a: int, b: int)
    requires
        0 <= pos,
        pos + e.len() <= data.len(),
        data.subrange(pos, pos + e.len()) == e,
        0 <= a <= b <= e.len(),
    ensures
        data.subrange(pos + a, pos + b) == e.subrange(a, b),
{
    assert(data.subrange(pos + a, pos + b) =~= e.subrange(a, b));
}

/// The value of an encoded 8-byte field.
proof fn lemma_u64_field(data: Seq<u8>, pos: int, e: Seq<u8>, a: int, x: u64)
    requires
        0 <= pos,
        pos + e.len() <= data.len(),
        data.subrange(pos, pos + e.len()) == e,
        0 <= a,
        a + 8 <= e.len(),
        e.subrange(a, a + 8) == be_bytes(x as nat, 8),
    ensures
        be_at(data, pos + a, 8) == x as nat,
{
    lemma_field(data, pos, e, a, a + 8);
    lemma_pow256_values();
    lemma_be_value_of_bytes_small(x as nat, 8);
}

/// The value of an encoded 32-byte field.
proof fn lemma_u256_field(data: Seq<u8>, pos: int, e: Seq<u8>, a: int, x: U256)
    requires
        0 <= pos,
        pos + e.len() <= data.len(),
        data.subrange(pos, pos + e.len()) == e,
        0 <= a,
        a + 32 <= e.len(),
        e.subrange(a, a + 32) == be_bytes(x@, 32),
    ensures
        u256_of(be_at(data, pos + a, 32)) == x,
{
    lemma_field(data, pos, e, a, a + 32);
    lemma_pow256_values();
    x.lemma_bounded();
    lemma_be_value_of_bytes_small(x@, 32);
    lemma_u256_of_view(x);
}

/// The ids of an encoded id list.
proof fn lemma_ids_field(data: Seq<u8>, start: int, ids: Seq<u64>)
    requires
        0 <= start,
        start + 8 * ids.len() <= data.len(),
        data.subrange(start, start + 8 * ids.len()) == encode_ids(ids),
    ensures
        ids_at(data, start, ids.len()) == ids,
{
    lemma_encode_ids_len(ids);
    assert forall|k: int| 0 <= k < ids.len() implies #[trigger] ids_at(data, start, ids.len())[k] == ids[k] by {
        lemma_encode_ids_index(ids, k);
        lemma_u64_field(data, start, encode_ids(ids), 8 * k, ids[k]);
    }
    assert(ids_at(data, start, ids.len()) =~= ids);
}

/// Decoding an encoded order placement.
proof fn lemma_decode_place_order(data: Seq<u8>, pos: int, op: OperationView)
    requires
        op is PlaceOrder,
        op_round_trips(op),
        0 <= pos,
        pos + encode_op(op).len() <= data.len(),
        data.subrange(pos, pos + encode_op(op).len()) == encode_op(op),
    ensures
        encode_op(op).len() == 86,
        decode_from(data, pos) == prepend(op, decode_from(data, pos + 86)),
{
    let e = encode_op(op);
    match op {
        OperationView::PlaceOrder {
            market_id,
            order_type,
            side,
            price,
            size,
            leverage,
            post_only,
            reduce_only,
            expires_at,
        } => {
            let x: u64 = match expires_at {
                Some(t) => t,
                None => 0,
            };
            lemma_be_bytes_len(market_id as nat, 8);
            lemma_be_bytes_len(price@, 32);
            lemma_be_bytes_len(size@, 32);
            lemma_be_bytes_len(x as nat, 8);
            assert(e.len() == 86);
            assert(e.subrange(1, 9) =~= be_bytes(market_id as nat, 8));
            assert(e.subrange(11, 43) =~= be_bytes(price@, 32));
            assert(e.subrange(43, 75) =~= be_bytes(size@, 32));
            assert(e.subrange(78, 86) =~= be_bytes(x as nat, 8));
            lemma_u64_field(data, pos, e, 1, market_id);
            lemma_u256_field(data, pos, e, 11, price);
            lemma_u256_field(data, pos, e, 43, size);
            lemma_u64_field(data, pos, e, 78, x);
            assert(data[pos] == e[0]);
            assert(data[pos + 9] == e[9]);
            assert(data[pos + 10] == e[10]);
            assert(data[pos + 75] == e[75]);
            assert(data[pos + 76] == e[76]);
            assert(data[pos + 77] == e[77]);
            assert(e[0] == 0);
            assert(e[9] == order_type_byte(order_type));
            assert(e[10] == side_byte(side));
            assert(e[75] == leverage);
            assert(e[76] == flag_byte(post_only));
            assert(e[77] == flag_byte(reduce_only));
        },
        _ => {},
    }
}

/// Decoding an encoded cancellation of orders.
proof fn lemma_decode_cancel_order(data: Seq<u8>, pos: int, op: OperationView)
    requires
        op is CancelOrder,
        0 <= pos,
        pos + encode_op(op).len() <= data.len(),
        data.len() <= usize::MAX,
        data.subrange(pos, pos + encode_op(op).len()) == encode_op(op),
    ensures
        encode_op(op).len() >= 17,
        decode_from(data, pos) == prepend(op, decode_from(data, pos + encode_op(op).len())),
{
    let e = encode_op(op);
    match op {
        OperationView::CancelOrder { market_id, order_ids } => {
            let n = order_ids.len() as int;
            lemma_be_bytes_len(market_id as nat, 8);
            lemma_be_bytes_len(n as nat, 8);
            lemma_encode_ids_len(order_ids);
            assert(e.len() == 17 + 8 * n);
            assert(e.subrange(1, 9) =~= be_bytes(market_id as nat, 8));
            assert(e.subrange(9, 17) =~= be_bytes(n as nat, 8));
            assert(e.subrange(17, 17 + 8 * n) =~= encode_ids(order_ids));
            lemma_u64_field(data, pos, e, 1, market_id);
            lemma_u64_field(data, pos, e, 9, n as u64);
            lemma_field(data, pos, e, 17, 17 + 8 * n);
            lemma_ids_field(data, pos + 17, order_ids);
            assert(data[pos] == e[0]);
        },
        _ => {},
    }
}

/// Decoding the other encoded operations.
proof fn lemma_decode_small_op(data: Seq<u8>, pos: int, op: OperationView)
    requires
        op is CancelAll || op is SetLeverage || op is AdjustMargin,
        op_round_trips(op),
        0 <= pos,
        pos + encode_op(op).len() <= data.len(),
        data.subrange(pos, pos + encode_op(op).len()) == encode_op(op),
    ensures
        encode_op(op).len() >= 9,
        decode_from(data, pos) == prepend(op, decode_from(data, pos + encode_op(op).len())),
{
    let e = encode_op(op);
    match op {
        OperationView::CancelAll { market_id } => {
            let v: u64 = match market_id {
                Some(m) => m,
                None => 0,
            };
            lemma_be_bytes_len(v as nat, 8);
            assert(e.subrange(1, 9) =~= be_bytes(v as nat, 8));
            lemma_u64_field(data, pos, e, 1, v);
            assert(data[pos] == e[0]);
        },
        OperationView::SetLeverage { market_id, leverage } => {
            lemma_be_bytes_len(market_id as nat, 8);
            assert(e.subrange(1, 9) =~= be_bytes(market_id as nat, 8));
            lemma_u64_field(data, pos, e, 1, market_id);
            assert(data[pos] == e[0]);
            assert(data[pos + 9] == e[9]);
        },
        OperationView::AdjustMargin { market_id, amount } => {
            lemma_be_bytes_len(market_id as nat, 8);
            lemma_be_bytes_len(amount@, 32);
            assert(e.subrange(1, 9) =~= be_bytes(market_id as nat, 8));
            assert(e.subrange(9, 41) =~= be_bytes(amount@, 32));
            lemma_u64_field(data, pos, e, 1, market_id);
            lemma_u256_field(data, pos, e, 9, amount);
            assert(data[pos] == e[0]);
        },
        _ => {},
    }
}

/// Decoding from `pos` gives back the operations encoded there.
proof fn lemma_decode_encoded_ops(data: Seq<u8>, pos: int, ops: Seq<OperationView>)
    requires
        0 <= pos <= data.len(),
        data.len() <= usize::MAX,
        data.subrange(pos, data.len() as int) == encode_ops(ops),
        ops_round_trip(ops),
    ensures
        decode_from(data, pos) == DecodeOutcome::Decoded(ops),
    decreases ops.len(),
{
    if ops.len() == 0 {
        assert(data.subrange(pos, data.len() as int).len() == 0);
        assert(ops =~= Seq::<OperationView>::empty());
    } else {
        let op = ops[0];
        let rest = ops.drop_first();
        let e = encode_op(op);
        let tail = encode_ops(rest);
        assert(op_round_trips(ops[0]));
        assert(encode_ops(ops) == e + tail);
        assert(data.subrange(pos, pos + e.len()) =~= e) by {
            assert(data.subrange(pos, pos + e.len()) =~= data.subrange(pos, data.len() as int).subrange(0, e.len() as int));
        }
        assert(data.subrange(pos + e.len(), data.len() as int) =~= tail) by {
            assert(data.subrange(pos + e.len(), data.len() as int) =~= data.subrange(pos, data.len() as int).subrange(
                e.len() as int,
                (data.len() - pos) as int,
            ));
        }
        if op is PlaceOrder {
            lemma_decode_place_order(data, pos, op);
        } else if op is CancelOrder {
            lemma_decode_cancel_order(data, pos, op);
        } else {
            lemma_decode_small_op(data, pos, op);
        }
        assert(ops_round_trip(rest)) by {
            assert forall|i: int| 0 <= i < rest.len() implies op_round_trips(#[trigger] rest[i]) by {
                assert(rest[i] == ops[i + 1]);
            }
        }
        lemma_decode_encoded_ops(data, pos + e.len(), rest);
        assert(seq![op] + rest =~= ops);
    }
}

/// Decoding undoes encoding: the header of an encoded transaction gives back
/// its user, nonce and gas limit, and the rest its operations, for operations
/// that round-trip and an encoding that fits in memory.
pub proof fn law_decode_inverts_encode(tx: PerpDexTxView)
    requires
        ops_round_trip(tx.operations),
        encode_tx(tx).len() <= usize::MAX,
    ensures
        encode_tx(tx).len() >= 44,
        encode_tx(tx).subrange(0, 20) == tx.user@,
        be_at(encode_tx(tx), 20, 8) == tx.nonce as nat,
        be_at(encode_tx(tx), 28, 8) == tx.gas_limit as nat,
        decode_from(encode_tx(tx).subrange(44, encode_tx(tx).len() as int), 0) == DecodeOutcome::Decoded(
            tx.operations,
        ),
{
    let d = encode_tx(tx);
    tx.user.lemma_len();
    lemma_be_bytes_len(tx.nonce as nat, 8);
    lemma_be_bytes_len(tx.gas_limit as nat, 8);
    lemma_be_bytes_len(tx.gas_price@ % 0x1_0000_0000_0000_0000, 8);
    assert(d.subrange(0, 20) =~= tx.user@);
    let head = d.subrange(0, 44);
    assert(head.subrange(20, 28) =~= be_bytes(tx.nonce as nat, 8));
    assert(head.subrange(28, 36) =~= be_bytes(tx.gas_limit as nat, 8));
    assert(d.subrange(0, 44) =~= head);
    lemma_u64_field(d, 0, head, 20, tx.nonce);
    lemma_u64_field(d, 0, head, 28, tx.gas_limit);
    let body = d.subrange(44, d.len() as int);
    assert(body =~= encode_ops(tx.operations));
    assert(body.subrange(0, body.len() as int) =~= body);
    lemma_decode_encoded_ops(body, 0, tx.operations);
}

} // verus!
