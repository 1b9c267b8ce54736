//! PerpDex transactions, operations and their results.
use vstd::prelude::*;

use crate::primitives::address::Address;
use crate::primitives::u256::U256;

verus! {

/// Type of order.
#[derive(Clone, Copy, Debug, PartialEq, Eq, Structural, Hash)]
pub enum OrderType {
    /// Executes at the given price or better.
    Limit,
    /// Executes at once at the best available price.
    Market,
    /// Becomes a limit order when the stop price is reached.
    StopLimit,
    /// Becomes a market order when the stop price is reached.
    StopMarket,
}

/// Order side.
#[derive(Clone, Copy, Debug, PartialEq, Eq, Structural, Hash)]
pub enum Side {
    /// Long position (buy).
    Long,
    /// Short position (sell).
    Short,
}

/// Order status.
#[derive(Clone, Copy, Debug, PartialEq, Eq, Structural, Hash)]
pub enum OrderStatus {
    /// Active in the orderbook.
    Open,
    /// Partially filled.
    PartiallyFilled,
    /// Completely filled.
    Filled,
    /// Cancelled by the user.
    Cancelled,
    /// Expired.
    Expired,
}

/// A single operation of a PerpDex transaction.
#[derive(Clone, Debug, PartialEq, Eq)]
pub enum Operation {
    /// Place a new order in the orderbook.
    PlaceOrder {
        market_id: u64,
        order_type: OrderType,
        side: Side,
        /// Order price (18-decimal fixed point).
        price: U256,
        /// Order size (18-decimal fixed point).
        size: U256,
        /// Leverage multiplier (1-100x).
        leverage: u8,
        /// Only rest on the orderbook, never execute at once.
        post_only: bool,
        /// Only reduce an existing position.
        reduce_only: bool,
        /// Optional expiration timestamp.
        expires_at: Option<u64>,
    },
    /// Cancel specific orders.
    CancelOrder { market_id: u64, order_ids: Vec<u64> },
    /// Cancel all orders, of one market or of all markets.
    CancelAll { market_id: Option<u64> },
    /// Set the leverage for a market.
    SetLeverage { market_id: u64, leverage: u8 },
    /// Add margin to a position.
    AdjustMargin { market_id: u64, amount: U256 },
}

/// An operation with its order ids as a sequence.
pub enum OperationView {
    PlaceOrder {
        market_id: u64,
        order_type: OrderType,
        side: Side,
        price: U256,
        size: U256,
        leverage: u8,
        post_only: bool,
        reduce_only: bool,
        expires_at: Option<u64>,
    },
    CancelOrder { market_id: u64, order_ids: Seq<u64> },
    CancelAll { market_id: Option<u64> },
    SetLeverage { market_id: u64, leverage: u8 },
    AdjustMargin { market_id: u64, amount: U256 },
}

impl View for Operation {
    type V = OperationView;

    open spec fn view(&self) -> OperationView {
        match self {
            Operation::PlaceOrder {
                market_id,
                order_type,
                side,
                price,
                size,
                leverage,
                post_only,
                reduce_only,
                expires_at,
            } => OperationView::PlaceOrder {
                market_id: *market_id,
                order_type: *order_type,
                side: *side,
                price: *price,
                size: *size,
                leverage: *leverage,
                post_only: *post_only,
                reduce_only: *reduce_only,
                expires_at: *expires_at,
            },
            Operation::CancelOrder { market_id, order_ids } => OperationView::CancelOrder {
                market_id: *market_id,
                order_ids: order_ids@,
            },
            Operation::CancelAll { market_id } => OperationView::CancelAll { market_id: *market_id },
            Operation::SetLeverage { market_id, leverage } => OperationView::SetLeverage {
                market_id: *market_id,
                leverage: *leverage,
            },
            Operation::AdjustMargin { market_id, amount } => OperationView::AdjustMargin {
                market_id: *market_id,
                amount: *amount,
            },
        }
    }
}

/// A PerpDex transaction: operations that one user executes atomically.
#[derive(Clone, Debug, PartialEq, Eq)]
pub struct PerpDexTx {
    /// The user executing the transaction.
    pub user: Address,
    /// Operations, executed in order.
    pub operations: Vec<Operation>,
    /// Gas limit.
    pub gas_limit: u64,
    /// Gas price in wei.
    pub gas_price: U256,
    /// Transaction nonce.
    pub nonce: u64,
    /// Optional signature.
    pub signature: Option<[u8; 65]>,
}

/// A transaction with its operations and signature as sequences.
pub struct PerpDexTxView {
    pub user: Address,
    pub operations: Seq<OperationView>,
    pub gas_limit: u64,
    pub gas_price: U256,
    pub nonce: u64,
    pub signature: Option<Seq<u8>>,
}

/// The views of a sequence of operations.
pub open spec fn operations_view(ops: Seq<Operation>) -> Seq<OperationView> {
    ops.map_values(|op: Operation| op@)
}

impl View for PerpDexTx {
    type V = PerpDexTxView;

    open spec fn view(&self) -> PerpDexTxView {
        PerpDexTxView {
            user: self.user,
            operations: operations_view(self.operations@),
            gas_limit: self.gas_limit,
            gas_price: self.gas_price,
            nonce: self.nonce,
            signature: match self.signature {
                Some(s) => Some(s@),
                None => None,
            },
        }
    }
}

/// Result of a single operation.
#[derive(Clone, Debug, PartialEq, Eq)]
pub enum OperationResult {
    /// An order was placed.
    OrderPlaced { order_id: u64, filled_size: U256 },
    /// Orders were cancelled.
    OrdersCancelled { order_ids: Vec<u64> },
    /// Leverage was updated.
    LeverageUpdated { market_id: u64, leverage: u8 },
    /// Margin was added.
    MarginAdjusted { market_id: u64, amount: U256 },
}

/// An operation result with its order ids as a sequence.
pub enum OperationResultView {
    OrderPlaced { order_id: u64, filled_size: U256 },
    OrdersCancelled { order_ids: Seq<u64> },
    LeverageUpdated { market_id: u64, leverage: u8 },
    MarginAdjusted { market_id: u64, amount: U256 },
}

impl View for OperationResult {
    type V = OperationResultView;

    open spec fn view(&self) -> OperationResultView {
        match self {
            OperationResult::OrderPlaced { order_id, filled_size } => OperationResultView::OrderPlaced {
                order_id: *order_id,
                filled_size: *filled_size,
            },
            OperationResult::OrdersCancelled { order_ids } => OperationResultView::OrdersCancelled {
                order_ids: order_ids@,
            },
            OperationResult::LeverageUpdated { market_id, leverage } => OperationResultView::LeverageUpdated {
                market_id: *market_id,
                leverage: *leverage,
            },
            OperationResult::MarginAdjusted { market_id, amount } => OperationResultView::MarginAdjusted {
                market_id: *market_id,
                amount: *amount,
            },
        }
    }
}

/// Result of executing a whole transaction.
#[derive(Clone, Debug)]
pub struct PerpDexResult {
    /// Gas used.
    pub gas_used: u64,
    /// Result of each operation, in order.
    pub operations_executed: Vec<OperationResult>,
}

/// A transaction result with its operation results as a sequence.
pub struct PerpDexResultView {
    pub gas_used: u64,
    pub operations_executed: Seq<OperationResultView>,
}

impl View for PerpDexResult {
    type V = PerpDexResultView;

    open spec fn view(&self) -> PerpDexResultView {
        PerpDexResultView {
            gas_used: self.gas_used,
            operations_executed: self.operations_executed@.map_values(|r: OperationResult| r@),
        }
    }
}

} // verus!
