//! PerpDex executor.
use std::sync::Arc;

use vstd::prelude::*;

use super::execution_spec::{
    abs, capped_i128, id_after, key_deletions, key_ids, lazy_locations, lemma_run_stops, next_id_after,
    op_reads, operation_gas, ops_reads, order_deletions, sign, spec_adjust_margin, spec_execute,
    spec_is_reducing, spec_limit_order, spec_market_order, spec_match_order, spec_new_entry_price,
    spec_op, spec_place_order, spec_read_balance, spec_read_market, spec_read_nonce,
    spec_read_position, spec_required_margin, spec_run, spec_signed_size, spec_unrealized_pnl,
    spec_update_position, spec_update_position_defined, storage_reads, tx_reads, usdc_asset_id,
    ExecOutcome, ExecutionErrorView, MarketData, OpOutcome, PositionData, RunState,
};
use super::executor_traits::{
    FinishExecFlags, MvMemory, ReadOrigin, ReadSet, TxVersion, VmExecutionResult, VmExecutor, WriteSet,
};
use super::state::{PerpDexLocation, PerpDexValue};
use super::storage::{PerpDexStorage, StorageError};
use super::types::{
    Operation, OperationResult, OperationResultView, OrderStatus, OrderType, PerpDexResult,
    PerpDexTx, Side,
};
use crate::primitives::address::Address;
use crate::primitives::u256::{lemma_u256_of_view, u256_modulus, U256};

verus! {

/// The asset in which margin is held.
pub const USDC_ASSET_ID: u16 = 0;

/// Fixed-point precision of prices and sizes: 18 decimals.
pub const PRICE_PRECISION: u128 = 1_000_000_000_000_000_000;

/// Gas charged for each executed operation.
pub const OPERATION_GAS: u64 = 21000;

/// Block execution context.
#[derive(Clone, Copy, Debug)]
pub struct BlockConfig {
    /// Block timestamp.
    pub timestamp: u64,
    /// Block number.
    pub block_number: u64,
}

/// Execution errors.
#[derive(Clone, Debug)]
pub enum ExecutionError {
    /// The transaction's nonce is not the user's.
    NonceMismatch { expected: u64, actual: u64 },
    /// The balance does not cover the amount.
    InsufficientBalance { required: U256, available: U256 },
    /// Leverage outside 1-100.
    InvalidLeverage(u8),
    /// A reduce-only order would not reduce the position.
    ReduceOnlyViolation,
    /// Invalid position operation or stored value.
    InvalidPosition(String),
    /// Storage error.
    Storage(StorageError),
    /// Order not found.
    OrderNotFound(u64),
}

impl View for ExecutionError {
    type V = ExecutionErrorView;

    open spec fn view(&self) -> ExecutionErrorView {
        match self {
            ExecutionError::NonceMismatch { expected, actual } => ExecutionErrorView::NonceMismatch {
                expected: *expected,
                actual: *actual,
            },
            ExecutionError::InsufficientBalance { required, available } => ExecutionErrorView::InsufficientBalance {
                required: *required,
                available: *available,
            },
            ExecutionError::InvalidLeverage(l) => ExecutionErrorView::InvalidLeverage(*l),
            ExecutionError::ReduceOnlyViolation => ExecutionErrorView::ReduceOnlyViolation,
            ExecutionError::InvalidPosition(m) => ExecutionErrorView::InvalidPosition(m@),
            ExecutionError::Storage(e) => ExecutionErrorView::Storage(*e),
            ExecutionError::OrderNotFound(id) => ExecutionErrorView::OrderNotFound(*id),
        }
    }
}

/// An executable result agrees with a specified one.
pub open spec fn result_matches<T>(r: Result<T, ExecutionError>, s: Result<T, ExecutionErrorView>) -> bool {
    match s {
        Ok(v) => r == Ok::<T, ExecutionError>(v),
        Err(e) => r matches Err(x) && x@ == e,
    }
}

/// An operation's executable result and writes agree with its outcome; a
/// failed operation writes nothing.
pub open spec fn op_matches(
    r: Result<OperationResult, ExecutionError>,
    before: Seq<(PerpDexLocation, PerpDexValue)>,
    after: Seq<(PerpDexLocation, PerpDexValue)>,
    outcome: OpOutcome,
) -> bool {
    match outcome {
        OpOutcome::Done { result, writes, .. } => r matches Ok(x) && x@ == result && after == before + writes,
        OpOutcome::Failed(e) => r matches Err(x) && x@ == e && after == before,
        OpOutcome::Aborts => false,
    }
}

/// The views of operation results.
pub open spec fn results_view(results: Seq<OperationResult>) -> Seq<OperationResultView> {
    results.map_values(|r: OperationResult| r@)
}

/// An execution's outcome agrees with the specified one, and the executor's
/// next order id is the one it ends with.
pub open spec fn execution_matches(
    r: VmExecutionResult<PerpDexLocation, PerpDexValue, PerpDexResult, ExecutionError>,
    outcome: ExecOutcome,
    next_order_id: u64,
) -> bool {
    match outcome {
        ExecOutcome::Success { results, writes, gas_used, next_order_id: id } => {
            &&& r matches VmExecutionResult::Success { read_set, write_set, result, flags }
            &&& write_set.writes() == writes
            &&& write_set.hashes_partitioned()
            &&& result@.gas_used == gas_used
            &&& result@.operations_executed == results
            &&& flags.spec_bits() == 0
            &&& next_order_id == id
        },
        ExecOutcome::Failure { error, next_order_id: id } => {
            &&& r matches VmExecutionResult::Error(e)
            &&& e@ == error
            &&& next_order_id == id
        },
        ExecOutcome::Aborts => false,
    }
}

/// The sign of `x`.
fn signum(x: i128) -> (r: i128)
    ensures
        r as int == sign(x as int),
{
    if x > 0 {
        1
    } else if x < 0 {
        -1
    } else {
        0
    }
}

/// `|x|` as a `u128`.
fn unsigned_abs(x: i128) -> (r: u128)
    ensures
        r as nat == abs(x as int),
{
    if x < 0 {
        ((-(x + 1)) as u128) + 1
    } else {
        x as u128
    }
}

/// `|x|`, for `x` other than `i128::MIN`.
fn abs_i128(x: i128) -> (r: i128)
    requires
        x != i128::MIN,
    ensures
        r as int == abs(x as int),
{
    if x < 0 {
        -x
    } else {
        x
    }
}

/// The order size signed by its side, `i128::MAX` standing for sizes that do
/// not fit.
fn signed_size(size: U256, side: Side) -> (r: i128)
    ensures
        r as int == spec_signed_size(size@, side),
{
    let capped = match size.to_i128() {
        Some(v) => v,
        None => i128::MAX,
    };
    match side {
        Side::Long => capped,
        Side::Short => -capped,
    }
}

/// `x` as an `i128`, `i128::MAX` where it does not fit.
fn capped_to_i128(x: U256) -> (r: i128)
    ensures
        r as int == capped_i128(x@),
{
    match x.to_i128() {
        Some(v) => v,
        None => i128::MAX,
    }
}

/// PerpDex executor.
pub struct PerpDexExecutor<S> {
    storage: Arc<S>,
    block_config: BlockConfig,
    next_order_id: u64,
}

impl<S> PerpDexExecutor<S> {
    /// The storage read by the executor.
    pub closed spec fn spec_storage(&self) -> S {
        *self.storage
    }

    /// The block configuration.
    pub closed spec fn spec_config(&self) -> BlockConfig {
        self.block_config
    }

    /// The next order id to hand out.
    pub closed spec fn spec_next_order_id(&self) -> u64 {
        self.next_order_id
    }

    /// An executor over `storage` for a block, handing out order ids from 1.
    pub fn new(storage: Arc<S>, block_config: BlockConfig) -> (r: PerpDexExecutor<S>)
        ensures
            r.spec_storage() == *storage,
            r.spec_config() == block_config,
            r.spec_next_order_id() == 1,
    {
        PerpDexExecutor { storage, block_config, next_order_id: 1 }
    }

    /// Hands out the next order id; ids wrap around after `u64::MAX`.
    pub fn generate_order_id(&mut self) -> (r: u64)
        ensures
            r == old(self).spec_next_order_id(),
            final(self).spec_next_order_id() == next_id_after(old(self).spec_next_order_id(), true),
            forall|first: u64, i: nat|
                #![trigger id_after(first, i)]
                old(self).spec_next_order_id() == id_after(first, i) ==> r == id_after(first, i)
                    && final(self).spec_next_order_id() == id_after(first, i + 1),
            final(self).spec_storage() == old(self).spec_storage(),
            final(self).spec_config() == old(self).spec_config(),
    {
        let id = self.next_order_id;
        self.next_order_id = if id == u64::MAX {
            0
        } else {
            id + 1
        };
        id
    }

    /// Gas charged for an operation.
    pub fn estimate_gas(&self, op: &Operation) -> (r: u64)
        ensures
            r as nat == operation_gas(),
    {
        OPERATION_GAS
    }

    /// Whether an order of signed size `order_size_signed` reduces a position
    /// of `position_size`: the position is open, the signs are opposite, and
    /// the order is no larger than the position, so that it cannot flip it.
    pub fn is_reducing(&self, order_size_signed: i128, position_size: i128) -> (r: bool)
        ensures
            r == spec_is_reducing(order_size_signed as int, position_size as int),
    {
        if position_size == 0 {
            return false;
        }
        let same_sign = (order_size_signed > 0) == (position_size > 0);
        if same_sign {
            false
        } else {
            unsigned_abs(order_size_signed) <= unsigned_abs(position_size)
        }
    }

    /// Margin for a position: price times size (wrapping at `2^256`), scaled
    /// down by the precision, divided by the leverage.
    pub fn calculate_required_margin(&self, price: U256, size: U256, leverage: u8) -> (r: Result<U256, ExecutionError>)
        requires
            leverage >= 1,
        ensures
            r matches Ok(m) && m@ == spec_required_margin(price@, size@, leverage),
    {
        let precision = U256::from_u128(PRICE_PRECISION);
        let notional = price.wrapping_mul(&size).div(&precision);
        let margin = notional.div(&U256::from_u128(leverage as u128));
        Ok(margin)
    }

    /// Unrealized PnL of a position at `mark_price`, capped at `i128::MAX` in
    /// magnitude.
    pub fn calculate_unrealized_pnl(&self, position: &PositionData, mark_price: U256) -> (r: i128)
        ensures
            r as int == spec_unrealized_pnl(*position, mark_price@),
    {
        if position.size == 0 {
            return 0;
        }
        let size_abs = U256::from_u128(unsigned_abs(position.size));
        let is_long = position.size > 0;
        let precision = U256::from_u128(PRICE_PRECISION);
        if position.entry_price.lt(&mark_price) {
            let diff = mark_price.wrapping_sub(&position.entry_price);
            proof {
                position.entry_price.lemma_bounded();
                mark_price.lemma_bounded();
                vstd::arithmetic::div_mod::lemma_small_mod(
                    (mark_price@ - position.entry_price@) as nat,
                    u256_modulus(),
                );
            }
            let amount = capped_to_i128(size_abs.wrapping_mul(&diff).div(&precision));
            if is_long {
                amount
            } else {
                -amount
            }
        } else {
            let diff = position.entry_price.wrapping_sub(&mark_price);
            proof {
                position.entry_price.lemma_bounded();
                mark_price.lemma_bounded();
                vstd::arithmetic::div_mod::lemma_small_mod(
                    (position.entry_price@ - mark_price@) as nat,
                    u256_modulus(),
                );
            }
            let amount = capped_to_i128(size_abs.wrapping_mul(&diff).div(&precision));
            if is_long {
                -amount
            } else {
                amount
            }
        }
    }

    /// A market order fills in full at the mark price, unless it is
    /// reduce-only and does not reduce the position.
    fn execute_market_order(
        &self,
        side: Side,
        size: U256,
        market: &MarketData,
        current_position: &Option<PositionData>,
        reduce_only: bool,
    ) -> (r: Result<(U256, U256), ExecutionError>)
        ensures
            result_matches(r, spec_market_order(side, size, *market, *current_position, reduce_only)),
    {
        let size_signed = signed_size(size, side);
        if reduce_only {
            match current_position {
                Some(pos) => {
                    if !self.is_reducing(size_signed, pos.size) {
                        return Err(ExecutionError::ReduceOnlyViolation);
                    }
                },
                None => {
                    return Err(ExecutionError::ReduceOnlyViolation);
                },
            }
        }
        Ok((size, market.mark_price))
    }

    /// A limit order fills in full at its price where the mark price is at or
    /// better than it; a reduce-only order must reduce the position.
    fn execute_limit_order(
        &self,
        side: Side,
        price: U256,
        size: U256,
        market: &MarketData,
        current_position: &Option<PositionData>,
        reduce_only: bool,
    ) -> (r: Result<(U256, U256), ExecutionError>)
        ensures
            result_matches(r, spec_limit_order(side, price, size, *market, *current_position, reduce_only)),
    {
        let can_fill = match side {
            Side::Long => !price.lt(&market.mark_price),
            Side::Short => !market.mark_price.lt(&price),
        };
        if !can_fill {
            let z = U256::zero();
            proof {
                lemma_u256_of_view(z);
            }
            return Ok((z, z));
        }
        if reduce_only {
            let size_signed = signed_size(size, side);
            match current_position {
                Some(pos) => {
                    if !self.is_reducing(size_signed, pos.size) {
                        return Err(ExecutionError::ReduceOnlyViolation);
                    }
                },
                None => {
                    return Err(ExecutionError::ReduceOnlyViolation);
                },
            }
        }
        Ok((size, price))
    }

    /// The position after a fill of `filled_size` at `fill_price`.
    fn update_position(
        &self,
        current: Option<PositionData>,
        side: Side,
        filled_size: U256,
        fill_price: U256,
        leverage: u8,
    ) -> (r: Result<PositionData, ExecutionError>)
        requires
            leverage >= 1,
            spec_update_position_defined(current, side, filled_size@),
        ensures
            r == Ok::<PositionData, ExecutionError>(
                spec_update_position(current, side, filled_size@, fill_price@, leverage),
            ),
    {
        let size_delta = signed_size(filled_size, side);
        match current {
            Some(pos) => {
                let new_size = pos.size + size_delta;
                let new_entry_price = if signum(pos.size) == signum(size_delta) {
                    let precision = U256::from_u128(PRICE_PRECISION);
                    let old_notional = U256::from_u128(unsigned_abs(pos.size)).wrapping_mul(
                        &pos.entry_price,
                    ).div(&precision);
                    let new_notional = U256::from_u128(unsigned_abs(size_delta)).wrapping_mul(
                        &fill_price,
                    ).div(&precision);
                    let total_notional = old_notional.wrapping_add(&new_notional);
                    let total_size = U256::from_u128(unsigned_abs(new_size));
                    if !total_size.is_zero() {
                        total_notional.wrapping_mul(&precision).div(&total_size)
                    } else {
                        U256::zero()
                    }
                } else {
                    if abs_i128(new_size) < abs_i128(pos.size) {
                        pos.entry_price
                    } else {
                        fill_price
                    }
                };
                let new_margin = match self.calculate_required_margin(
                    new_entry_price,
                    U256::from_u128(unsigned_abs(new_size)),
                    leverage,
                ) {
                    Ok(m) => m,
                    Err(e) => {
                        return Err(e);
                    },
                };
                proof {
                    lemma_u256_of_view(new_entry_price);
                    lemma_u256_of_view(new_margin);
                    assert(new_entry_price@ == spec_new_entry_price(pos, size_delta as int, fill_price@));
                }
                Ok(
                    PositionData {
                        size: new_size,
                        entry_price: new_entry_price,
                        leverage,
                        margin: new_margin,
                        unrealized_pnl: 0,
                        last_funding_index: pos.last_funding_index,
                    },
                )
            },
            None => {
                let margin = match self.calculate_required_margin(fill_price, filled_size, leverage) {
                    Ok(m) => m,
                    Err(e) => {
                        return Err(e);
                    },
                };
                let zero = U256::zero();
                proof {
                    lemma_u256_of_view(fill_price);
                    lemma_u256_of_view(margin);
                    lemma_u256_of_view(zero);
                }
                Ok(
                    PositionData {
                        size: size_delta,
                        entry_price: fill_price,
                        leverage,
                        margin,
                        unrealized_pnl: 0,
                        last_funding_index: zero,
                    },
                )
            },
        }
    }
}

impl<S: PerpDexStorage> PerpDexExecutor<S> {
    /// Reads a location from storage (multi-version memory is not consulted
    /// yet), and records the read, from storage, in the read set.
    fn read_location(
        &self,
        location: &PerpDexLocation,
        read_set: &mut ReadSet<PerpDexLocation>,
        mv_memory: &MvMemory,
    ) -> (r: Result<Option<PerpDexValue>, ExecutionError>)
        requires
            self.spec_storage().inv(),
        ensures
            final(read_set).reads() == old(read_set).reads().push((*location, ReadOrigin::Storage)),
            final(read_set).wf(),
            match self.spec_storage().spec_get(*location) {
                Ok(v) => r == Ok::<Option<PerpDexValue>, ExecutionError>(v),
                Err(e) => r matches Err(x) && x@ == ExecutionErrorView::Storage(e),
            },
    {
        read_set.insert(*location, ReadOrigin::Storage);
        match self.storage.get(location) {
            Ok(v) => Ok(v),
            Err(e) => Err(ExecutionError::Storage(e)),
        }
    }

    /// The user's nonce: 0 where none is stored.
    fn read_nonce(
        &self,
        user: Address,
        read_set: &mut ReadSet<PerpDexLocation>,
        mv_memory: &MvMemory,
    ) -> (r: Result<u64, ExecutionError>)
        requires
            self.spec_storage().inv(),
        ensures
            final(read_set).reads() == old(read_set).reads().push(
                (PerpDexLocation::UserNonce(user), ReadOrigin::Storage),
            ),
            final(read_set).wf(),
            result_matches(r, spec_read_nonce(self.spec_storage(), user)),
    {
        let location = PerpDexLocation::UserNonce(user);
        match self.read_location(&location, read_set, mv_memory) {
            Err(e) => Err(e),
            Ok(Some(PerpDexValue::Nonce(n))) => Ok(n),
            Ok(None) => Ok(0),
            Ok(Some(_)) => Err(ExecutionError::InvalidPosition("Invalid nonce value".to_owned())),
        }
    }

    /// The user's balance of an asset: 0 where none is stored.
    fn read_balance(
        &self,
        user: Address,
        asset_id: u16,
        read_set: &mut ReadSet<PerpDexLocation>,
        mv_memory: &MvMemory,
    ) -> (r: Result<U256, ExecutionError>)
        requires
            self.spec_storage().inv(),
            asset_id == usdc_asset_id(),
        ensures
            final(read_set).reads() == old(read_set).reads().push(
                (PerpDexLocation::Balance(user, usdc_asset_id()), ReadOrigin::Storage),
            ),
            final(read_set).wf(),
            result_matches(r, spec_read_balance(self.spec_storage(), user)),
    {
        let location = PerpDexLocation::Balance(user, asset_id);
        match self.read_location(&location, read_set, mv_memory) {
            Err(e) => Err(e),
            Ok(Some(PerpDexValue::Balance(b))) => Ok(b),
            Ok(None) => {
                let z = U256::zero();
                proof {
                    lemma_u256_of_view(z);
                }
                Ok(z)
            },
            Ok(Some(_)) => Err(ExecutionError::InvalidPosition("Invalid balance value".to_owned())),
        }
    }

    /// The user's position in a market, if any.
    fn read_position(
        &self,
        user: Address,
        market_id: u64,
        read_set: &mut ReadSet<PerpDexLocation>,
        mv_memory: &MvMemory,
    ) -> (r: Result<Option<PositionData>, ExecutionError>)
        requires
            self.spec_storage().inv(),
        ensures
            final(read_set).reads() == old(read_set).reads().push(
                (PerpDexLocation::Position(user, market_id), ReadOrigin::Storage),
            ),
            final(read_set).wf(),
            result_matches(r, spec_read_position(self.spec_storage(), user, market_id)),
    {
        let location = PerpDexLocation::Position(user, market_id);
        match self.read_location(&location, read_set, mv_memory) {
            Err(e) => Err(e),
            Ok(
                Some(
                    PerpDexValue::Position {
                        size,
                        entry_price,
                        leverage,
                        margin,
                        unrealized_pnl,
                        last_funding_index,
                    },
                ),
            ) => Ok(
                Some(PositionData { size, entry_price, leverage, margin, unrealized_pnl, last_funding_index }),
            ),
            Ok(None) => Ok(None),
            Ok(Some(_)) => Err(ExecutionError::InvalidPosition("Invalid position value".to_owned())),
        }
    }

    /// The market's state; a market with no stored state has $1000 prices,
    /// zero funding and open interest, and the block's timestamp.
    fn read_market(
        &self,
        market_id: u64,
        read_set: &mut ReadSet<PerpDexLocation>,
        mv_memory: &MvMemory,
    ) -> (r: Result<MarketData, ExecutionError>)
        requires
            self.spec_storage().inv(),
        ensures
            final(read_set).reads() == old(read_set).reads().push(
                (PerpDexLocation::MarketState(market_id), ReadOrigin::Storage),
            ),
            final(read_set).wf(),
            result_matches(r, spec_read_market(self.spec_storage(), self.spec_config().timestamp, market_id)),
    {
        let location = PerpDexLocation::MarketState(market_id);
        match self.read_location(&location, read_set, mv_memory) {
            Err(e) => Err(e),
            Ok(
                Some(
                    PerpDexValue::MarketState {
                        index_price,
                        mark_price,
                        funding_rate,
                        funding_index,
                        open_interest_long,
                        open_interest_short,
                        last_update,
                    },
                ),
            ) => Ok(
                MarketData {
                    index_price,
                    mark_price,
                    funding_rate,
                    funding_index,
                    open_interest_long,
                    open_interest_short,
                    last_update,
                },
            ),
            Ok(None) => {
                let price = U256::from_u128(1000).wrapping_mul(&U256::from_u128(PRICE_PRECISION));
                let z = U256::zero();
                proof {
                    assert(1000 * PRICE_PRECISION < u256_modulus());
                    vstd::arithmetic::div_mod::lemma_small_mod(
                        (1000 * PRICE_PRECISION) as nat,
                        u256_modulus(),
                    );
                    lemma_u256_of_view(price);
                    lemma_u256_of_view(z);
                }
                Ok(
                    MarketData {
                        index_price: price,
                        mark_price: price,
                        funding_rate: 0,
                        funding_index: z,
                        open_interest_long: z,
                        open_interest_short: z,
                        last_update: self.block_config.timestamp,
                    },
                )
            },
            Ok(Some(_)) => Err(ExecutionError::InvalidPosition("Invalid market state".to_owned())),
        }
    }
}

impl<S: PerpDexStorage> PerpDexExecutor<S> {
    /// Sets the leverage of a market: only the range 1-100 is checked.
    fn execute_set_leverage(
        &self,
        tx: &PerpDexTx,
        market_id: u64,
        leverage: u8,
        write_set: &mut WriteSet<PerpDexLocation, PerpDexValue>,
    ) -> (r: Result<OperationResult, ExecutionError>)
        ensures
            *final(write_set) == *old(write_set),
            op_matches(
                r,
                old(write_set).writes(),
                final(write_set).writes(),
                spec_op(
                    self.spec_storage(),
                    self.spec_config().timestamp,
                    tx.user,
                    super::types::OperationView::SetLeverage { market_id, leverage },
                    self.spec_next_order_id(),
                ),
            ),
    {
        reveal(spec_op);
        if leverage < 1 || leverage > 100 {
            return Err(ExecutionError::InvalidLeverage(leverage));
        }
        assert(write_set.writes() =~= write_set.writes() + Seq::<(PerpDexLocation, PerpDexValue)>::empty());
        Ok(OperationResult::LeverageUpdated { market_id, leverage })
    }

    /// Moves `amount` of the user's balance into the margin of a position.
    fn execute_adjust_margin(
        &self,
        tx: &PerpDexTx,
        market_id: u64,
        amount: U256,
        read_set: &mut ReadSet<PerpDexLocation>,
        write_set: &mut WriteSet<PerpDexLocation, PerpDexValue>,
        mv_memory: &MvMemory,
    ) -> (r: Result<OperationResult, ExecutionError>)
        requires
            self.spec_storage().inv(),
            old(write_set).hashes_partitioned(),
        ensures
            old(read_set).wf() ==> final(read_set).wf(),
            r is Ok ==> final(read_set).reads() == old(read_set).reads() + storage_reads(
                op_reads(tx.user, super::types::OperationView::AdjustMargin { market_id, amount }),
            ),
            final(write_set).hashes_partitioned(),
            op_matches(
                r,
                old(write_set).writes(),
                final(write_set).writes(),
                spec_op(
                    self.spec_storage(),
                    self.spec_config().timestamp,
                    tx.user,
                    super::types::OperationView::AdjustMargin { market_id, amount },
                    self.spec_next_order_id(),
                ),
            ),
    {
        reveal(spec_op);
        let balance = match self.read_balance(tx.user, USDC_ASSET_ID, read_set, mv_memory) {
            Ok(b) => b,
            Err(e) => {
                return Err(e);
            },
        };
        if balance.lt(&amount) {
            return Err(ExecutionError::InsufficientBalance { required: amount, available: balance });
        }
        let position = match self.read_position(tx.user, market_id, read_set, mv_memory) {
            Ok(p) => p,
            Err(e) => {
                return Err(e);
            },
        };
        match position {
            Some(pos) => {
                let margin = pos.margin.wrapping_add(&amount);
                let rest = balance.wrapping_sub(&amount);
                proof {
                    balance.lemma_bounded();
                    vstd::arithmetic::div_mod::lemma_small_mod((balance@ - amount@) as nat, u256_modulus());
                    lemma_u256_of_view(margin);
                    lemma_u256_of_view(rest);
                }
                let ghost before = write_set.writes();
                write_set.push(
                    PerpDexLocation::Position(tx.user, market_id),
                    PerpDexValue::Position {
                        size: pos.size,
                        entry_price: pos.entry_price,
                        leverage: pos.leverage,
                        margin,
                        unrealized_pnl: pos.unrealized_pnl,
                        last_funding_index: pos.last_funding_index,
                    },
                );
                write_set.push(PerpDexLocation::Balance(tx.user, USDC_ASSET_ID), PerpDexValue::Balance(rest));
                let ghost expected = spec_adjust_margin(self.spec_storage(), tx.user, market_id, amount);
                assert(expected matches OpOutcome::Done { writes, .. } && write_set.writes() =~= before + writes);
                Ok(OperationResult::MarginAdjusted { market_id, amount })
            },
            None => Err(ExecutionError::InvalidPosition("No position to adjust margin".to_owned())),
        }
    }

    /// Deletes the given orders of one market.
    fn execute_cancel_order(
        &self,
        tx: &PerpDexTx,
        market_id: u64,
        order_ids: &[u64],
        write_set: &mut WriteSet<PerpDexLocation, PerpDexValue>,
    ) -> (r: Result<OperationResult, ExecutionError>)
        requires
            old(write_set).hashes_partitioned(),
        ensures
            final(write_set).hashes_partitioned(),
            op_matches(
                r,
                old(write_set).writes(),
                final(write_set).writes(),
                spec_op(
                    self.spec_storage(),
                    self.spec_config().timestamp,
                    tx.user,
                    super::types::OperationView::CancelOrder { market_id, order_ids: order_ids@ },
                    self.spec_next_order_id(),
                ),
            ),
    {
        reveal(spec_op);
        let ids = push_deletions(tx.user, market_id, order_ids, write_set);
        Ok(OperationResult::OrdersCancelled { order_ids: ids })
    }

    /// Deletes all of the user's orders, of one market or, with no market, of
    /// all markets, each at its own market.
    fn execute_cancel_all(
        &self,
        tx: &PerpDexTx,
        market_id: Option<u64>,
        read_set: &mut ReadSet<PerpDexLocation>,
        write_set: &mut WriteSet<PerpDexLocation, PerpDexValue>,
        mv_memory: &MvMemory,
    ) -> (r: Result<OperationResult, ExecutionError>)
        requires
            self.spec_storage().inv(),
            old(write_set).hashes_partitioned(),
        ensures
            *final(read_set) == *old(read_set),
            final(write_set).hashes_partitioned(),
            op_matches(
                r,
                old(write_set).writes(),
                final(write_set).writes(),
                spec_op(
                    self.spec_storage(),
                    self.spec_config().timestamp,
                    tx.user,
                    super::types::OperationView::CancelAll { market_id },
                    self.spec_next_order_id(),
                ),
            ),
    {
        reveal(spec_op);
        match market_id {
            Some(mid) => {
                let order_ids = match self.storage.get_user_orders(tx.user, mid) {
                    Ok(ids) => ids,
                    Err(e) => {
                        return Err(ExecutionError::Storage(e));
                    },
                };
                let ids = push_deletions(tx.user, mid, order_ids.as_slice(), write_set);
                Ok(OperationResult::OrdersCancelled { order_ids: ids })
            },
            None => {
                let keys = match self.storage.get_all_user_order_keys(tx.user) {
                    Ok(keys) => keys,
                    Err(e) => {
                        return Err(ExecutionError::Storage(e));
                    },
                };
                let ids = push_key_deletions(tx.user, keys.as_slice(), write_set);
                Ok(OperationResult::OrdersCancelled { order_ids: ids })
            },
        }
    }
}

/// Records the deletion of each order at its own market, and returns the ids.
fn push_key_deletions(
    user: Address,
    keys: &[(u64, u64)],
    write_set: &mut WriteSet<PerpDexLocation, PerpDexValue>,
) -> (r: Vec<u64>)
    requires
        old(write_set).hashes_partitioned(),
    ensures
        r@ == key_ids(keys@),
        final(write_set).hashes_partitioned(),
        final(write_set).writes() == old(write_set).writes() + key_deletions(user, keys@),
{
    let mut ids: Vec<u64> = Vec::new();
    let mut i: usize = 0;
    while i < keys.len()
        invariant
            i <= keys@.len(),
            ids@ == key_ids(keys@.take(i as int)),
            write_set.hashes_partitioned(),
            write_set.writes() == old(write_set).writes() + key_deletions(user, keys@.take(i as int)),
        decreases keys@.len() - i,
    {
        let (market_id, id) = keys[i];
        write_set.push(PerpDexLocation::Order(user, market_id, id), PerpDexValue::Deleted);
        ids.push(id);
        assert(keys@.take(i + 1) =~= keys@.take(i as int).push((market_id, id)));
        assert(key_ids(keys@.take(i + 1)) =~= key_ids(keys@.take(i as int)).push(id));
        assert(key_deletions(user, keys@.take(i + 1)) =~= key_deletions(user, keys@.take(i as int)).push(
            (PerpDexLocation::Order(user, market_id, id), PerpDexValue::Deleted),
        ));
        i = i + 1;
    }
    assert(keys@.take(keys@.len() as int) =~= keys@);
    ids
}

/// Records the deletion of each order, and returns the ids.
fn push_deletions(
    user: Address,
    market_id: u64,
    order_ids: &[u64],
    write_set: &mut WriteSet<PerpDexLocation, PerpDexValue>,
) -> (r: Vec<u64>)
    requires
        old(write_set).hashes_partitioned(),
    ensures
        r@ == order_ids@,
        final(write_set).hashes_partitioned(),
        final(write_set).writes() == old(write_set).writes() + order_deletions(user, market_id, order_ids@),
{
    let mut ids: Vec<u64> = Vec::new();
    let mut i: usize = 0;
    while i < order_ids.len()
        invariant
            i <= order_ids@.len(),
            ids@ == order_ids@.take(i as int),
            write_set.hashes_partitioned(),
            write_set.writes() == old(write_set).writes() + order_deletions(
                user,
                market_id,
                order_ids@.take(i as int),
            ),
        decreases order_ids@.len() - i,
    {
        let id = order_ids[i];
        write_set.push(PerpDexLocation::Order(user, market_id, id), PerpDexValue::Deleted);
        ids.push(id);
        assert(order_ids@.take(i + 1) =~= order_ids@.take(i as int).push(id));
        assert(order_deletions(user, market_id, order_ids@.take(i + 1)) =~= order_deletions(
            user,
            market_id,
            order_ids@.take(i as int),
        ).push((PerpDexLocation::Order(user, market_id, id), PerpDexValue::Deleted)));
        i = i + 1;
    }
    assert(order_ids@.take(order_ids@.len() as int) =~= order_ids@);
    ids
}

impl<S: PerpDexStorage> PerpDexExecutor<S> {
    /// Places an order: checks the leverage and the margin, matches the order
    /// by its type, takes an order id, rests what is not filled on the book,
    /// and on a fill updates the position and takes the margin from the
    /// balance.
    fn execute_place_order(
        &mut self,
        tx: &PerpDexTx,
        market_id: u64,
        order_type: OrderType,
        side: Side,
        price: U256,
        size: U256,
        leverage: u8,
        post_only: bool,
        reduce_only: bool,
        expires_at: Option<u64>,
        read_set: &mut ReadSet<PerpDexLocation>,
        write_set: &mut WriteSet<PerpDexLocation, PerpDexValue>,
        mv_memory: &MvMemory,
    ) -> (r: Result<OperationResult, ExecutionError>)
        requires
            old(self).spec_storage().inv(),
            old(write_set).hashes_partitioned(),
            !(spec_place_order(
                old(self).spec_storage(),
                old(self).spec_config().timestamp,
                tx.user,
                market_id,
                order_type,
                side,
                price,
                size,
                leverage,
                post_only,
                reduce_only,
                expires_at,
                old(self).spec_next_order_id(),
            ) is Aborts),
        ensures
            old(read_set).wf() ==> final(read_set).wf(),
            r is Ok ==> final(read_set).reads() == old(read_set).reads() + storage_reads(
                op_reads(
                    tx.user,
                    super::types::OperationView::PlaceOrder {
                        market_id,
                        order_type,
                        side,
                        price,
                        size,
                        leverage,
                        post_only,
                        reduce_only,
                        expires_at,
                    },
                ),
            ),
            final(write_set).hashes_partitioned(),
            final(self).spec_storage() == old(self).spec_storage(),
            final(self).spec_config() == old(self).spec_config(),
            ({
                let outcome = spec_place_order(
                    old(self).spec_storage(),
                    old(self).spec_config().timestamp,
                    tx.user,
                    market_id,
                    order_type,
                    side,
                    price,
                    size,
                    leverage,
                    post_only,
                    reduce_only,
                    expires_at,
                    old(self).spec_next_order_id(),
                );
                &&& op_matches(r, old(write_set).writes(), final(write_set).writes(), outcome)
                &&& final(self).spec_next_order_id() == match outcome {
                    OpOutcome::Done { uses_id, .. } => next_id_after(old(self).spec_next_order_id(), uses_id),
                    _ => old(self).spec_next_order_id(),
                }
            }),
    {
        if leverage < 1 || leverage > 100 {
            return Err(ExecutionError::InvalidLeverage(leverage));
        }
        let balance = match self.read_balance(tx.user, USDC_ASSET_ID, read_set, mv_memory) {
            Ok(b) => b,
            Err(e) => {
                return Err(e);
            },
        };
        let position = match self.read_position(tx.user, market_id, read_set, mv_memory) {
            Ok(p) => p,
            Err(e) => {
                return Err(e);
            },
        };
        let market = match self.read_market(market_id, read_set, mv_memory) {
            Ok(m) => m,
            Err(e) => {
                return Err(e);
            },
        };
        let required_margin = match self.calculate_required_margin(price, size, leverage) {
            Ok(m) => m,
            Err(e) => {
                return Err(e);
            },
        };
        proof {
            lemma_u256_of_view(required_margin);
        }
        if balance.lt(&required_margin) {
            return Err(ExecutionError::InsufficientBalance { required: required_margin, available: balance });
        }
        let matched = match order_type {
            OrderType::Market => self.execute_market_order(side, size, &market, &position, reduce_only),
            OrderType::Limit => {
                if post_only {
                    let z = U256::zero();
                    proof {
                        lemma_u256_of_view(z);
                    }
                    Ok((z, z))
                } else {
                    self.execute_limit_order(side, price, size, &market, &position, reduce_only)
                }
            },
            OrderType::StopLimit | OrderType::StopMarket => {
                let z = U256::zero();
                proof {
                    lemma_u256_of_view(z);
                }
                Ok((z, z))
            },
        };
        assert(result_matches(
            matched,
            spec_match_order(order_type, side, price, size, post_only, reduce_only, market, position),
        ));
        let (filled_size, avg_fill_price) = match matched {
            Ok(m) => m,
            Err(e) => {
                return Err(e);
            },
        };
        let order_id = self.generate_order_id();
        let remaining = size.wrapping_sub(&filled_size);
        let ghost before = write_set.writes();
        let ghost timestamp = self.spec_config().timestamp;
        if !remaining.is_zero() {
            let status = if !filled_size.is_zero() {
                OrderStatus::PartiallyFilled
            } else {
                OrderStatus::Open
            };
            proof {
                lemma_u256_of_view(remaining);
            }
            write_set.push(
                PerpDexLocation::Order(tx.user, market_id, order_id),
                PerpDexValue::Order {
                    order_type,
                    side,
                    price,
                    size: remaining,
                    filled: filled_size,
                    status,
                    post_only,
                    reduce_only,
                    created_at: self.block_config.timestamp,
                    expires_at,
                },
            );
        }
        let ghost after_order = write_set.writes();
        if !filled_size.is_zero() {
            let new_position = match self.update_position(position, side, filled_size, avg_fill_price, leverage) {
                Ok(p) => p,
                Err(e) => {
                    return Err(e);
                },
            };
            let rest = balance.wrapping_sub(&required_margin);
            proof {
                balance.lemma_bounded();
                vstd::arithmetic::div_mod::lemma_small_mod(
                    (balance@ - required_margin@) as nat,
                    u256_modulus(),
                );
                lemma_u256_of_view(rest);
            }
            write_set.push(
                PerpDexLocation::Position(tx.user, market_id),
                PerpDexValue::Position {
                    size: new_position.size,
                    entry_price: new_position.entry_price,
                    leverage: new_position.leverage,
                    margin: new_position.margin,
                    unrealized_pnl: new_position.unrealized_pnl,
                    last_funding_index: new_position.last_funding_index,
                },
            );
            write_set.push(PerpDexLocation::Balance(tx.user, USDC_ASSET_ID), PerpDexValue::Balance(rest));
        }
        proof {
            let outcome = spec_place_order(
                old(self).spec_storage(),
                timestamp,
                tx.user,
                market_id,
                order_type,
                side,
                price,
                size,
                leverage,
                post_only,
                reduce_only,
                expires_at,
                order_id,
            );
            assert(outcome matches OpOutcome::Done { writes, .. } && write_set.writes() =~= before + writes);
        }
        Ok(OperationResult::OrderPlaced { order_id, filled_size })
    }
}

impl<S: PerpDexStorage> PerpDexExecutor<S> {
    /// Executes one operation of `tx`.
    fn execute_operation(
        &mut self,
        tx: &PerpDexTx,
        op: &Operation,
        read_set: &mut ReadSet<PerpDexLocation>,
        write_set: &mut WriteSet<PerpDexLocation, PerpDexValue>,
        mv_memory: &MvMemory,
    ) -> (r: Result<OperationResult, ExecutionError>)
        requires
            old(self).spec_storage().inv(),
            old(write_set).hashes_partitioned(),
            !(spec_op(
                old(self).spec_storage(),
                old(self).spec_config().timestamp,
                tx.user,
                op@,
                old(self).spec_next_order_id(),
            ) is Aborts),
        ensures
            old(read_set).wf() ==> final(read_set).wf(),
            r is Ok ==> final(read_set).reads() == old(read_set).reads() + storage_reads(op_reads(tx.user, op@)),
            final(write_set).hashes_partitioned(),
            final(self).spec_storage() == old(self).spec_storage(),
            final(self).spec_config() == old(self).spec_config(),
            ({
                let outcome = spec_op(
                    old(self).spec_storage(),
                    old(self).spec_config().timestamp,
                    tx.user,
                    op@,
                    old(self).spec_next_order_id(),
                );
                &&& op_matches(r, old(write_set).writes(), final(write_set).writes(), outcome)
                &&& final(self).spec_next_order_id() == match outcome {
                    OpOutcome::Done { uses_id, .. } => next_id_after(old(self).spec_next_order_id(), uses_id),
                    _ => old(self).spec_next_order_id(),
                }
            }),
    {
        reveal(spec_op);
        match op {
            Operation::PlaceOrder {
                market_id,
                order_type,
                side,
                price,
                size,
                leverage,
                post_only,
                reduce_only,
                expires_at,
            } => self.execute_place_order(
                tx,
                *market_id,
                *order_type,
                *side,
                *price,
                *size,
                *leverage,
                *post_only,
                *reduce_only,
                *expires_at,
                read_set,
                write_set,
                mv_memory,
            ),
            Operation::CancelOrder { market_id, order_ids } => self.execute_cancel_order(
                tx,
                *market_id,
                order_ids.as_slice(),
                write_set,
            ),
            Operation::CancelAll { market_id } => self.execute_cancel_all(
                tx,
                *market_id,
                read_set,
                write_set,
                mv_memory,
            ),
            Operation::SetLeverage { market_id, leverage } => self.execute_set_leverage(
                tx,
                *market_id,
                *leverage,
                write_set,
            ),
            Operation::AdjustMargin { market_id, amount } => self.execute_adjust_margin(
                tx,
                *market_id,
                *amount,
                read_set,
                write_set,
                mv_memory,
            ),
        }
    }
}

impl<S: PerpDexStorage> VmExecutor for PerpDexExecutor<S> {
    type Location = PerpDexLocation;

    type Value = PerpDexValue;

    type Transaction = PerpDexTx;

    type Result = PerpDexResult;

    type Error = ExecutionError;

    type Storage = S;

    /// The storage is well formed, the gas count fits a `u64`, and no
    /// arithmetic of the transaction overflows.
    open spec fn can_execute(&self, tx: &PerpDexTx) -> bool {
        &&& self.spec_storage().inv()
        &&& tx.operations@.len() * operation_gas() <= u64::MAX
        &&& !(spec_execute(self.spec_storage(), self.spec_config().timestamp, self.spec_next_order_id(), tx@) is Aborts)
    }

    /// Checks the nonce, executes the operations in order, stopping at the
    /// first error, and on success bumps the nonce. Reads come from the
    /// executor's storage, and each is recorded in the read set; the
    /// `storage` argument is not read.
    fn execute(
        &mut self,
        tx_version: &TxVersion,
        tx: &PerpDexTx,
        storage: &S,
        mv_memory: &MvMemory,
    ) -> (r: VmExecutionResult<PerpDexLocation, PerpDexValue, PerpDexResult, ExecutionError>)
        ensures
            execution_matches(
                r,
                spec_execute(old(self).spec_storage(), old(self).spec_config().timestamp, old(self).spec_next_order_id(), tx@),
                final(self).spec_next_order_id(),
            ),
            r matches VmExecutionResult::Success { read_set, .. } ==> read_set.wf() && read_set.reads()
                == storage_reads(tx_reads(tx@)),
            final(self).spec_storage() == old(self).spec_storage(),
            final(self).spec_config() == old(self).spec_config(),
    {
        let ghost s = self.spec_storage();
        let ghost timestamp = self.spec_config().timestamp;
        let ghost config = self.spec_config();
        let ghost first_id = self.spec_next_order_id();
        let ghost ops = tx@.operations;
        let mut read_set: ReadSet<PerpDexLocation> = ReadSet::new();
        let mut write_set: WriteSet<PerpDexLocation, PerpDexValue> = WriteSet::new();
        let mut results: Vec<OperationResult> = Vec::new();
        let mut gas_used: u64 = 0;
        let current_nonce = match self.read_nonce(tx.user, &mut read_set, mv_memory) {
            Ok(n) => n,
            Err(e) => {
                return VmExecutionResult::Error(e);
            },
        };
        if current_nonce != tx.nonce {
            return VmExecutionResult::Error(
                ExecutionError::NonceMismatch { expected: current_nonce, actual: tx.nonce },
            );
        }
        let mut i: usize = 0;
        assert(ops.take(0) =~= Seq::<super::types::OperationView>::empty());
        assert(results_view(results@) =~= Seq::<OperationResultView>::empty());
        while i < tx.operations.len()
            invariant
                self.spec_storage() == s,
                self.spec_config() == config,
                config.timestamp == timestamp,
                s == old(self).spec_storage(),
                config == old(self).spec_config(),
                first_id == old(self).spec_next_order_id(),
                s.inv(),
                ops == tx@.operations,
                ops.len() == tx.operations@.len(),
                ops.len() * operation_gas() <= u64::MAX,
                spec_read_nonce(s, tx.user) == Ok::<u64, ExecutionErrorView>(current_nonce),
                current_nonce == tx.nonce,
                !(spec_execute(s, timestamp, first_id, tx@) is Aborts),
                i <= ops.len(),
                spec_run(s, timestamp, tx.user, ops.take(i as int), first_id) == (RunState::Running {
                    results: results_view(results@),
                    writes: write_set.writes(),
                    next_order_id: self.spec_next_order_id(),
                }),
                results@.len() == i,
                gas_used == i * operation_gas(),
                write_set.hashes_partitioned(),
                read_set.wf(),
                read_set.reads() == storage_reads(
                    seq![PerpDexLocation::UserNonce(tx.user)] + ops_reads(tx.user, ops.take(i as int)),
                ),
            decreases ops.len() - i,
        {
            let op = &tx.operations[i];
            let ghost pre_writes = write_set.writes();
            let ghost pre_id = self.spec_next_order_id();
            let ghost outcome = spec_op(s, timestamp, tx.user, ops[i as int], pre_id);
            proof {
                assert(ops[i as int] == op@);
                assert(ops.take(i + 1).drop_last() =~= ops.take(i as int));
                assert(ops.take(i + 1).last() == ops[i as int]);
                if outcome is Aborts {
                    lemma_run_stops(s, timestamp, tx.user, ops, first_id, i + 1);
                    assert(false);
                }
            }
            let result = self.execute_operation(tx, op, &mut read_set, &mut write_set, mv_memory);
            match result {
                Ok(r) => {
                    proof {
                        let nonce_read = seq![PerpDexLocation::UserNonce(tx.user)];
                        let before = ops_reads(tx.user, ops.take(i as int));
                        let step = op_reads(tx.user, ops[i as int]);
                        assert(ops_reads(tx.user, ops.take(i + 1)) == before + step);
                        assert(storage_reads(nonce_read + (before + step)) =~= storage_reads(nonce_read + before)
                            + storage_reads(step));
                    }
                    gas_used = gas_used + self.estimate_gas(op);
                    let ghost rv = r@;
                    let ghost pre_results = results@;
                    results.push(r);
                    proof {
                        assert(results_view(results@) =~= results_view(pre_results).push(rv));
                        assert((i + 1) * operation_gas() <= ops.len() * operation_gas()) by (nonlinear_arith)
                            requires
                                i + 1 <= ops.len(),
                        ;
                    }
                },
                Err(e) => {
                    proof {
                        lemma_run_stops(s, timestamp, tx.user, ops, first_id, i + 1);
                    }
                    return VmExecutionResult::Error(e);
                },
            }
            i = i + 1;
        }
        proof {
            assert(ops.take(ops.len() as int) =~= ops);
        }
        write_set.push(PerpDexLocation::UserNonce(tx.user), PerpDexValue::Nonce(current_nonce + 1));
        let flags = if read_set.is_empty() {
            FinishExecFlags::empty()
        } else {
            FinishExecFlags::need_validation()
        };
        VmExecutionResult::Success {
            read_set,
            write_set,
            result: PerpDexResult { gas_used, operations_executed: results },
            flags,
        }
    }

    /// The positions of the markets in which the transaction places orders.
    fn get_lazy_locations(&self, tx: &PerpDexTx) -> (r: Vec<PerpDexLocation>)
        ensures
            r@ == lazy_locations(tx.user, tx@.operations),
    {
        let mut out: Vec<PerpDexLocation> = Vec::new();
        let mut i: usize = 0;
        let ghost ops = tx@.operations;
        while i < tx.operations.len()
            invariant
                i <= tx.operations@.len(),
                ops == tx@.operations,
                out@ == lazy_locations(tx.user, ops.take(i as int)),
            decreases tx.operations@.len() - i,
        {
            proof {
                assert(ops.take(i + 1).drop_last() =~= ops.take(i as int));
                assert(ops[i as int] == tx.operations@[i as int]@);
            }
            match &tx.operations[i] {
                Operation::PlaceOrder { market_id, .. } => {
                    out.push(PerpDexLocation::Position(tx.user, *market_id));
                },
                _ => {
                    assert(out@ =~= out@ + Seq::<PerpDexLocation>::empty());
                },
            }
            i = i + 1;
        }
        assert(ops.take(ops.len() as int) =~= ops);
        out
    }
}

} // verus!
