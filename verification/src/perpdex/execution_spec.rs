//! What executing a PerpDex transaction computes, as spec functions over the
//! storage's reads.
use vstd::prelude::*;

use super::executor_traits::ReadOrigin;
use super::state::{PerpDexLocation, PerpDexValue};
use super::storage::{PerpDexStorage, StorageError};
use super::types::{
    OperationResultView, OperationView, OrderStatus, OrderType, PerpDexTxView, Side,
};
use crate::primitives::address::Address;
use crate::primitives::u256::{lemma_view_u256_of, u256_modulus, u256_of, U256};

verus! {

/// Fixed-point precision of prices and sizes: 18 decimals.
pub open spec fn price_precision() -> nat {
    1_000_000_000_000_000_000
}

/// The asset in which margin is held.
pub open spec fn usdc_asset_id() -> u16 {
    0
}

/// Gas charged for each executed operation.
pub open spec fn operation_gas() -> nat {
    21000
}

/// Index and mark price of a market that has no stored state: $1000.
pub open spec fn default_market_price() -> nat {
    1_000_000_000_000_000_000_000
}

/// An execution error with its message as a character sequence.
pub enum ExecutionErrorView {
    NonceMismatch { expected: u64, actual: u64 },
    InsufficientBalance { required: U256, available: U256 },
    InvalidLeverage(u8),
    ReduceOnlyViolation,
    InvalidPosition(Seq<char>),
    Storage(StorageError),
    OrderNotFound(u64),
}

/// A position as the executor reads and writes it.
#[derive(Clone, Copy, Debug, PartialEq, Eq, Structural)]
pub struct PositionData {
    pub size: i128,
    pub entry_price: U256,
    pub leverage: u8,
    pub margin: U256,
    pub unrealized_pnl: i128,
    pub last_funding_index: U256,
}

/// A market's state as the executor reads it.
#[derive(Clone, Copy, Debug, PartialEq, Eq, Structural)]
pub struct MarketData {
    pub index_price: U256,
    pub mark_price: U256,
    pub funding_rate: i128,
    pub funding_index: U256,
    pub open_interest_long: U256,
    pub open_interest_short: U256,
    pub last_update: u64,
}

/// The stored form of a position.
pub open spec fn position_value(p: PositionData) -> PerpDexValue {
    PerpDexValue::Position {
        size: p.size,
        entry_price: p.entry_price,
        leverage: p.leverage,
        margin: p.margin,
        unrealized_pnl: p.unrealized_pnl,
        last_funding_index: p.last_funding_index,
    }
}

/// Margin for `size` at `price` with `leverage`: the 256-bit wrapping product,
/// scaled down by the precision, divided by the leverage.
pub open spec fn spec_required_margin(price: nat, size: nat, leverage: u8) -> nat {
    ((price * size) % u256_modulus()) / price_precision() / (leverage as nat)
}

/// `x`, or `i128::MAX` where `x` does not fit an `i128`.
pub open spec fn capped_i128(x: nat) -> int {
    if x <= i128::MAX {
        x as int
    } else {
        i128::MAX as int
    }
}

/// +1 for long, -1 for short.
pub open spec fn direction(side: Side) -> int {
    match side {
        Side::Long => 1,
        Side::Short => -1,
    }
}

/// An order size signed by its side.
pub open spec fn spec_signed_size(size: nat, side: Side) -> int {
    capped_i128(size) * direction(side)
}

/// An order reduces a position when the position is open, the two have
/// opposite signs, and the order is no larger than the position.
pub open spec fn spec_is_reducing(order_size_signed: int, position_size: int) -> bool {
    &&& position_size != 0
    &&& (order_size_signed > 0) != (position_size > 0)
    &&& abs(order_size_signed) <= abs(position_size)
}

/// A reducing order never grows the position: the position after it is no
/// larger than before.
pub proof fn law_reducing_never_grows(order_size_signed: int, position_size: int)
    requires
        spec_is_reducing(order_size_signed, position_size),
    ensures
        abs(position_size + order_size_signed) <= abs(position_size),
{
}

/// Sign of an integer.
pub open spec fn sign(x: int) -> int {
    if x > 0 {
        1
    } else if x < 0 {
        -1
    } else {
        0
    }
}

/// Absolute value of an integer.
pub open spec fn abs(x: int) -> nat {
    if x < 0 {
        (-x) as nat
    } else {
        x as nat
    }
}

/// A reduce-only order passes where it reduces the current position.
pub open spec fn reduce_only_ok(reduce_only: bool, side: Side, size: nat, position: Option<PositionData>) -> bool {
    !reduce_only || (position matches Some(p) && spec_is_reducing(spec_signed_size(size, side), p.size as int))
}

/// A market order fills in full at the mark price.
pub open spec fn spec_market_order(
    side: Side,
    size: U256,
    market: MarketData,
    position: Option<PositionData>,
    reduce_only: bool,
) -> Result<(U256, U256), ExecutionErrorView> {
    if !reduce_only_ok(reduce_only, side, size@, position) {
        Err(ExecutionErrorView::ReduceOnlyViolation)
    } else {
        Ok((size, market.mark_price))
    }
}

/// A limit order fills in full at its price where the mark price is at or
/// better than it, and not at all otherwise.
pub open spec fn spec_limit_order(
    side: Side,
    price: U256,
    size: U256,
    market: MarketData,
    position: Option<PositionData>,
    reduce_only: bool,
) -> Result<(U256, U256), ExecutionErrorView> {
    let can_fill = match side {
        Side::Long => market.mark_price@ <= price@,
        Side::Short => market.mark_price@ >= price@,
    };
    if !can_fill {
        Ok((u256_of(0), u256_of(0)))
    } else if !reduce_only_ok(reduce_only, side, size@, position) {
        Err(ExecutionErrorView::ReduceOnlyViolation)
    } else {
        Ok((size, price))
    }
}

/// The inputs on which updating a position does not overflow `i128`.
pub open spec fn spec_update_position_defined(current: Option<PositionData>, side: Side, filled: nat) -> bool {
    match current {
        Some(pos) => {
            let delta = spec_signed_size(filled, side);
            let new_size = pos.size + delta;
            &&& i128::MIN <= new_size <= i128::MAX
            &&& sign(pos.size as int) != sign(delta) ==> new_size != i128::MIN && pos.size != i128::MIN
        },
        None => true,
    }
}

/// The entry price after adding `delta` at `fill_price` to a position.
pub open spec fn spec_new_entry_price(pos: PositionData, delta: int, fill_price: nat) -> nat {
    let new_size = pos.size + delta;
    if sign(pos.size as int) == sign(delta) {
        let old_notional = ((abs(pos.size as int) * pos.entry_price@) % u256_modulus()) / price_precision();
        let new_notional = ((abs(delta) * fill_price) % u256_modulus()) / price_precision();
        let total_notional = (old_notional + new_notional) % u256_modulus();
        let total_size = abs(new_size);
        if total_size > 0 {
            ((total_notional * price_precision()) % u256_modulus()) / total_size
        } else {
            0
        }
    } else if abs(new_size) < abs(pos.size as int) {
        pos.entry_price@
    } else {
        fill_price
    }
}

/// The position after a fill of `filled` at `fill_price`.
pub open spec fn spec_update_position(
    current: Option<PositionData>,
    side: Side,
    filled: nat,
    fill_price: nat,
    leverage: u8,
) -> PositionData {
    let delta = spec_signed_size(filled, side);
    match current {
        Some(pos) => {
            let new_size = pos.size + delta;
            let entry = spec_new_entry_price(pos, delta, fill_price);
            PositionData {
                size: new_size as i128,
                entry_price: u256_of(entry),
                leverage,
                margin: u256_of(spec_required_margin(entry, abs(new_size), leverage)),
                unrealized_pnl: 0,
                last_funding_index: pos.last_funding_index,
            }
        },
        None => PositionData {
            size: delta as i128,
            entry_price: u256_of(fill_price),
            leverage,
            margin: u256_of(spec_required_margin(fill_price, filled, leverage)),
            unrealized_pnl: 0,
            last_funding_index: u256_of(0),
        },
    }
}

/// Unrealized PnL of a position at `mark_price`.
pub open spec fn spec_unrealized_pnl(position: PositionData, mark_price: nat) -> int {
    if position.size == 0 {
        0
    } else {
        let size_abs = abs(position.size as int);
        let is_long = position.size > 0;
        let entry = position.entry_price@;
        if mark_price > entry {
            let amount = capped_i128(((size_abs * (mark_price - entry) as nat) % u256_modulus()) / price_precision());
            if is_long {
                amount
            } else {
                -amount
            }
        } else {
            let amount = capped_i128(((size_abs * (entry - mark_price) as nat) % u256_modulus()) / price_precision());
            if is_long {
                -amount
            } else {
                amount
            }
        }
    }
}

/// The user's nonce: 0 where none is stored.
pub open spec fn spec_read_nonce<S: PerpDexStorage>(s: S, user: Address) -> Result<u64, ExecutionErrorView> {
    match s.spec_get(PerpDexLocation::UserNonce(user)) {
        Err(e) => Err(ExecutionErrorView::Storage(e)),
        Ok(None) => Ok(0),
        Ok(Some(PerpDexValue::Nonce(n))) => Ok(n),
        Ok(Some(_)) => Err(ExecutionErrorView::InvalidPosition("Invalid nonce value"@)),
    }
}

/// The user's margin balance: 0 where none is stored.
pub open spec fn spec_read_balance<S: PerpDexStorage>(s: S, user: Address) -> Result<U256, ExecutionErrorView> {
    match s.spec_get(PerpDexLocation::Balance(user, usdc_asset_id())) {
        Err(e) => Err(ExecutionErrorView::Storage(e)),
        Ok(None) => Ok(u256_of(0)),
        Ok(Some(PerpDexValue::Balance(b))) => Ok(b),
        Ok(Some(_)) => Err(ExecutionErrorView::InvalidPosition("Invalid balance value"@)),
    }
}

/// The user's position in a market, if any.
pub open spec fn spec_read_position<S: PerpDexStorage>(s: S, user: Address, market_id: u64) -> Result<
    Option<PositionData>,
    ExecutionErrorView,
> {
    match s.spec_get(PerpDexLocation::Position(user, market_id)) {
        Err(e) => Err(ExecutionErrorView::Storage(e)),
        Ok(None) => Ok(None),
        Ok(
            Some(
                PerpDexValue::Position {
                    size,
                    entry_price,
                    leverage,
                    margin,
                    unrealized_pnl,
                    last_funding_index,
                },
            ),
        ) => Ok(
            Some(PositionData { size, entry_price, leverage, margin, unrealized_pnl, last_funding_index }),
        ),
        Ok(Some(_)) => Err(ExecutionErrorView::InvalidPosition("Invalid position value"@)),
    }
}

/// The market's state: $1000 prices, zero funding and open interest, last
/// updated at the block's timestamp, where none is stored.
pub open spec fn spec_read_market<S: PerpDexStorage>(s: S, timestamp: u64, market_id: u64) -> Result<
    MarketData,
    ExecutionErrorView,
> {
    match s.spec_get(PerpDexLocation::MarketState(market_id)) {
        Err(e) => Err(ExecutionErrorView::Storage(e)),
        Ok(None) => Ok(
            MarketData {
                index_price: u256_of(default_market_price()),
                mark_price: u256_of(default_market_price()),
                funding_rate: 0,
                funding_index: u256_of(0),
                open_interest_long: u256_of(0),
                open_interest_short: u256_of(0),
                last_update: timestamp,
            },
        ),
        Ok(
            Some(
                PerpDexValue::MarketState {
                    index_price,
                    mark_price,
                    funding_rate,
                    funding_index,
                    open_interest_long,
                    open_interest_short,
                    last_update,
                },
            ),
        ) => Ok(
            MarketData {
                index_price,
                mark_price,
                funding_rate,
                funding_index,
                open_interest_long,
                open_interest_short,
                last_update,
            },
        ),
        Ok(Some(_)) => Err(ExecutionErrorView::InvalidPosition("Invalid market state"@)),
    }
}

/// What one operation does.
pub enum OpOutcome {
    /// It succeeded with this result and these writes; `uses_id` when it took
    /// an order id.
    Done { result: OperationResultView, writes: Seq<(PerpDexLocation, PerpDexValue)>, uses_id: bool },
    /// It failed.
    Failed(ExecutionErrorView),
    /// It would overflow and panic.
    Aborts,
}

/// The size filled at once and its price, by order type.
pub open spec fn spec_match_order(
    order_type: OrderType,
    side: Side,
    price: U256,
    size: U256,
    post_only: bool,
    reduce_only: bool,
    market: MarketData,
    position: Option<PositionData>,
) -> Result<(U256, U256), ExecutionErrorView> {
    match order_type {
        OrderType::Market => spec_market_order(side, size, market, position, reduce_only),
        OrderType::Limit => if post_only {
            Ok((u256_of(0), u256_of(0)))
        } else {
            spec_limit_order(side, price, size, market, position, reduce_only)
        },
        _ => Ok((u256_of(0), u256_of(0))),
    }
}

/// The order that rests on the book after a placement.
pub open spec fn resting_order(
    order_type: OrderType,
    side: Side,
    price: U256,
    remaining: nat,
    filled: U256,
    post_only: bool,
    reduce_only: bool,
    created_at: u64,
    expires_at: Option<u64>,
) -> PerpDexValue {
    PerpDexValue::Order {
        order_type,
        side,
        price,
        size: u256_of(remaining),
        filled,
        status: if filled@ > 0 {
            OrderStatus::PartiallyFilled
        } else {
            OrderStatus::Open
        },
        post_only,
        reduce_only,
        created_at,
        expires_at,
    }
}

/// Placing an order with id `order_id`.
pub open spec fn spec_place_order<S: PerpDexStorage>(
    s: S,
    timestamp: u64,
    user: Address,
    market_id: u64,
    order_type: OrderType,
    side: Side,
    price: U256,
    size: U256,
    leverage: u8,
    post_only: bool,
    reduce_only: bool,
    expires_at: Option<u64>,
    order_id: u64,
) -> OpOutcome {
    if leverage < 1 || leverage > 100 {
        OpOutcome::Failed(ExecutionErrorView::InvalidLeverage(leverage))
    } else {
        match spec_read_balance(s, user) {
            Err(e) => OpOutcome::Failed(e),
            Ok(balance) => match spec_read_position(s, user, market_id) {
                Err(e) => OpOutcome::Failed(e),
                Ok(position) => match spec_read_market(s, timestamp, market_id) {
                    Err(e) => OpOutcome::Failed(e),
                    Ok(market) => {
                        let required = spec_required_margin(price@, size@, leverage);
                        if balance@ < required {
                            OpOutcome::Failed(
                                ExecutionErrorView::InsufficientBalance {
                                    required: u256_of(required),
                                    available: balance,
                                },
                            )
                        } else {
                            match spec_match_order(
                                order_type,
                                side,
                                price,
                                size,
                                post_only,
                                reduce_only,
                                market,
                                position,
                            ) {
                                Err(e) => OpOutcome::Failed(e),
                                Ok((filled, avg_price)) => {
                                    if filled@ > 0 && !spec_update_position_defined(position, side, filled@) {
                                        OpOutcome::Aborts
                                    } else {
                                        let remaining = ((size@ - filled@) % (u256_modulus() as int)) as nat;
                                        let order_writes = if remaining > 0 {
                                            seq![
                                                (
                                                    PerpDexLocation::Order(user, market_id, order_id),
                                                    resting_order(
                                                        order_type,
                                                        side,
                                                        price,
                                                        remaining,
                                                        filled,
                                                        post_only,
                                                        reduce_only,
                                                        timestamp,
                                                        expires_at,
                                                    ),
                                                ),
                                            ]
                                        } else {
                                            Seq::empty()
                                        };
                                        let fill_writes = if filled@ > 0 {
                                            seq![
                                                (
                                                    PerpDexLocation::Position(user, market_id),
                                                    position_value(
                                                        spec_update_position(
                                                            position,
                                                            side,
                                                            filled@,
                                                            avg_price@,
                                                            leverage,
                                                        ),
                                                    ),
                                                ),
                                                (
                                                    PerpDexLocation::Balance(user, usdc_asset_id()),
                                                    PerpDexValue::Balance(u256_of((balance@ - required) as nat)),
                                                ),
                                            ]
                                        } else {
                                            Seq::empty()
                                        };
                                        OpOutcome::Done {
                                            result: OperationResultView::OrderPlaced {
                                                order_id,
                                                filled_size: filled,
                                            },
                                            writes: order_writes + fill_writes,
                                            uses_id: true,
                                        }
                                    }
                                },
                            }
                        }
                    },
                },
            },
        }
    }
}

/// Deletions of the given orders of one market.
pub open spec fn order_deletions(user: Address, market_id: u64, order_ids: Seq<u64>) -> Seq<
    (PerpDexLocation, PerpDexValue),
> {
    order_ids.map_values(|id: u64| (PerpDexLocation::Order(user, market_id, id), PerpDexValue::Deleted))
}

/// Deletions of the given orders, each at its own market: (market, id) keys.
pub open spec fn key_deletions(user: Address, keys: Seq<(u64, u64)>) -> Seq<(PerpDexLocation, PerpDexValue)> {
    keys.map_values(|k: (u64, u64)| (PerpDexLocation::Order(user, k.0, k.1), PerpDexValue::Deleted))
}

/// The order ids of (market, id) keys.
pub open spec fn key_ids(keys: Seq<(u64, u64)>) -> Seq<u64> {
    keys.map_values(|k: (u64, u64)| k.1)
}

/// Cancelling all of the user's orders, of one market or, with no market, of
/// all markets, each deleted at its own market.
pub open spec fn spec_cancel_all<S: PerpDexStorage>(s: S, user: Address, market_id: Option<u64>) -> OpOutcome {
    match market_id {
        Some(m) => match s.spec_user_orders(user, m) {
            Err(e) => OpOutcome::Failed(ExecutionErrorView::Storage(e)),
            Ok(ids) => OpOutcome::Done {
                result: OperationResultView::OrdersCancelled { order_ids: ids },
                writes: order_deletions(user, m, ids),
                uses_id: false,
            },
        },
        None => match s.spec_all_user_order_keys(user) {
            Err(e) => OpOutcome::Failed(ExecutionErrorView::Storage(e)),
            Ok(keys) => OpOutcome::Done {
                result: OperationResultView::OrdersCancelled { order_ids: key_ids(keys) },
                writes: key_deletions(user, keys),
                uses_id: false,
            },
        },
    }
}

/// Cancelling all orders with no market filter cancels exactly the ids that
/// `get_all_user_orders` lists, in order, and deletes each (market, id) key
/// at its market, whose order list holds the id.
pub proof fn law_cancel_all_markets<S: PerpDexStorage>(s: S, user: Address)
    requires
        s.inv(),
        spec_cancel_all(s, user, None) is Done,
    ensures
        s.spec_all_user_order_keys(user) matches Ok(keys) && {
            &&& spec_cancel_all(s, user, None) == (OpOutcome::Done {
                result: OperationResultView::OrdersCancelled { order_ids: key_ids(keys) },
                writes: key_deletions(user, keys),
                uses_id: false,
            })
            &&& s.spec_all_user_orders(user) == Ok::<Seq<u64>, StorageError>(key_ids(keys))
            &&& forall|i: int|
                #![trigger keys[i]]
                0 <= i < keys.len() ==> (s.spec_user_orders(user, keys[i].0) matches Ok(ids) && ids.contains(
                    keys[i].1,
                ))
        },
{
    s.lemma_order_keys_agree(user);
}

/// Adding `amount` of the user's balance to the margin of a position.
pub open spec fn spec_adjust_margin<S: PerpDexStorage>(s: S, user: Address, market_id: u64, amount: U256) -> OpOutcome {
    match spec_read_balance(s, user) {
        Err(e) => OpOutcome::Failed(e),
        Ok(balance) => if amount@ > balance@ {
            OpOutcome::Failed(ExecutionErrorView::InsufficientBalance { required: amount, available: balance })
        } else {
            match spec_read_position(s, user, market_id) {
                Err(e) => OpOutcome::Failed(e),
                Ok(None) => OpOutcome::Failed(ExecutionErrorView::InvalidPosition("No position to adjust margin"@)),
                Ok(Some(pos)) => OpOutcome::Done {
                    result: OperationResultView::MarginAdjusted { market_id, amount },
                    writes: seq![
                        (
                            PerpDexLocation::Position(user, market_id),
                            position_value(
                                PositionData {
                                    margin: u256_of((pos.margin@ + amount@) % u256_modulus()),
                                    ..pos
                                },
                            ),
                        ),
                        (
                            PerpDexLocation::Balance(user, usdc_asset_id()),
                            PerpDexValue::Balance(u256_of((balance@ - amount@) as nat)),
                        ),
                    ],
                    uses_id: false,
                },
            }
        },
    }
}

/// One operation of the user's transaction, with `order_id` the next order id.
#[verifier::opaque]
pub open spec fn spec_op<S: PerpDexStorage>(
    s: S,
    timestamp: u64,
    user: Address,
    op: OperationView,
    order_id: u64,
) -> OpOutcome {
    match op {
        OperationView::PlaceOrder {
            market_id,
            order_type,
            side,
            price,
            size,
            leverage,
            post_only,
            reduce_only,
            expires_at,
        } => spec_place_order(
            s,
            timestamp,
            user,
            market_id,
            order_type,
            side,
            price,
            size,
            leverage,
            post_only,
            reduce_only,
            expires_at,
            order_id,
        ),
        OperationView::CancelOrder { market_id, order_ids } => OpOutcome::Done {
            result: OperationResultView::OrdersCancelled { order_ids },
            writes: order_deletions(user, market_id, order_ids),
            uses_id: false,
        },
        OperationView::CancelAll { market_id } => spec_cancel_all(s, user, market_id),
        OperationView::SetLeverage { market_id, leverage } => if leverage < 1 || leverage > 100 {
            OpOutcome::Failed(ExecutionErrorView::InvalidLeverage(leverage))
        } else {
            OpOutcome::Done {
                result: OperationResultView::LeverageUpdated { market_id, leverage },
                writes: Seq::empty(),
                uses_id: false,
            }
        },
        OperationView::AdjustMargin { market_id, amount } => spec_adjust_margin(s, user, market_id, amount),
    }
}

/// Where a run of operations stands.
pub enum RunState {
    /// All operations so far succeeded.
    Running {
        results: Seq<OperationResultView>,
        writes: Seq<(PerpDexLocation, PerpDexValue)>,
        next_order_id: u64,
    },
    /// An operation failed.
    Failed { error: ExecutionErrorView, next_order_id: u64 },
    /// An operation would panic.
    Aborts,
}

/// The order id after an operation.
pub open spec fn next_id_after(id: u64, uses_id: bool) -> u64 {
    if uses_id {
        if id == u64::MAX {
            0
        } else {
            (id + 1) as u64
        }
    } else {
        id
    }
}

/// The order id after `k` ids have been handed out from `first`: the id that
/// the `k+1`-th of consecutive calls of `generate_order_id` returns.
pub open spec fn id_after(first: u64, k: nat) -> u64
    decreases k,
{
    if k == 0 {
        first
    } else {
        next_id_after(id_after(first, (k - 1) as nat), true)
    }
}

/// Ids handed out without wrapping count up by one.
proof fn lemma_id_after(first: u64, i: nat)
    requires
        first + i <= u64::MAX,
    ensures
        id_after(first, i) == first + i,
    decreases i,
{
    if i > 0 {
        lemma_id_after(first, (i - 1) as nat);
    }
}

/// Consecutive calls of `generate_order_id` that start from the id `first`
/// and do not pass `u64::MAX` hand out `first, first + 1, ...`: no id twice.
/// (`generate_order_id` hands out `id_after(first, i)` and moves on to
/// `id_after(first, i + 1)`.)
pub proof fn law_order_ids_consecutive(first: u64, k: nat)
    requires
        first + k <= u64::MAX + 1,
    ensures
        forall|i: nat| i < k ==> #[trigger] id_after(first, i) == first + i,
        forall|i: nat, j: nat| i < j < k ==> #[trigger] id_after(first, i) != #[trigger] id_after(first, j),
{
    assert forall|i: nat| i < k implies #[trigger] id_after(first, i) == first + i by {
        lemma_id_after(first, i);
    }
    assert forall|i: nat, j: nat| i < j < k implies #[trigger] id_after(first, i) != #[trigger] id_after(
        first,
        j,
    ) by {
        lemma_id_after(first, i);
        lemma_id_after(first, j);
    }
}

/// One step of a run.
pub open spec fn run_step<S: PerpDexStorage>(
    s: S,
    timestamp: u64,
    user: Address,
    state: RunState,
    op: OperationView,
) -> RunState {
    match state {
        RunState::Running { results, writes, next_order_id } => match spec_op(
            s,
            timestamp,
            user,
            op,
            next_order_id,
        ) {
            OpOutcome::Done { result, writes: w, uses_id } => RunState::Running {
                results: results.push(result),
                writes: writes + w,
                next_order_id: next_id_after(next_order_id, uses_id),
            },
            OpOutcome::Failed(e) => RunState::Failed { error: e, next_order_id },
            OpOutcome::Aborts => RunState::Aborts,
        },
        other => other,
    }
}

/// Running the operations in order, from the order id `first_id`.
pub open spec fn spec_run<S: PerpDexStorage>(
    s: S,
    timestamp: u64,
    user: Address,
    ops: Seq<OperationView>,
    first_id: u64,
) -> RunState
    decreases ops.len(),
{
    if ops.len() == 0 {
        RunState::Running { results: Seq::empty(), writes: Seq::empty(), next_order_id: first_id }
    } else {
        run_step(s, timestamp, user, spec_run(s, timestamp, user, ops.drop_last(), first_id), ops.last())
    }
}

/// What executing a transaction does.
pub enum ExecOutcome {
    /// It succeeded: results, writes (ending with the nonce), gas used and
    /// the next order id.
    Success {
        results: Seq<OperationResultView>,
        writes: Seq<(PerpDexLocation, PerpDexValue)>,
        gas_used: nat,
        next_order_id: u64,
    },
    /// It failed, after taking order ids up to `next_order_id`.
    Failure { error: ExecutionErrorView, next_order_id: u64 },
    /// It would panic.
    Aborts,
}

/// Executing a transaction: check the nonce, run the operations, and bump
/// the nonce.
pub open spec fn spec_execute<S: PerpDexStorage>(s: S, timestamp: u64, first_id: u64, tx: PerpDexTxView) -> ExecOutcome {
    match spec_read_nonce(s, tx.user) {
        Err(e) => ExecOutcome::Failure { error: e, next_order_id: first_id },
        Ok(n) => if n != tx.nonce {
            ExecOutcome::Failure {
                error: ExecutionErrorView::NonceMismatch { expected: n, actual: tx.nonce },
                next_order_id: first_id,
            }
        } else {
            match spec_run(s, timestamp, tx.user, tx.operations, first_id) {
                RunState::Running { results, writes, next_order_id } => if n == u64::MAX {
                    ExecOutcome::Aborts
                } else {
                    ExecOutcome::Success {
                        results,
                        writes: writes.push(
                            (PerpDexLocation::UserNonce(tx.user), PerpDexValue::Nonce((n + 1) as u64)),
                        ),
                        gas_used: operation_gas() * results.len(),
                        next_order_id,
                    }
                },
                RunState::Failed { error, next_order_id } => ExecOutcome::Failure { error, next_order_id },
                RunState::Aborts => ExecOutcome::Aborts,
            }
        },
    }
}

/// A failed or aborted run stays so as operations are added.
pub proof fn lemma_run_stops<S: PerpDexStorage>(
    s: S,
    timestamp: u64,
    user: Address,
    ops: Seq<OperationView>,
    first_id: u64,
    i: int,
)
    requires
        0 <= i <= ops.len(),
        !(spec_run(s, timestamp, user, ops.take(i), first_id) is Running),
    ensures
        spec_run(s, timestamp, user, ops, first_id) == spec_run(s, timestamp, user, ops.take(i), first_id),
    decreases ops.len() - i,
{
    if i == ops.len() {
        assert(ops.take(i) =~= ops);
    } else {
        let t = ops.take(i + 1);
        assert(t.drop_last() =~= ops.take(i));
        lemma_run_stops(s, timestamp, user, ops, first_id, i + 1);
    }
}

/// A running prefix has one result per operation.
pub proof fn lemma_run_results_len<S: PerpDexStorage>(
    s: S,
    timestamp: u64,
    user: Address,
    ops: Seq<OperationView>,
    first_id: u64,
)
    ensures
        spec_run(s, timestamp, user, ops, first_id) matches RunState::Running { results, .. }
            ==> results.len() == ops.len(),
    decreases ops.len(),
{
    if ops.len() > 0 {
        lemma_run_results_len(s, timestamp, user, ops.drop_last(), first_id);
    }
}

/// The locations that an operation reads from storage when it succeeds: an
/// order placement reads the balance, the position and the market, a margin
/// adjustment the balance and the position; the others read nothing through
/// the read set.
pub open spec fn op_reads(user: Address, op: OperationView) -> Seq<PerpDexLocation> {
    match op {
        OperationView::PlaceOrder { market_id, .. } => seq![
            PerpDexLocation::Balance(user, usdc_asset_id()),
            PerpDexLocation::Position(user, market_id),
            PerpDexLocation::MarketState(market_id),
        ],
        OperationView::AdjustMargin { market_id, .. } => seq![
            PerpDexLocation::Balance(user, usdc_asset_id()),
            PerpDexLocation::Position(user, market_id),
        ],
        _ => Seq::empty(),
    }
}

/// The locations that a successful run of operations reads, in order.
pub open spec fn ops_reads(user: Address, ops: Seq<OperationView>) -> Seq<PerpDexLocation>
    decreases ops.len(),
{
    if ops.len() == 0 {
        Seq::empty()
    } else {
        ops_reads(user, ops.drop_last()) + op_reads(user, ops.last())
    }
}

/// The locations that a successful execution reads, in order: the user's
/// nonce, then those of each operation.
pub open spec fn tx_reads(tx: PerpDexTxView) -> Seq<PerpDexLocation> {
    seq![PerpDexLocation::UserNonce(tx.user)] + ops_reads(tx.user, tx.operations)
}

/// Reads of the given locations from storage.
pub open spec fn storage_reads(locations: Seq<PerpDexLocation>) -> Seq<(PerpDexLocation, ReadOrigin)> {
    locations.map_values(|l: PerpDexLocation| (l, ReadOrigin::Storage))
}

/// The positions that a transaction's order placements update lazily, one
/// per placement, in order.
pub open spec fn lazy_locations(user: Address, ops: Seq<OperationView>) -> Seq<PerpDexLocation>
    decreases ops.len(),
{
    if ops.len() == 0 {
        Seq::empty()
    } else {
        lazy_locations(user, ops.drop_last()) + match ops.last() {
            OperationView::PlaceOrder { market_id, .. } => seq![PerpDexLocation::Position(user, market_id)],
            _ => Seq::empty(),
        }
    }
}

/// A successful execution has checked the nonce, has one result per
/// operation, charges 21000 gas per operation, and ends by writing the nonce
/// plus one.
pub proof fn law_successful_execution<S: PerpDexStorage>(s: S, timestamp: u64, first_id: u64, tx: PerpDexTxView)
    requires
        spec_execute(s, timestamp, first_id, tx) is Success,
    ensures
        spec_read_nonce(s, tx.user) == Ok::<u64, ExecutionErrorView>(tx.nonce),
        spec_execute(s, timestamp, first_id, tx) matches ExecOutcome::Success { results, writes, gas_used, .. } && {
            &&& results.len() == tx.operations.len()
            &&& gas_used == operation_gas() * tx.operations.len()
            &&& writes.len() > 0
            &&& writes.last() == (PerpDexLocation::UserNonce(tx.user), PerpDexValue::Nonce((tx.nonce + 1) as u64))
        },
{
    lemma_run_results_len(s, timestamp, tx.user, tx.operations, first_id);
}

/// A transaction whose nonce is not the user's stored nonce is refused with
/// both nonces, before any operation runs.
pub proof fn law_nonce_mismatch_refused<S: PerpDexStorage>(s: S, timestamp: u64, first_id: u64, tx: PerpDexTxView, stored: u64)
    requires
        spec_read_nonce(s, tx.user) == Ok::<u64, ExecutionErrorView>(stored),
        stored != tx.nonce,
    ensures
        spec_execute(s, timestamp, first_id, tx) == (ExecOutcome::Failure {
            error: ExecutionErrorView::NonceMismatch { expected: stored, actual: tx.nonce },
            next_order_id: first_id,
        }),
{
}

/// A post-only limit order never fills at once: it only rests on the book.
pub proof fn law_post_only_never_fills<S: PerpDexStorage>(
    s: S,
    timestamp: u64,
    user: Address,
    market_id: u64,
    side: Side,
    price: U256,
    size: U256,
    leverage: u8,
    reduce_only: bool,
    expires_at: Option<u64>,
    order_id: u64,
)
    requires
        spec_place_order(
            s,
            timestamp,
            user,
            market_id,
            OrderType::Limit,
            side,
            price,
            size,
            leverage,
            true,
            reduce_only,
            expires_at,
            order_id,
        ) is Done,
    ensures
        spec_place_order(
            s,
            timestamp,
            user,
            market_id,
            OrderType::Limit,
            side,
            price,
            size,
            leverage,
            true,
            reduce_only,
            expires_at,
            order_id,
        ) matches OpOutcome::Done { result, writes, .. } && result == (OperationResultView::OrderPlaced {
            order_id,
            filled_size: u256_of(0),
        }) && forall|i: int| 0 <= i < writes.len() ==> #[trigger] writes[i].0 == PerpDexLocation::Order(
            user,
            market_id,
            order_id,
        ),
{
    lemma_view_u256_of(0);
}

/// A market order that is placed fills in full at once.
pub proof fn law_market_order_fills_in_full<S: PerpDexStorage>(
    s: S,
    timestamp: u64,
    user: Address,
    market_id: u64,
    side: Side,
    price: U256,
    size: U256,
    leverage: u8,
    post_only: bool,
    reduce_only: bool,
    expires_at: Option<u64>,
    order_id: u64,
)
    requires
        spec_place_order(
            s,
            timestamp,
            user,
            market_id,
            OrderType::Market,
            side,
            price,
            size,
            leverage,
            post_only,
            reduce_only,
            expires_at,
            order_id,
        ) is Done,
    ensures
        spec_place_order(
            s,
            timestamp,
            user,
            market_id,
            OrderType::Market,
            side,
            price,
            size,
            leverage,
            post_only,
            reduce_only,
            expires_at,
            order_id,
        ) matches OpOutcome::Done { result, .. } && result == (OperationResultView::OrderPlaced {
            order_id,
            filled_size: size,
        }),
{
}

/// A reduce-only order that fills does so against an open position of the
/// opposite sign.
pub proof fn law_reduce_only_fills_reduce<S: PerpDexStorage>(
    s: S,
    timestamp: u64,
    user: Address,
    market_id: u64,
    order_type: OrderType,
    side: Side,
    price: U256,
    size: U256,
    leverage: u8,
    post_only: bool,
    expires_at: Option<u64>,
    order_id: u64,
)
    requires
        spec_place_order(
            s,
            timestamp,
            user,
            market_id,
            order_type,
            side,
            price,
            size,
            leverage,
            post_only,
            true,
            expires_at,
            order_id,
        ) matches OpOutcome::Done { result, .. } && result matches OperationResultView::OrderPlaced {
            filled_size,
            ..
        } && filled_size@ > 0,
    ensures
        spec_read_position(s, user, market_id) matches Ok(Some(p)) && spec_is_reducing(
            spec_signed_size(size@, side),
            p.size as int,
        ),
{
    lemma_view_u256_of(0);
}

/// A reducing fill never grows a position, and keeps its side and entry
/// price.
pub proof fn law_reducing_fill_shrinks_position(
    pos: PositionData,
    side: Side,
    filled: nat,
    fill_price: nat,
    leverage: u8,
)
    requires
        spec_is_reducing(spec_signed_size(filled, side), pos.size as int),
        filled > 0,
        pos.size != i128::MIN,
    ensures
        spec_update_position_defined(Some(pos), side, filled),
        abs(spec_update_position(Some(pos), side, filled, fill_price, leverage).size as int) < abs(
            pos.size as int,
        ),
        spec_update_position(Some(pos), side, filled, fill_price, leverage).size as int * pos.size >= 0,
        spec_update_position(Some(pos), side, filled, fill_price, leverage).entry_price == pos.entry_price,
{
    crate::primitives::u256::lemma_u256_of_view(pos.entry_price);
    let d = spec_signed_size(filled, side);
    let p = pos.size as int;
    let n = p + d;
    assert(n * p >= 0) by (nonlinear_arith)
        requires
            (p > 0 && d <= 0 && -d <= p) || (p < 0 && d >= 0 && d <= -p),
            n == p + d,
    ;
}

} // verus!
