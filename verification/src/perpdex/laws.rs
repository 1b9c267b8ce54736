//! Laws of the PerpDex operations, stated by what each must compute rather
//! than by how: leverage bounds, the margin check, margin conservation, the
//! limit-order fill rule and the averaging of entry prices.
use vstd::prelude::*;

use super::execution_spec::{
    abs, resting_order, sign, spec_adjust_margin, spec_update_position, spec_op, spec_place_order, spec_read_balance, spec_read_market,
    spec_read_position, ExecutionErrorView, MarketData, OpOutcome, PositionData,
};
use super::state::{PerpDexLocation, PerpDexValue};
use super::storage::PerpDexStorage;
use super::types::{OperationResultView, OperationView, OrderStatus, OrderType, Side};
use crate::primitives::address::Address;
use crate::primitives::u256::{lemma_view_u256_of, u256_modulus, u256_of, U256};

verus! {

/// Setting a market's leverage succeeds exactly for a leverage of 1 to 100,
/// writes nothing, and reports the market and leverage; any other leverage
/// is refused with `InvalidLeverage` of it.
pub proof fn law_set_leverage_range<S: PerpDexStorage>(
    s: S,
    timestamp: u64,
    user: Address,
    market_id: u64,
    leverage: u8,
    order_id: u64,
)
    ensures
        (spec_op(s, timestamp, user, OperationView::SetLeverage { market_id, leverage }, order_id) is Done)
            <==> (1 <= leverage && leverage <= 100),
        1 <= leverage <= 100 ==> spec_op(
            s,
            timestamp,
            user,
            OperationView::SetLeverage { market_id, leverage },
            order_id,
        ) == (OpOutcome::Done {
            result: OperationResultView::LeverageUpdated { market_id, leverage },
            writes: Seq::empty(),
            uses_id: false,
        }),
        !(1 <= leverage <= 100) ==> spec_op(
            s,
            timestamp,
            user,
            OperationView::SetLeverage { market_id, leverage },
            order_id,
        ) == OpOutcome::Failed(ExecutionErrorView::InvalidLeverage(leverage)),
{
    reveal(spec_op);
}

/// Placing an order with a leverage outside 1 to 100 is refused with
/// `InvalidLeverage` of it, whatever the order and the state.
pub proof fn law_place_order_leverage_range<S: PerpDexStorage>(
    s: S,
    timestamp: u64,
    user: Address,
    market_id: u64,
    order_type: OrderType,
    side: Side,
    price: U256,
    size: U256,
    leverage: u8,
    post_only: bool,
    reduce_only: bool,
    expires_at: Option<u64>,
    order_id: u64,
)
    requires
        leverage < 1 || leverage > 100,
    ensures
        spec_place_order(
            s,
            timestamp,
            user,
            market_id,
            order_type,
            side,
            price,
            size,
            leverage,
            post_only,
            reduce_only,
            expires_at,
            order_id,
        ) == OpOutcome::Failed(ExecutionErrorView::InvalidLeverage(leverage)),
{
}

/// Every order, of any type and whether it would fill or not, needs its
/// margin, `price * size / 10^18 / leverage` (the product wrapping at
/// `2^256`): a placement that succeeds had at least that balance, and with
/// less balance it is refused with `InsufficientBalance` of the margin and
/// the balance.
pub proof fn law_order_needs_margin<S: PerpDexStorage>(
    s: S,
    timestamp: u64,
    user: Address,
    market_id: u64,
    order_type: OrderType,
    side: Side,
    price: U256,
    size: U256,
    leverage: u8,
    post_only: bool,
    reduce_only: bool,
    expires_at: Option<u64>,
    order_id: u64,
    balance: U256,
)
    requires
        1 <= leverage <= 100,
        spec_read_balance(s, user) == Ok::<U256, ExecutionErrorView>(balance),
        spec_read_position(s, user, market_id) is Ok,
        spec_read_market(s, timestamp, market_id) is Ok,
    ensures
        ({
            let margin = (price@ * size@) % u256_modulus() / 1_000_000_000_000_000_000 / (leverage as nat);
            let outcome = spec_place_order(
                s,
                timestamp,
                user,
                market_id,
                order_type,
                side,
                price,
                size,
                leverage,
                post_only,
                reduce_only,
                expires_at,
                order_id,
            );
            &&& outcome is Done ==> margin <= balance@
            &&& balance@ < margin ==> (outcome matches OpOutcome::Failed(
                ExecutionErrorView::InsufficientBalance { required, available },
            ) && required@ == margin && available == balance)
        }),
{
    let margin = (price@ * size@) % u256_modulus() / 1_000_000_000_000_000_000 / (leverage as nat);
    assert(margin <= (price@ * size@) % u256_modulus()) by {
        vstd::arithmetic::div_mod::lemma_div_is_ordered_by_denominator(
            ((price@ * size@) % u256_modulus()) as int,
            1,
            1_000_000_000_000_000_000,
        );
        vstd::arithmetic::div_mod::lemma_div_is_ordered_by_denominator(
            ((price@ * size@) % u256_modulus() / 1_000_000_000_000_000_000) as int,
            1,
            leverage as int,
        );
    }
    lemma_view_u256_of(margin);
}

/// The margin of a stored position (0 for other values).
pub open spec fn margin_of(v: PerpDexValue) -> nat {
    match v {
        PerpDexValue::Position { margin, .. } => margin@,
        _ => 0,
    }
}

/// Adding margin moves funds from the balance into the position: the new
/// margin is the old margin plus the amount, the new balance the old balance
/// less the amount (so margin plus balance is unchanged), and the position is
/// otherwise kept. More than the balance is refused, and so is a market
/// without a position.
pub proof fn law_adjust_margin_conserves<S: PerpDexStorage>(
    s: S,
    user: Address,
    market_id: u64,
    amount: U256,
    balance: U256,
    position: Option<PositionData>,
)
    requires
        spec_read_balance(s, user) == Ok::<U256, ExecutionErrorView>(balance),
        spec_read_position(s, user, market_id) == Ok::<Option<PositionData>, ExecutionErrorView>(position),
        position matches Some(p) ==> p.margin@ + amount@ < u256_modulus(),
    ensures
        ({
            let outcome = spec_adjust_margin(s, user, market_id, amount);
            &&& amount@ > balance@ ==> outcome == OpOutcome::Failed(
                ExecutionErrorView::InsufficientBalance { required: amount, available: balance },
            )
            &&& amount@ <= balance@ ==> match position {
                None => outcome is Failed,
                Some(p) => outcome matches OpOutcome::Done { result, writes, .. } && result
                    == OperationResultView::MarginAdjusted { market_id, amount } && writes.len() == 2
                    && writes[0].0 == PerpDexLocation::Position(user, market_id) && writes[1].0
                    == PerpDexLocation::Balance(user, 0) && (writes[0].1 matches PerpDexValue::Position {
                    size,
                    entry_price,
                    leverage,
                    margin,
                    unrealized_pnl,
                    last_funding_index,
                } && margin@ == p.margin@ + amount@ && size == p.size && entry_price == p.entry_price
                    && leverage == p.leverage && unrealized_pnl == p.unrealized_pnl && last_funding_index
                    == p.last_funding_index) && (writes[1].1 matches PerpDexValue::Balance(b) && b@ + amount@
                    == balance@ && b@ + margin_of(writes[0].1) == balance@ + p.margin@),
            }
        }),
{
    balance.lemma_bounded();
    amount.lemma_bounded();
    if let Some(p) = position {
        vstd::arithmetic::div_mod::lemma_small_mod(p.margin@ + amount@, u256_modulus());
        lemma_view_u256_of(p.margin@ + amount@);
        if amount@ <= balance@ {
            vstd::arithmetic::div_mod::lemma_small_mod((balance@ - amount@) as nat, u256_modulus());
            lemma_view_u256_of((balance@ - amount@) as nat);
        }
    }
}

/// Whether a limit price is favourable at a mark price: a long (buy) limit
/// at or above the mark, a short (sell) limit at or below it.
pub open spec fn limit_favourable(side: Side, price: nat, mark_price: nat) -> bool {
    match side {
        Side::Long => mark_price <= price,
        Side::Short => mark_price >= price,
    }
}

/// A limit order that may fill at once (not post-only) fills in full where
/// the mark price is at or better than its limit, and not at all otherwise:
/// then the whole size rests on the book as an open order, and nothing else
/// is written.
pub proof fn law_limit_fill_rule<S: PerpDexStorage>(
    s: S,
    timestamp: u64,
    user: Address,
    market_id: u64,
    side: Side,
    price: U256,
    size: U256,
    leverage: u8,
    reduce_only: bool,
    expires_at: Option<u64>,
    order_id: u64,
    market: MarketData,
)
    requires
        spec_read_market(s, timestamp, market_id) == Ok::<MarketData, ExecutionErrorView>(market),
        spec_place_order(
            s,
            timestamp,
            user,
            market_id,
            OrderType::Limit,
            side,
            price,
            size,
            leverage,
            false,
            reduce_only,
            expires_at,
            order_id,
        ) is Done,
    ensures
        spec_place_order(
            s,
            timestamp,
            user,
            market_id,
            OrderType::Limit,
            side,
            price,
            size,
            leverage,
            false,
            reduce_only,
            expires_at,
            order_id,
        ) matches OpOutcome::Done { result, writes, .. } && result matches OperationResultView::OrderPlaced {
            filled_size,
            ..
        } && (limit_favourable(side, price@, market.mark_price@) ==> filled_size == size) && (!limit_favourable(
            side,
            price@,
            market.mark_price@,
        ) ==> filled_size@ == 0 && (size@ > 0 ==> writes.len() == 1 && writes[0].0 == PerpDexLocation::Order(
            user,
            market_id,
            order_id,
        ) && (writes[0].1 matches PerpDexValue::Order { size: rest, filled, status, .. } && rest@ == size@
            && filled@ == 0 && status == OrderStatus::Open))),
{
    lemma_view_u256_of(0);
    size.lemma_bounded();
    lemma_view_u256_of(size@);
    vstd::arithmetic::div_mod::lemma_small_mod(size@, u256_modulus());
    let outcome = spec_place_order(
        s,
        timestamp,
        user,
        market_id,
        OrderType::Limit,
        side,
        price,
        size,
        leverage,
        false,
        reduce_only,
        expires_at,
        order_id,
    );
    if !limit_favourable(side, price@, market.mark_price@) && size@ > 0 {
        let order_write = seq![
            (
                PerpDexLocation::Order(user, market_id, order_id),
                resting_order(
                    OrderType::Limit,
                    side,
                    price,
                    size@,
                    u256_of(0),
                    false,
                    reduce_only,
                    timestamp,
                    expires_at,
                ),
            ),
        ];
        assert(order_write + Seq::<(PerpDexLocation, PerpDexValue)>::empty() =~= order_write);
        assert(outcome matches OpOutcome::Done { writes, .. } && writes == order_write);
    }
}

/// `x / d` times `d` is at most `x`, and less than `d` below it.
proof fn lemma_floor_bounds(x: nat, d: nat)
    requires
        d > 0,
    ensures
        (x / d) * d <= x,
        x < (x / d) * d + d,
{
    vstd::arithmetic::div_mod::lemma_fundamental_div_mod(x as int, d as int);
    vstd::arithmetic::div_mod::lemma_mod_pos_bound(x as int, d as int);
    vstd::arithmetic::mul::lemma_mul_is_commutative(d as int, (x / d) as int);
}

/// Adding a fill to an open position on its side averages the entry price by
/// size: with `n` the new size, `entry * n` is at most `|size| * entry_old +
/// fill * fill_price`, and that sum is less than `(entry + 1) * n` plus two
/// units of 10^18 (the flooring of the fixed-point notionals). The position
/// grows by the fill and keeps its side. So adding 3 units at 1000 to 1 unit
/// at 800 gives 950, not the plain mean 900.
pub proof fn law_adding_averages_entry(
    pos: PositionData,
    side: Side,
    filled: nat,
    fill_price: nat,
    leverage: u8,
)
    requires
        pos.size != 0,
        (pos.size > 0) == (side == Side::Long),
        0 < filled <= i128::MAX,
        side == Side::Long ==> pos.size + filled <= i128::MAX,
        side == Side::Short ==> pos.size - filled >= i128::MIN,
        abs(pos.size as int) * pos.entry_price@ + filled * fill_price < u256_modulus(),
    ensures
        ({
            let p = spec_update_position(Some(pos), side, filled, fill_price, leverage);
            let n = abs(pos.size as int) + filled;
            let weighted = abs(pos.size as int) * pos.entry_price@ + filled * fill_price;
            &&& abs(p.size as int) == n
            &&& sign(p.size as int) == sign(pos.size as int)
            &&& p.entry_price@ * n <= weighted
            &&& weighted < (p.entry_price@ + 1) * n + 2 * 1_000_000_000_000_000_000
        }),
{
    let precision: nat = 1_000_000_000_000_000_000;
    let m = u256_modulus();
    let big_a = abs(pos.size as int);
    let a = big_a * pos.entry_price@;
    let b = filled * fill_price;
    let delta: int = if side == Side::Long { filled as int } else { -(filled as int) };
    assert(super::execution_spec::spec_signed_size(filled, side) == delta);
    let new_size = pos.size + delta;
    let n = big_a + filled;
    assert(abs(new_size) == n);
    assert(n > 0);
    vstd::arithmetic::div_mod::lemma_small_mod(a, m);
    vstd::arithmetic::div_mod::lemma_small_mod(b, m);
    lemma_floor_bounds(a, precision);
    lemma_floor_bounds(b, precision);
    let old_n = a / precision;
    let new_n = b / precision;
    assert(old_n * precision <= a);
    assert(new_n * precision <= b);
    assert(old_n <= old_n * precision) by (nonlinear_arith)
        requires
            precision >= 1,
    ;
    assert(new_n <= new_n * precision) by (nonlinear_arith)
        requires
            precision >= 1,
    ;
    let total = old_n + new_n;
    vstd::arithmetic::div_mod::lemma_small_mod(total, m);
    assert(total * precision == old_n * precision + new_n * precision) by (nonlinear_arith)
        requires
            total == old_n + new_n,
    ;
    vstd::arithmetic::div_mod::lemma_small_mod(total * precision, m);
    let entry = (total * precision) / n;
    lemma_floor_bounds(total * precision, n);
    assert(entry == super::execution_spec::spec_new_entry_price(pos, delta, fill_price));
    assert(entry <= total * precision) by {
        vstd::arithmetic::div_mod::lemma_div_is_ordered_by_denominator((total * precision) as int, 1, n as int);
    }
    lemma_view_u256_of(entry);
    let p = spec_update_position(Some(pos), side, filled, fill_price, leverage);
    assert(p.entry_price@ == entry);
    assert((entry + 1) * n == entry * n + n) by (nonlinear_arith);
    assert(entry * n == (total * precision / n) * n);
}

/// An order that fills against no open position opens one: of the filled
/// size, signed by the side, at the fill price (the mark price for a market
/// order, the limit price for a limit order), with the order's leverage and
/// the margin `fill_price * filled / 10^18 / leverage`; and the order's own
/// margin `price * size / 10^18 / leverage` is taken from the balance. These
/// are the last two writes.
pub proof fn law_fill_opens_position<S: PerpDexStorage>(
    s: S,
    timestamp: u64,
    user: Address,
    market_id: u64,
    order_type: OrderType,
    side: Side,
    price: U256,
    size: U256,
    leverage: u8,
    post_only: bool,
    reduce_only: bool,
    expires_at: Option<u64>,
    order_id: u64,
    balance: U256,
    market: MarketData,
)
    requires
        spec_read_balance(s, user) == Ok::<U256, ExecutionErrorView>(balance),
        spec_read_position(s, user, market_id) == Ok::<Option<PositionData>, ExecutionErrorView>(None),
        spec_read_market(s, timestamp, market_id) == Ok::<MarketData, ExecutionErrorView>(market),
        size@ <= i128::MAX,
        spec_place_order(
            s,
            timestamp,
            user,
            market_id,
            order_type,
            side,
            price,
            size,
            leverage,
            post_only,
            reduce_only,
            expires_at,
            order_id,
        ) matches OpOutcome::Done { result, .. } && result matches OperationResultView::OrderPlaced {
            filled_size,
            ..
        } && filled_size@ > 0,
    ensures
        spec_place_order(
            s,
            timestamp,
            user,
            market_id,
            order_type,
            side,
            price,
            size,
            leverage,
            post_only,
            reduce_only,
            expires_at,
            order_id,
        ) matches OpOutcome::Done { result, writes, .. } && result matches OperationResultView::OrderPlaced {
            filled_size,
            ..
        } && ({
            let fill_price = if order_type == OrderType::Market {
                market.mark_price@
            } else {
                price@
            };
            let order_margin = (price@ * size@) % u256_modulus() / 1_000_000_000_000_000_000 / (
            leverage as nat);
            let position_margin = (fill_price * filled_size@) % u256_modulus() / 1_000_000_000_000_000_000 / (
            leverage as nat);
            &&& filled_size == size
            &&& writes.len() >= 2
            &&& writes[writes.len() - 2].0 == PerpDexLocation::Position(user, market_id)
            &&& writes[writes.len() - 2].1 matches PerpDexValue::Position {
                size: new_size,
                entry_price,
                leverage: new_leverage,
                margin,
                ..
            } && new_size == (if side == Side::Long {
                size@ as int
            } else {
                -(size@ as int)
            }) && entry_price@ == fill_price && new_leverage == leverage && margin@ == position_margin
            &&& writes[writes.len() - 1].0 == PerpDexLocation::Balance(user, 0)
            &&& writes[writes.len() - 1].1 matches PerpDexValue::Balance(rest) && rest@ + order_margin
                == balance@
        }),
{
    let outcome = spec_place_order(
        s,
        timestamp,
        user,
        market_id,
        order_type,
        side,
        price,
        size,
        leverage,
        post_only,
        reduce_only,
        expires_at,
        order_id,
    );
    lemma_view_u256_of(0);
    price.lemma_bounded();
    market.mark_price.lemma_bounded();
    balance.lemma_bounded();
    let order_margin = (price@ * size@) % u256_modulus() / 1_000_000_000_000_000_000 / (leverage as nat);
    assert(order_margin <= (price@ * size@) % u256_modulus()) by {
        vstd::arithmetic::div_mod::lemma_div_is_ordered_by_denominator(
            ((price@ * size@) % u256_modulus()) as int,
            1,
            1_000_000_000_000_000_000,
        );
        vstd::arithmetic::div_mod::lemma_div_is_ordered_by_denominator(
            ((price@ * size@) % u256_modulus() / 1_000_000_000_000_000_000) as int,
            1,
            leverage as int,
        );
    }
    lemma_view_u256_of((balance@ - order_margin) as nat);
    let fill_price = if order_type == OrderType::Market {
        market.mark_price@
    } else {
        price@
    };
    let position_margin = (fill_price * size@) % u256_modulus() / 1_000_000_000_000_000_000 / (leverage as nat);
    assert(position_margin <= (fill_price * size@) % u256_modulus()) by {
        vstd::arithmetic::div_mod::lemma_div_is_ordered_by_denominator(
            ((fill_price * size@) % u256_modulus()) as int,
            1,
            1_000_000_000_000_000_000,
        );
        vstd::arithmetic::div_mod::lemma_div_is_ordered_by_denominator(
            ((fill_price * size@) % u256_modulus() / 1_000_000_000_000_000_000) as int,
            1,
            leverage as int,
        );
    }
    lemma_view_u256_of(position_margin);
    lemma_view_u256_of(fill_price);
}

} // verus!
