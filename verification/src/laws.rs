//! The engine's algebraic laws, stated once over the ghost model and
//! proved for every state the store invariant admits.

use crate::decimal::{
    d_fits, d_mul, d_quo, d_rem, lemma_quo_rem_id, lemma_rem_of_multiple, MAX_RAW, SCALE_RAW,
};
use crate::enums::{OrderStatus, TradeSide, TradeType};
use crate::exchange::{
    fill_step_v, frozen_term, frozen_total, lemma_frozen_bridge, lemma_frozen_total_nonneg,
    lemma_order_idx, order_crosses, order_idx, order_wf, remove_order_v, sp_wf,
    submit_effect_v, FillStateV,
};
use crate::models::{
    acct_cash_available_v, acct_cash_frozen_v, acct_pnl_sum, sp_size_available_v,
    sp_size_frozen_v, AccountV, OrderV, PositionV, SymbolPositionV,
};
use vstd::prelude::*;

verus! {

/// Accounting identity: whenever the derived quantities are defined,
/// available cash plus frozen cash equals cash plus unrealized profit and
/// loss, exactly, in the eight-digit fixed-point arithmetic.
pub proof fn law_cash_identity(a: AccountV)
    requires
        acct_cash_available_v(a) is Some,
    ensures
        acct_cash_frozen_v(a) is Some,
        acct_pnl_sum(a.positions) is Some,
        acct_cash_available_v(a)->Some_0 + acct_cash_frozen_v(a)->Some_0 == a.cash + acct_pnl_sum(
            a.positions,
        )->Some_0,
{
}

/// Size identity: on each side of a well-formed symbol state, the
/// available size plus the frozen size equals the held size, exactly.
pub proof fn law_size_identity(sp: SymbolPositionV, side: TradeSide)
    requires
        sp_wf(sp),
    ensures
        sp_size_frozen_v(sp, side) is Some,
        sp_size_available_v(sp, side) is Some,
        sp_size_available_v(sp, side)->Some_0 + sp_size_frozen_v(sp, side)->Some_0 == (
        if side == TradeSide::Long {
            sp.long.size
        } else {
            sp.short.size
        }),
{
    assert(forall|i: int|
        0 <= i < sp.orders.len() ==> 0 <= frozen_term(#[trigger] sp.orders[i], side) <= MAX_RAW);
    lemma_frozen_total_nonneg(sp.orders, side);
    lemma_frozen_bridge(sp.orders, side);
}

/// Every live order of a well-formed symbol state has a dealt size
/// between zero and its size, and is `Created` or `Submitted`.
pub proof fn law_live_orders(sp: SymbolPositionV, i: int)
    requires
        sp_wf(sp),
        0 <= i < sp.orders.len(),
    ensures
        0 <= sp.orders[i].deal_size <= sp.orders[i].size,
        sp.orders[i].status == OrderStatus::Created || sp.orders[i].status
            == OrderStatus::Submitted,
{
    assert(order_wf(sp.orders[i], sp.symbol));
}

/// A flat position carries no entry price. (The converse can fail: a
/// market opening fill whose truncated notional is zero leaves a nonzero
/// size behind a zero price.)
pub proof fn law_flat_position(sp: SymbolPositionV, side: TradeSide)
    requires
        sp_wf(sp),
    ensures
        side == TradeSide::Long && sp.long.size == 0 ==> sp.long.price == 0,
        side == TradeSide::Short && sp.short.size == 0 ==> sp.short.price == 0,
{
}

/// Setting the same leverage twice is the same as setting it once.
pub proof fn law_leverage_idempotent(a: AccountV, i: int, lev: int)
    requires
        0 <= i < a.positions.len(),
    ensures
        ({
            let a1 = AccountV {
                positions: a.positions.update(
                    i,
                    SymbolPositionV { leverage: lev, ..a.positions[i] },
                ),
                ..a
            };
            let a2 = AccountV {
                positions: a1.positions.update(
                    i,
                    SymbolPositionV { leverage: lev, ..a1.positions[i] },
                ),
                ..a1
            };
            a2 == a1
        }),
{
    let a1 = AccountV {
        positions: a.positions.update(i, SymbolPositionV { leverage: lev, ..a.positions[i] }),
        ..a
    };
    let a2 = AccountV {
        positions: a1.positions.update(i, SymbolPositionV { leverage: lev, ..a1.positions[i] }),
        ..a1
    };
    assert(a2.positions =~= a1.positions);
    assert(a2 =~= a1);
}

/// Booking an order with a fresh identifier and then cancelling that
/// identifier restores the account exactly: cash and every position as
/// they were.
pub proof fn law_submit_cancel(a: AccountV, i: int, o: OrderV)
    requires
        0 <= i < a.positions.len(),
        forall|k: int| 0 <= k < a.positions[i].orders.len() ==> (#[trigger] a.positions[i].orders[k]).id
            != o.id,
    ensures
        remove_order_v(submit_effect_v(a, i, o), i, o.id) == a,
{
    let a1 = submit_effect_v(a, i, o);
    let orders1 = a1.positions[i].orders;
    assert(orders1 == a.positions[i].orders.push(o));
    lemma_order_idx(orders1, o.id);
    let j = order_idx(orders1, o.id);
    assert(orders1[orders1.len() - 1].id == o.id);
    assert(j != -1);
    assert(j == orders1.len() - 1) by {
        if j < orders1.len() - 1 {
            assert(orders1[j] == a.positions[i].orders[j]);
        }
    }
    assert(orders1.remove(j) =~= a.positions[i].orders);
    assert(remove_order_v(a1, i, o.id).positions =~= a.positions);
    assert(remove_order_v(a1, i, o.id) =~= a);
}

/// A resting limit long opening order whose price has just been touched
/// crosses.
pub proof fn law_limit_touch_crosses(o: OrderV, last: int)
    requires
        o.type_ == TradeType::Limit,
        o.side == TradeSide::Long,
        !o.reduce_only,
        o.price == last,
    ensures
        order_crosses(o, last),
{
}

/// An exact product divided by its multiplier returns the other factor.
proof fn lemma_exact_div(x: int, y: int)
    requires
        y > 0,
    ensures
        d_quo(x * y, y) == x,
{
    lemma_rem_of_multiple(x, y);
    lemma_quo_rem_id(x * y, y);
    let q = d_quo(x * y, y);
    assert(q * y == x * y);
    assert(q == x) by (nonlinear_arith)
        requires
            q * y == x * y,
            y > 0,
    ;
}

/// Opening `size` from flat and then closing `size`, everything filling
/// at the same price `last`, nets exactly the two fees: the realized
/// profit is zero and the position returns to flat. Stated for fills
/// whose notional `last * size` needs no truncation; one truncated unit
/// can otherwise surface as spurious profit.
pub proof fn law_open_close_roundtrip(
    o_open: OrderV,
    o_close: OrderV,
    st: FillStateV,
    last: int,
    taker: int,
    maker: int,
)
    requires
        st.long == (PositionV { side: TradeSide::Long, price: 0, size: 0 }),
        o_open.side == TradeSide::Long && !o_open.reduce_only && o_open.type_ == TradeType::Limit
            && o_open.price == last,
        o_close.side == TradeSide::Long && o_close.reduce_only,
        o_close.size == o_open.size,
        1 <= o_open.size <= 10_000_000_000_000_000,
        1 <= last <= 10_000_000_000_000_000,
        d_rem(last * o_open.size, SCALE_RAW as int) == 0,
        d_fits(st.fee),
        d_fits(st.profit),
    ensures
        ({
            match fill_step_v(st, o_open, last, taker, maker) {
                None => true,
                Some(st1) => match fill_step_v(st1, o_close, last, taker, maker) {
                    None => true,
                    Some(st2) => {
                        &&& st2.long.size == 0
                        &&& st2.long.price == 0
                        &&& st2.profit == st.profit
                        &&& st2.short == st.short
                        &&& st2.fee == st.fee + d_mul(
                            d_mul(o_open.size, last),
                            if o_open.status == OrderStatus::Created {
                                taker
                            } else {
                                maker
                            },
                        ) + d_mul(
                            d_mul(o_close.size, last),
                            if o_close.status == OrderStatus::Created {
                                taker
                            } else {
                                maker
                            },
                        )
                    },
                },
            }
        }),
{
    let s = SCALE_RAW as int;
    match fill_step_v(st, o_open, last, taker, maker) {
        None => {
        },
        Some(st1) => {
            // the entry price is exactly `last`
            let m = d_mul(last, o_open.size);
            lemma_quo_rem_id(last * o_open.size, s);
            assert(m * s == last * o_open.size);
            assert(d_mul(o_open.price, o_open.size) == m);
            assert(st1.long.size == o_open.size);
            assert(st1.long.price == d_quo(m * s, o_open.size));
            assert(st1.long.price == last) by {
                assert(m * s == last * o_open.size);
                lemma_exact_div(last, o_open.size);
            }
            match fill_step_v(st1, o_close, last, taker, maker) {
                None => {
                },
                Some(st2) => {
                    assert(d_mul(last - st1.long.price, o_close.size) == 0) by {
                        assert(last - st1.long.price == 0);
                        assert((0int) * o_close.size == 0);
                        vstd::arithmetic::div_mod::lemma_div_of0(s);
                        assert(d_quo(0, s) == 0);
                    }
                    assert(st2.long.size == 0);
                },
            }
        },
    }
}

/// Two sequential opening fills from flat at prices `p1`, `p2` with sizes
/// `s1`, `s2` leave the entry price at the size-weighted average
/// `(p1*s1 + p2*s2) / (s1+s2)`, truncated to the eight-digit scale.
/// Stated for notionals that need no truncation themselves; otherwise the
/// intermediate rounding shifts the average by up to one unit.
pub proof fn law_weighted_average(
    o1: OrderV,
    o2: OrderV,
    st: FillStateV,
    last: int,
    taker: int,
    maker: int,
)
    requires
        st.long == (PositionV { side: TradeSide::Long, price: 0, size: 0 }),
        o1.side == TradeSide::Long && !o1.reduce_only && o1.type_ == TradeType::Limit,
        o2.side == TradeSide::Long && !o2.reduce_only && o2.type_ == TradeType::Limit,
        1 <= o1.size <= 10_000_000_000_000_000,
        1 <= o2.size <= 10_000_000_000_000_000,
        1 <= o1.price <= 10_000_000_000_000_000,
        1 <= o2.price <= 10_000_000_000_000_000,
        d_rem(o1.price * o1.size, SCALE_RAW as int) == 0,
        d_rem(o2.price * o2.size, SCALE_RAW as int) == 0,
        d_fits(st.fee),
        d_fits(st.profit),
    ensures
        ({
            match fill_step_v(st, o1, last, taker, maker) {
                None => true,
                Some(st1) => match fill_step_v(st1, o2, last, taker, maker) {
                    None => true,
                    Some(st2) => {
                        &&& st2.long.size == o1.size + o2.size
                        &&& st2.long.price == d_quo(
                            o1.price * o1.size + o2.price * o2.size,
                            o1.size + o2.size,
                        )
                    },
                },
            }
        }),
{
    let s = SCALE_RAW as int;
    match fill_step_v(st, o1, last, taker, maker) {
        None => {
        },
        Some(st1) => {
            let m1 = d_mul(o1.price, o1.size);
            lemma_quo_rem_id(o1.price * o1.size, s);
            assert(m1 * s == o1.price * o1.size);
            assert(st1.long.size == o1.size);
            assert(st1.long.price == d_quo(m1 * s, o1.size));
            assert(st1.long.price == o1.price) by {
                lemma_exact_div(o1.price, o1.size);
            }
            match fill_step_v(st1, o2, last, taker, maker) {
                None => {
                },
                Some(st2) => {
                    let m2 = d_mul(o2.price, o2.size);
                    lemma_quo_rem_id(o2.price * o2.size, s);
                    assert(m2 * s == o2.price * o2.size);
                    let mprev = d_mul(st1.long.price, st1.long.size);
                    assert(mprev == m1);
                    assert(st2.long.size == o2.size + o1.size);
                    assert(st2.long.price == d_quo((m2 + m1) * s, o2.size + o1.size));
                    assert((m2 + m1) * s == o1.price * o1.size + o2.price * o2.size)
                        by (nonlinear_arith)
                        requires
                            m1 * s == o1.price * o1.size,
                            m2 * s == o2.price * o2.size,
                    ;
                    assert(st2.long.price == d_quo(
                        o1.price * o1.size + o2.price * o2.size,
                        o1.size + o2.size,
                    ));
                },
            }
        },
    }
}

} // verus!
