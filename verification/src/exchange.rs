//! The exchange side of the store: symbol initialization, order
//! bookkeeping, and the invariants that tie cash, margins and positions
//! together.
//!
//! All mutations are specified as functions of the account view
//! ([`AccountV`]); [`acct_wf`] is the store invariant every operation
//! preserves.

use crate::decimal::{
    c_add, c_div, c_mul, c_quant, c_sub, d_fits, d_mul, d_rem, lemma_quant_props, Decimal,
    MAX_RAW,
};
use crate::enums::{OrderStatus, TradeSide, TradeType};
use crate::errors::EngineError;
use crate::models::{
    acct_cash_available_v, lev_raw, sp_size_available_v, Account, AccountV, MarketV, Order,
    OrderV, Position, PositionV, RuleV, Symbol, SymbolMarket, SymbolPosition, SymbolPositionV,
    SymbolRule, SymbolV,
};
use vstd::prelude::*;
use vstd::string::StringExecFns;

verus! {

// ---------------------------------------------------------------------------
// The fixed symbol rule
// ---------------------------------------------------------------------------
/// The rule every symbol is initialized with: prices and sizes between
/// `10^-8` and `10^8` on a `10^-8` grid, minimum amount `10^-8`, at most
/// 200 live orders.
pub open spec fn default_rule_v() -> RuleV {
    RuleV {
        price_min: 1,
        price_max: 10_000_000_000_000_000,
        price_tick: 1,
        size_min: 1,
        size_max: 10_000_000_000_000_000,
        size_tick: 1,
        amount_min: 1,
        order_max: 200,
    }
}

/// The rule every symbol is initialized with.
pub fn default_rule() -> (r: SymbolRule)
    ensures
        r@ == default_rule_v(),
{
    SymbolRule {
        price_min: Decimal::from_scaled(1),
        price_max: Decimal::from_int(100_000_000),
        price_tick: Decimal::from_scaled(1),
        size_min: Decimal::from_scaled(1),
        size_max: Decimal::from_int(100_000_000),
        size_tick: Decimal::from_scaled(1),
        amount_min: Decimal::from_scaled(1),
        order_max: 200,
    }
}

/// The state of a freshly initialized symbol: default rule, empty market,
/// leverage 1, flat positions, no orders.
pub open spec fn init_sp_v(name: Seq<char>) -> SymbolPositionV {
    SymbolPositionV {
        symbol: SymbolV {
            symbol: name,
            enable: true,
            rule: default_rule_v(),
            market: MarketV {
                mark: 0,
                index: 0,
                last: 0,
                settlement: 0,
                settlement_time: 0,
                time: 0,
            },
        },
        leverage: 1,
        long: PositionV { side: TradeSide::Long, price: 0, size: 0 },
        short: PositionV { side: TradeSide::Short, price: 0, size: 0 },
        orders: Seq::empty(),
    }
}

// ---------------------------------------------------------------------------
// Frozen-size totals (exact integer sums)
// ---------------------------------------------------------------------------
/// Position size one order freezes on `side`: its undealt size if it is a
/// reduce-only order of that side, else zero.
pub open spec fn frozen_term(o: OrderV, side: TradeSide) -> int {
    if o.side == side && o.reduce_only {
        o.size - o.deal_size
    } else {
        0
    }
}

/// Exact sum of the sizes frozen on `side` by a sequence of orders.
pub open spec fn frozen_total(orders: Seq<OrderV>, side: TradeSide) -> int
    decreases orders.len(),
{
    if orders.len() == 0 {
        0
    } else {
        frozen_total(orders.drop_last(), side) + frozen_term(orders.last(), side)
    }
}

// ---------------------------------------------------------------------------
// Well-formedness
// ---------------------------------------------------------------------------
/// What always holds of a live order.
pub open spec fn order_wf(o: OrderV, sym: SymbolV) -> bool {
    let r = sym.rule;
    &&& o.symbol == sym.symbol
    &&& (o.status == OrderStatus::Created || o.status == OrderStatus::Submitted)
    &&& o.deal_size == 0 && o.deal_price == 0 && o.deal_fee == 0
    &&& d_fits(o.size) && d_fits(o.price)
    &&& d_rem(o.size, r.size_tick) == 0
    &&& r.size_min <= o.size
    &&& (!o.reduce_only ==> o.size <= r.size_max)
    &&& (o.type_ == TradeType::Limit ==> d_rem(o.price, r.price_tick) == 0 && r.price_min
        <= o.price <= r.price_max)
    &&& (o.type_ == TradeType::Market ==> o.price == 0)
    &&& (!o.reduce_only && o.type_ == TradeType::Limit ==> d_mul(o.size, o.price) >= r.amount_min)
}

/// What always holds of one side of a position.
pub open spec fn pos_wf(p: PositionV, r: RuleV, side: TradeSide) -> bool {
    &&& p.side == side
    &&& 0 <= p.size
    &&& d_fits(p.size) && d_fits(p.price)
    &&& (p.size == 0 ==> p.price == 0)
    &&& d_rem(p.size, r.size_tick) == 0
    &&& d_rem(p.price, r.price_tick) == 0
}

/// What always holds of one symbol's state.
pub open spec fn sp_wf(sp: SymbolPositionV) -> bool {
    &&& sp.symbol.rule == default_rule_v()
    &&& sp.symbol.enable
    &&& 1 <= sp.leverage
    &&& pos_wf(sp.long, sp.symbol.rule, TradeSide::Long)
    &&& pos_wf(sp.short, sp.symbol.rule, TradeSide::Short)
    &&& forall|i: int| 0 <= i < sp.orders.len() ==> order_wf(#[trigger] sp.orders[i], sp.symbol)
    &&& frozen_total(sp.orders, TradeSide::Long) <= sp.long.size
    &&& frozen_total(sp.orders, TradeSide::Short) <= sp.short.size
}

/// The store invariant: every symbol well-formed, all symbol names
/// distinct.
pub open spec fn acct_wf(a: AccountV) -> bool {
    &&& forall|i: int| 0 <= i < a.positions.len() ==> sp_wf(#[trigger] a.positions[i])
    &&& forall|i: int, j: int|
        0 <= i < j < a.positions.len() ==> a.positions[i].symbol.symbol
            != a.positions[j].symbol.symbol
}

// ---------------------------------------------------------------------------
// First-match indices
// ---------------------------------------------------------------------------
/// Index of the first symbol named `name`, or `-1`.
pub open spec fn sym_idx(ps: Seq<SymbolPositionV>, name: Seq<char>) -> int
    decreases ps.len(),
{
    if ps.len() == 0 {
        -1
    } else if ps.first().symbol.symbol == name {
        0
    } else {
        let r = sym_idx(ps.drop_first(), name);
        if r == -1 {
            -1
        } else {
            r + 1
        }
    }
}

/// The first-match index is consistent: `-1` exactly when no symbol
/// matches, otherwise the first matching position.
pub proof fn lemma_sym_idx(ps: Seq<SymbolPositionV>, name: Seq<char>)
    ensures
        sym_idx(ps, name) == -1 <==> (forall|i: int|
            0 <= i < ps.len() ==> (#[trigger] ps[i]).symbol.symbol != name),
        sym_idx(ps, name) != -1 ==> 0 <= sym_idx(ps, name) < ps.len() && ps[sym_idx(
            ps,
            name,
        )].symbol.symbol == name && (forall|i: int|
            0 <= i < sym_idx(ps, name) ==> (#[trigger] ps[i]).symbol.symbol != name),
    decreases ps.len(),
{
    if ps.len() > 0 {
        let rest = ps.drop_first();
        lemma_sym_idx(rest, name);
        assert(forall|j: int| 0 <= j < rest.len() ==> #[trigger] rest[j] == ps[j + 1]);
        if forall|i: int| 0 <= i < ps.len() ==> (#[trigger] ps[i]).symbol.symbol != name {
            assert forall|j: int|
                0 <= j < rest.len() implies (#[trigger] rest[j]).symbol.symbol != name by {
                assert(ps[j + 1].symbol.symbol != name);
            }
            assert(sym_idx(ps, name) == -1);
        }
        if sym_idx(ps, name) == -1 {
            assert forall|i: int|
                0 <= i < ps.len() implies (#[trigger] ps[i]).symbol.symbol != name by {
                if i > 0 {
                    assert(ps[i] == rest[i - 1]);
                }
            }
        } else {
            let k = sym_idx(ps, name);
            if k > 0 {
                assert(ps[k] == rest[k - 1]);
                assert forall|i: int|
                    0 <= i < k implies (#[trigger] ps[i]).symbol.symbol != name by {
                    if i > 0 {
                        assert(ps[i] == rest[i - 1]);
                    }
                }
            }
        }
    }
}

/// Index of the first order with identifier `id`, or `-1`.
pub open spec fn order_idx(orders: Seq<OrderV>, id: Seq<char>) -> int
    decreases orders.len(),
{
    if orders.len() == 0 {
        -1
    } else if orders.first().id == id {
        0
    } else {
        let r = order_idx(orders.drop_first(), id);
        if r == -1 {
            -1
        } else {
            r + 1
        }
    }
}

/// The first-match order index is consistent.
pub proof fn lemma_order_idx(orders: Seq<OrderV>, id: Seq<char>)
    ensures
        order_idx(orders, id) == -1 <==> (forall|i: int|
            0 <= i < orders.len() ==> (#[trigger] orders[i]).id != id),
        order_idx(orders, id) != -1 ==> 0 <= order_idx(orders, id) < orders.len() && orders[
            order_idx(orders, id)].id == id && (forall|i: int|
            0 <= i < order_idx(orders, id) ==> (#[trigger] orders[i]).id != id),
    decreases orders.len(),
{
    if orders.len() > 0 {
        let rest = orders.drop_first();
        lemma_order_idx(rest, id);
        assert(forall|j: int| 0 <= j < rest.len() ==> #[trigger] rest[j] == orders[j + 1]);
        if forall|i: int| 0 <= i < orders.len() ==> (#[trigger] orders[i]).id != id {
            assert forall|j: int| 0 <= j < rest.len() implies (#[trigger] rest[j]).id != id by {
                assert(orders[j + 1].id != id);
            }
            assert(order_idx(orders, id) == -1);
        }
        if order_idx(orders, id) == -1 {
            assert forall|i: int|
                0 <= i < orders.len() implies (#[trigger] orders[i]).id != id by {
                if i > 0 {
                    assert(orders[i] == rest[i - 1]);
                }
            }
        } else {
            let k = order_idx(orders, id);
            if k > 0 {
                assert(orders[k] == rest[k - 1]);
                assert forall|i: int| 0 <= i < k implies (#[trigger] orders[i]).id != id by {
                    if i > 0 {
                        assert(orders[i] == rest[i - 1]);
                    }
                }
            }
        }
    }
}

// ---------------------------------------------------------------------------
// Frozen-total lemmas
// ---------------------------------------------------------------------------
/// All frozen terms of well-formed orders are nonnegative, so the total is
/// monotone under removal and nonnegative.
pub proof fn lemma_frozen_total_nonneg(orders: Seq<OrderV>, side: TradeSide)
    requires
        forall|i: int| 0 <= i < orders.len() ==> frozen_term(#[trigger] orders[i], side) >= 0,
    ensures
        frozen_total(orders, side) >= 0,
    decreases orders.len(),
{
    if orders.len() > 0 {
        lemma_frozen_total_nonneg(orders.drop_last(), side);
    }
}

/// Removing one order splits the frozen total.
pub proof fn lemma_frozen_total_remove(orders: Seq<OrderV>, j: int, side: TradeSide)
    requires
        0 <= j < orders.len(),
    ensures
        frozen_total(orders, side) == frozen_total(orders.remove(j), side) + frozen_term(
            orders[j],
            side,
        ),
    decreases orders.len(),
{
    if j == orders.len() - 1 {
        assert(orders.remove(j) =~= orders.drop_last());
    } else {
        lemma_frozen_total_remove(orders.drop_last(), j, side);
        assert(orders.remove(j).drop_last() =~= orders.drop_last().remove(j));
        assert(orders.remove(j).last() == orders.last());
    }
}

/// Appending one order extends the frozen total.
pub proof fn lemma_frozen_total_push(orders: Seq<OrderV>, o: OrderV, side: TradeSide)
    ensures
        frozen_total(orders.push(o), side) == frozen_total(orders, side) + frozen_term(o, side),
{
    assert(orders.push(o).drop_last() =~= orders);
}

// ---------------------------------------------------------------------------
// Executable helpers
// ---------------------------------------------------------------------------
/// Do a `String` and a `&str` spell the same characters?
pub fn same_str(a: &String, b: &str) -> (r: bool)
    ensures
        r == (a@ == b@),
{
    *a == b.to_owned()
}

impl Account {
    /// Index of the symbol named `symbol`, if initialized.
    pub fn find_symbol(&self, symbol: &str) -> (r: Option<usize>)
        ensures
            match r {
                Some(i) => 0 <= i < self.positions@.len() && sym_idx(self@.positions, symbol@)
                    == i,
                None => sym_idx(self@.positions, symbol@) == -1,
            },
    {
        proof {
            lemma_sym_idx(self@.positions, symbol@);
        }
        let mut i: usize = 0;
        while i < self.positions.len()
            invariant
                i <= self.positions.len(),
                forall|j: int|
                    0 <= j < i ==> (#[trigger] self@.positions[j]).symbol.symbol != symbol@,
            decreases self.positions.len() - i,
        {
            if same_str(&self.positions[i].symbol.symbol, symbol) {
                proof {
                    lemma_sym_idx_scan(self@.positions, symbol@, i as int);
                }
                return Some(i);
            }
            i = i + 1;
        }
        None
    }

    /// Create the state for a new symbol with the default rule.
    ///
    /// Fails with `DuplicateSymbol` if the symbol is already initialized;
    /// on success appends a fresh flat symbol state.
    pub fn symbol_init(&mut self, symbol: &str) -> (r: Result<(), EngineError>)
        ensures
            sym_idx(old(self)@.positions, symbol@) != -1 ==> r == Err::<(), EngineError>(
                EngineError::DuplicateSymbol,
            ) && final(self)@ == old(self)@,
            sym_idx(old(self)@.positions, symbol@) == -1 ==> r == Ok::<(), EngineError>(())
                && final(self)@ == (AccountV {
                positions: old(self)@.positions.push(init_sp_v(symbol@)),
                ..old(self)@
            }),
            acct_wf(old(self)@) ==> acct_wf(final(self)@),
    {
        proof {
            lemma_sym_idx(self@.positions, symbol@);
        }
        if self.find_symbol(symbol).is_some() {
            return Err(EngineError::DuplicateSymbol);
        }
        let sp = SymbolPosition {
            symbol: Symbol {
                symbol: symbol.to_owned(),
                enable: true,
                rule: default_rule(),
                market: SymbolMarket {
                    mark: Decimal::zero(),
                    index: Decimal::zero(),
                    last: Decimal::zero(),
                    settlement: Decimal::zero(),
                    settlement_time: 0,
                    time: 0,
                },
            },
            leverage: 1,
            long: Position { side: TradeSide::Long, price: Decimal::zero(), size: Decimal::zero() },
            short: Position {
                side: TradeSide::Short,
                price: Decimal::zero(),
                size: Decimal::zero(),
            },
            orders: Vec::new(),
        };
        proof {
            assert(sp@ =~= init_sp_v(symbol@));
        }
        self.positions.push(sp);
        proof {
            assert(self@.positions =~= old(self)@.positions.push(init_sp_v(symbol@)));
            assert(final(self)@ =~= (AccountV {
                positions: old(self)@.positions.push(init_sp_v(symbol@)),
                ..old(self)@
            }));
            if acct_wf(old(self)@) {
                let ps = self@.positions;
                let n = ps.len() - 1;
                assert(frozen_total(init_sp_v(symbol@).orders, TradeSide::Long) == 0);
                assert(frozen_total(init_sp_v(symbol@).orders, TradeSide::Short) == 0);
                assert(sp_wf(ps[n]));
                assert(forall|i: int| 0 <= i < n ==> ps[i] == #[trigger] old(self)@.positions[i]);
                assert(forall|i: int|
                    0 <= i < n ==> (#[trigger] ps[i]).symbol.symbol != symbol@);
            }
        }
        Ok(())
    }

    /// Set the leverage of a symbol.
    ///
    /// Fails with `InvalidLeverage` below 1 and `UnknownSymbol` for an
    /// uninitialized symbol; no margin is re-checked.
    pub fn leverage_set(&mut self, symbol: &str, leverage: u32) -> (r: Result<(), EngineError>)
        ensures
            leverage < 1 ==> r == Err::<(), EngineError>(EngineError::InvalidLeverage) && final(self)@
                == old(self)@,
            leverage >= 1 && sym_idx(old(self)@.positions, symbol@) == -1 ==> r == Err::<
                (),
                EngineError,
            >(EngineError::UnknownSymbol) && final(self)@ == old(self)@,
            leverage >= 1 && sym_idx(old(self)@.positions, symbol@) != -1 ==> r == Ok::<
                (),
                EngineError,
            >(()) && final(self)@ == (AccountV {
                positions: old(self)@.positions.update(
                    sym_idx(old(self)@.positions, symbol@),
                    SymbolPositionV {
                        leverage: leverage as int,
                        ..old(self)@.positions[sym_idx(old(self)@.positions, symbol@)]
                    },
                ),
                ..old(self)@
            }),
            acct_wf(old(self)@) ==> acct_wf(final(self)@),
    {
        if leverage < 1 {
            return Err(EngineError::InvalidLeverage);
        }
        let i = match self.find_symbol(symbol) {
            Some(i) => i,
            None => {
                return Err(EngineError::UnknownSymbol);
            },
        };
        let sp = &self.positions[i];
        let updated = SymbolPosition {
            symbol: sp.symbol.clone(),
            leverage,
            long: sp.long,
            short: sp.short,
            orders: clone_orders(&sp.orders),
        };
        self.positions.set(i, updated);
        proof {
            assert(self@.positions =~= old(self)@.positions.update(
                i as int,
                SymbolPositionV {
                    leverage: leverage as int,
                    ..old(self)@.positions[i as int]
                },
            ));
        }
        Ok(())
    }

    /// Remove the order `id` of `symbol` from the book, if it is there.
    ///
    /// Fails with `UnknownSymbol` for an uninitialized symbol; an absent
    /// id is silently ignored.
    pub fn order_close(&mut self, symbol: &str, id: &str) -> (r: Result<(), EngineError>)
        ensures
            sym_idx(old(self)@.positions, symbol@) == -1 ==> r == Err::<(), EngineError>(
                EngineError::UnknownSymbol,
            ) && final(self)@ == old(self)@,
            sym_idx(old(self)@.positions, symbol@) != -1 ==> r == Ok::<(), EngineError>(())
                && final(self)@ == remove_order_v(old(self)@, sym_idx(old(self)@.positions, symbol@), id@),
            acct_wf(old(self)@) ==> acct_wf(final(self)@),
    {
        let i = match self.find_symbol(symbol) {
            Some(i) => i,
            None => {
                return Err(EngineError::UnknownSymbol);
            },
        };
        let ghost sp0 = self@.positions[i as int];
        let ghost j = order_idx(sp0.orders, id@);
        proof {
            lemma_order_idx(sp0.orders, id@);
        }
        let k: usize = match find_order_index(&self.positions[i].orders, id) {
            Some(k) => k,
            None => {
                proof {
                    assert(sp0.orders =~= order_views(self.positions[i as int].orders@));
                    assert(j == -1);
                }
                return Ok(());
            },
        };
        proof {
            assert(sp0.orders =~= order_views(self.positions[i as int].orders@));
            assert(j == k as int);
        }
        let sp = &self.positions[i];
        let updated = SymbolPosition {
            symbol: sp.symbol.clone(),
            leverage: sp.leverage,
            long: sp.long,
            short: sp.short,
            orders: remove_order_at(&sp.orders, k),
        };
        self.positions.set(i, updated);
        proof {
            assert(self@.positions[i as int].orders =~= sp0.orders.remove(j));
            assert(self@.positions =~= old(self)@.positions.update(
                i as int,
                SymbolPositionV { orders: sp0.orders.remove(j), ..sp0 },
            ));
            assert(final(self)@ =~= remove_order_v(old(self)@, i as int, id@));
            if acct_wf(old(self)@) {
                lemma_frozen_total_remove(sp0.orders, j, TradeSide::Long);
                lemma_frozen_total_remove(sp0.orders, j, TradeSide::Short);
                let sp1 = self@.positions[i as int];
                assert(forall|x: int|
                    0 <= x < sp1.orders.len() ==> #[trigger] sp1.orders[x] == if x < j {
                        sp0.orders[x]
                    } else {
                        sp0.orders[x + 1]
                    });
                assert(forall|x: int|
                    0 <= x < sp1.orders.len() ==> frozen_term(#[trigger] sp1.orders[x], TradeSide::Long)
                        >= 0);
                assert(forall|x: int|
                    0 <= x < sp1.orders.len() ==> frozen_term(#[trigger] sp1.orders[x], TradeSide::Short)
                        >= 0);
                assert(frozen_term(sp0.orders[j], TradeSide::Long) >= 0);
                assert(frozen_term(sp0.orders[j], TradeSide::Short) >= 0);
                assert(sp_wf(sp1));
            }
        }
        Ok(())
    }

    /// Remove several orders of one symbol; absent ids are ignored.
    ///
    /// With no ids nothing is checked or changed, as the loop in charge of
    /// them never runs.
    pub fn order_cancel_many(&mut self, symbol: &str, ids: &Vec<String>) -> (r: Result<
        (),
        EngineError,
    >)
        ensures
            ids@.len() == 0 ==> r == Ok::<(), EngineError>(()) && final(self)@ == old(self)@,
            ids@.len() > 0 && sym_idx(old(self)@.positions, symbol@) == -1 ==> r == Err::<
                (),
                EngineError,
            >(EngineError::UnknownSymbol) && final(self)@ == old(self)@,
            ids@.len() > 0 && sym_idx(old(self)@.positions, symbol@) != -1 ==> r == Ok::<
                (),
                EngineError,
            >(()) && final(self)@ == remove_many_v(old(self)@, symbol@, ids@.map_values(|s: String| s@)),
            acct_wf(old(self)@) ==> acct_wf(final(self)@),
    {
        let ghost idseqs = ids@.map_values(|s: String| s@);
        proof {
            assert(idseqs.skip(0) =~= idseqs);
        }
        let mut i: usize = 0;
        while i < ids.len()
            invariant
                i <= ids.len(),
                ids@.len() == idseqs.len(),
                idseqs == ids@.map_values(|s: String| s@),
                acct_wf(old(self)@) ==> acct_wf(self@),
                i > 0 ==> sym_idx(old(self)@.positions, symbol@) != -1,
                i == 0 ==> self@ == old(self)@,
                sym_idx(self@.positions, symbol@) == sym_idx(old(self)@.positions, symbol@),
                remove_many_v(old(self)@, symbol@, idseqs) == remove_many_v(
                    self@,
                    symbol@,
                    idseqs.skip(i as int),
                ),
            decreases ids.len() - i,
        {
            let ghost pre = self@;
            match self.order_close(symbol, ids[i].as_str()) {
                Ok(_) => {
                },
                Err(e) => {
                    return Err(e);
                },
            }
            proof {
                assert(idseqs[i as int] == ids@[i as int]@);
                assert(idseqs.skip(i as int).first() == idseqs[i as int]);
                assert(idseqs.skip(i as int).drop_first() =~= idseqs.skip(i as int + 1));
                let si = sym_idx(pre.positions, symbol@);
                lemma_sym_idx(pre.positions, symbol@);
                assert(self@ == remove_order_v(pre, si, idseqs[i as int]));
                lemma_sym_idx_stable(pre.positions, self@.positions, symbol@);
            }
            i = i + 1;
        }
        proof {
            if ids@.len() > 0 {
                assert(idseqs.skip(idseqs.len() as int) =~= Seq::<Seq<char>>::empty());
            }
        }
        Ok(())
    }

    /// Validate and book one order.
    ///
    /// Runs the fixed validation pipeline of [`submit_check_v`]; on success
    /// books the order with a fresh 32-character identifier and `Created`
    /// status. Nothing is written unless every check passes.
    pub fn submit_order(
        &mut self,
        symbol: &str,
        type_: TradeType,
        side: TradeSide,
        reduce_only: bool,
        size: Decimal,
        price: Decimal,
        now: i64,
    ) -> (r: Result<String, EngineError>)
        requires
            acct_wf(old(self)@),
        ensures
            sym_idx(old(self)@.positions, symbol@) == -1 ==> r == Err::<String, EngineError>(
                EngineError::UnknownSymbol,
            ) && final(self)@ == old(self)@,
            sym_idx(old(self)@.positions, symbol@) != -1 ==> (match submit_check_v(
                old(self)@,
                sym_idx(old(self)@.positions, symbol@),
                type_,
                side,
                reduce_only,
                size@,
                price@,
            ) {
                Err(e) => r == Err::<String, EngineError>(e) && final(self)@ == old(self)@,
                Ok(qp) => r matches Ok(id) && id@.len() == 32 && final(self)@ == submit_effect_v(
                    old(self)@,
                    sym_idx(old(self)@.positions, symbol@),
                    new_order_v(
                        old(self)@.positions[sym_idx(old(self)@.positions, symbol@)],
                        type_,
                        side,
                        reduce_only,
                        qp.0,
                        qp.1,
                        id@,
                        now as int,
                    ),
                ),
            }),
            acct_wf(final(self)@),
    {
        let i = match self.find_symbol(symbol) {
            Some(i) => i,
            None => {
                return Err(EngineError::UnknownSymbol);
            },
        };
        let ghost a0 = self@;
        let ghost sp0 = self@.positions[i as int];
        let rule = self.positions[i].symbol.rule;
        proof {
            use_type_invariant(size);
            use_type_invariant(price);
            assert(sp_wf(sp0));
        }
        let size_q = match size.quantize(&rule.size_tick) {
            Some(s) => s,
            None => {
                return Err(EngineError::Overflow);
            },
        };
        if size_q.lt(&rule.size_min) {
            return Err(EngineError::SizeBelowMin);
        }
        if !reduce_only && size_q.gt(&rule.size_max) {
            return Err(EngineError::SizeAboveMax);
        }
        let is_limit = matches!(type_, TradeType::Limit);
        let price_q = if is_limit {
            let p = match price.quantize(&rule.price_tick) {
                Some(p) => p,
                None => {
                    return Err(EngineError::Overflow);
                },
            };
            if p.lt(&rule.price_min) {
                return Err(EngineError::PriceBelowMin);
            }
            if p.gt(&rule.price_max) {
                return Err(EngineError::PriceAboveMax);
            }
            p
        } else {
            Decimal::zero()
        };
        if !reduce_only {
            let ref_price = if is_limit {
                price_q
            } else {
                self.positions[i].symbol.market.mark
            };
            let amount = match size_q.checked_mul(&ref_price) {
                Some(a) => a,
                None => {
                    return Err(EngineError::Overflow);
                },
            };
            if amount.lt(&rule.amount_min) {
                return Err(EngineError::AmountBelowMin);
            }
            let lev = self.positions[i].leverage;
            let margin = match amount.checked_div(&Decimal::from_int(lev as i64)) {
                Some(m) => m,
                None => {
                    return Err(EngineError::Overflow);
                },
            };
            let avail = match self.cash_available() {
                Some(c) => c,
                None => {
                    return Err(EngineError::Overflow);
                },
            };
            if avail.lt(&margin) {
                return Err(EngineError::InsufficientCash);
            }
        } else {
            let avail_opt = if matches!(side, TradeSide::Long) {
                self.positions[i].long_size_available()
            } else {
                self.positions[i].short_size_available()
            };
            let avail = match avail_opt {
                Some(a) => a,
                None => {
                    return Err(EngineError::Overflow);
                },
            };
            if avail.lt(&size_q) {
                return Err(EngineError::InsufficientPosition);
            }
        }
        let id = crate::ids::gen_id();
        let sp = &self.positions[i];
        let o = Order {
            id: id.clone(),
            symbol: sp.symbol.symbol.clone(),
            type_,
            side,
            reduce_only,
            status: OrderStatus::Created,
            price: price_q,
            size: size_q,
            deal_price: Decimal::zero(),
            deal_size: Decimal::zero(),
            deal_fee: Decimal::zero(),
            create_time: now,
        };
        proof {
            assert(o@ =~= new_order_v(
                sp0,
                type_,
                side,
                reduce_only,
                size_q@,
                price_q@,
                id@,
                now as int,
            ));
        }
        let mut new_orders = clone_orders(&sp.orders);
        new_orders.push(o);
        let updated = SymbolPosition {
            symbol: sp.symbol.clone(),
            leverage: sp.leverage,
            long: sp.long,
            short: sp.short,
            orders: new_orders,
        };
        self.positions.set(i, updated);
        proof {
            let ov = new_order_v(sp0, type_, side, reduce_only, size_q@, price_q@, id@, now as int);
            assert(self@.positions[i as int].orders =~= sp0.orders.push(ov));
            assert(final(self)@ =~= submit_effect_v(a0, i as int, ov));
            lemma_quant_props(size@, sp0.symbol.rule.size_tick);
            if is_limit {
                lemma_quant_props(price@, sp0.symbol.rule.price_tick);
            }
            use_type_invariant(size_q);
            use_type_invariant(price_q);
            lemma_frozen_total_push(sp0.orders, ov, TradeSide::Long);
            lemma_frozen_total_push(sp0.orders, ov, TradeSide::Short);
            if reduce_only {
                let fside = side;
                assert(forall|k: int|
                    0 <= k < sp0.orders.len() ==> 0 <= frozen_term(#[trigger] sp0.orders[k], fside)
                        <= MAX_RAW);
                lemma_frozen_total_nonneg(sp0.orders, fside);
                lemma_frozen_bridge(sp0.orders, fside);
            }
            assert(order_wf(ov, sp0.symbol));
            assert(sp_wf(self@.positions[i as int]));
            assert(acct_wf(final(self)@));
        }
        Ok(id)
    }

    /// Run the matcher for one symbol against its current `last` price.
    ///
    /// Orders that cross are removed and applied to positions and cash;
    /// the rest advance from `Created` to `Submitted`. Returns the fill
    /// events in book order; on arithmetic overflow nothing changes.
    #[verifier::loop_isolation(false)]
    #[verifier::rlimit(100)]
    pub fn cross_order(
        &mut self,
        symbol: &str,
        fee_rate_taker: Decimal,
        fee_rate_maker: Decimal,
    ) -> (r: Result<Vec<Order>, EngineError>)
        requires
            acct_wf(old(self)@),
        ensures
            sym_idx(old(self)@.positions, symbol@) == -1 ==> r == Err::<Vec<Order>, EngineError>(
                EngineError::UnknownSymbol,
            ) && final(self)@ == old(self)@,
            sym_idx(old(self)@.positions, symbol@) != -1 ==> (match cross_outcome_v(
                old(self)@,
                sym_idx(old(self)@.positions, symbol@),
                fee_rate_taker@,
                fee_rate_maker@,
            ) {
                None => r == Err::<Vec<Order>, EngineError>(EngineError::Overflow) && final(self)@
                    == old(self)@,
                Some(oc) => r matches Ok(evs) && order_views(evs@) == oc.1 && final(self)@
                    == oc.0,
            }),
            acct_wf(final(self)@),
    {
        let i = match self.find_symbol(symbol) {
            Some(i) => i,
            None => {
                return Err(EngineError::UnknownSymbol);
            },
        };
        let ghost a0 = self@;
        let ghost sp0 = self@.positions[i as int];
        let last = self.positions[i].symbol.market.last;
        let sp = &self.positions[i];
        let mut kept: Vec<Order> = Vec::new();
        let mut fills: Vec<Order> = Vec::new();
        let mut k: usize = 0;
        proof {
            assert(sp0.orders =~= order_views(sp.orders@));
            assert(sp0.orders.take(0) =~= Seq::<OrderV>::empty());
            assert(order_views(kept@) =~= Seq::<OrderV>::empty());
            assert(order_views(fills@) =~= Seq::<OrderV>::empty());
        }
        while k < sp.orders.len()
            invariant
                k <= sp.orders@.len(),
                sp0.orders == order_views(sp.orders@),
                sp0.orders.len() == sp.orders@.len(),
                last@ == sp0.symbol.market.last,
                order_views(kept@) =~= cross_kept(sp0.orders.take(k as int), last@),
                order_views(fills@) =~= cross_fills(sp0.orders.take(k as int), last@),
            decreases sp.orders@.len() - k,
        {
            let o = &sp.orders[k];
            let crossing: bool = match o.type_ {
                TradeType::Market => true,
                TradeType::Limit => {
                    if matches!(o.side, TradeSide::Long) {
                        if o.reduce_only {
                            o.price.le(&last)
                        } else {
                            o.price.ge(&last)
                        }
                    } else {
                        if o.reduce_only {
                            o.price.ge(&last)
                        } else {
                            o.price.le(&last)
                        }
                    }
                },
            };
            proof {
                assert(sp0.orders.take(k as int + 1).drop_last() =~= sp0.orders.take(k as int));
                assert(sp0.orders.take(k as int + 1).last() == sp0.orders[k as int]);
                assert(o@ == sp0.orders[k as int]);
                assert(crossing == order_crosses(sp0.orders[k as int], last@));
            }
            if crossing {
                fills.push(o.clone());
                proof {
                    assert(order_views(fills@) =~= cross_fills(
                        sp0.orders.take(k as int + 1),
                        last@,
                    ));
                }
            } else {
                let mut c = o.clone();
                if matches!(c.status, OrderStatus::Created) {
                    c.status = OrderStatus::Submitted;
                }
                proof {
                    assert(c@ == advance_v(sp0.orders[k as int]));
                }
                kept.push(c);
                proof {
                    assert(order_views(kept@) =~= cross_kept(
                        sp0.orders.take(k as int + 1),
                        last@,
                    ));
                }
            }
            k = k + 1;
        }
        proof {
            assert(sp0.orders.take(sp0.orders.len() as int) =~= sp0.orders);
        }
        let ghost fvs = cross_fills(sp0.orders, last@);
        let ghost st0 = FillStateV {
            long: sp0.long,
            short: sp0.short,
            fee: 0,
            profit: 0,
            events: Seq::empty(),
        };
        let mut long: Position = sp.long;
        let mut short: Position = sp.short;
        let mut fee = Decimal::zero();
        let mut profit = Decimal::zero();
        let mut events: Vec<Order> = Vec::new();
        let mut j: usize = 0;
        proof {
            assert(order_views(events@) =~= Seq::<OrderV>::empty());
            assert(fvs.take(0) =~= Seq::<OrderV>::empty());
            assert((FillStateV {
                long: long@,
                short: short@,
                fee: fee@,
                profit: profit@,
                events: order_views(events@),
            }) =~= st0);
        }
        while j < fills.len()
            invariant
                j <= fills@.len(),
                fvs == order_views(fills@),
                fvs.len() == fills@.len(),
                apply_fills_v(fvs.take(j as int), st0, last@, fee_rate_taker@, fee_rate_maker@)
                    == Some(FillStateV {
                    long: long@,
                    short: short@,
                    fee: fee@,
                    profit: profit@,
                    events: order_views(events@),
                }),
            decreases fills@.len() - j,
        {
            let ghost stj = FillStateV {
                long: long@,
                short: short@,
                fee: fee@,
                profit: profit@,
                events: order_views(events@),
            };
            proof {
                lemma_apply_fills_step(fvs, j as int, st0, last@, fee_rate_taker@, fee_rate_maker@);
            }
            let o = &fills[j];
            proof {
                assert(o@ == fvs[j as int]);
            }
            let rate = if matches!(o.status, OrderStatus::Created) {
                fee_rate_taker
            } else {
                fee_rate_maker
            };
            let fee_o = match o.size.checked_mul(&last) {
                Some(x) => match x.checked_mul(&rate) {
                    Some(f) => f,
                    None => {
                        proof {
                            lemma_apply_fills_none(
                                fvs,
                                j as int + 1,
                                st0,
                                last@,
                                fee_rate_taker@,
                                fee_rate_maker@,
                            );
                        }
                        return Err(EngineError::Overflow);
                    },
                },
                None => {
                    proof {
                        lemma_apply_fills_none(
                            fvs,
                            j as int + 1,
                            st0,
                            last@,
                            fee_rate_taker@,
                            fee_rate_maker@,
                        );
                    }
                    return Err(EngineError::Overflow);
                },
            };
            let fee1 = match fee.checked_add(&fee_o) {
                Some(f) => f,
                None => {
                    proof {
                        lemma_apply_fills_none(
                            fvs,
                            j as int + 1,
                            st0,
                            last@,
                            fee_rate_taker@,
                            fee_rate_maker@,
                        );
                    }
                    return Err(EngineError::Overflow);
                },
            };
            let is_long = matches!(o.side, TradeSide::Long);
            let pos: Position = if is_long {
                long
            } else {
                short
            };
            let npos_opt: Option<Position> = if o.reduce_only {
                let diff_opt = if is_long {
                    last.checked_sub(&pos.price)
                } else {
                    pos.price.checked_sub(&last)
                };
                match diff_opt {
                    None => None,
                    Some(diff) => match diff.checked_mul(&o.size) {
                        None => None,
                        Some(gain) => match profit.checked_add(&gain) {
                            None => None,
                            Some(profit1) => match pos.size.checked_sub(&o.size) {
                                None => None,
                                Some(nsize) => {
                                    profit = profit1;
                                    Some(
                                        Position {
                                            side: pos.side,
                                            price: if nsize.is_zero() {
                                                Decimal::zero()
                                            } else {
                                                pos.price
                                            },
                                            size: nsize,
                                        },
                                    )
                                },
                            },
                        },
                    },
                }
            } else {
                let eff = if matches!(o.type_, TradeType::Limit) {
                    o.price
                } else {
                    last
                };
                match eff.checked_mul(&o.size) {
                    None => None,
                    Some(m1) => match pos.price.checked_mul(&pos.size) {
                        None => None,
                        Some(m2) => match m1.checked_add(&m2) {
                            None => None,
                            Some(num) => match o.size.checked_add(&pos.size) {
                                None => None,
                                Some(den) => match num.checked_div(&den) {
                                    None => None,
                                    Some(nprice) => Some(
                                        Position { side: pos.side, price: nprice, size: den },
                                    ),
                                },
                            },
                        },
                    },
                }
            };
            let npos = match npos_opt {
                Some(p) => p,
                None => {
                    proof {
                        lemma_apply_fills_none(
                            fvs,
                            j as int + 1,
                            st0,
                            last@,
                            fee_rate_taker@,
                            fee_rate_maker@,
                        );
                    }
                    return Err(EngineError::Overflow);
                },
            };
            if is_long {
                long = npos;
            } else {
                short = npos;
            }
            fee = fee1;
            let mut ev = o.clone();
            ev.status = OrderStatus::Filled;
            ev.deal_price = last;
            ev.deal_size = ev.size;
            ev.deal_fee = fee_o;
            proof {
                assert(ev@ =~= fill_event_v(fvs[j as int], last@, fee_o@));
            }
            events.push(ev);
            j = j + 1;
            proof {
                assert(fill_step_v(stj, fvs[j as int - 1], last@, fee_rate_taker@, fee_rate_maker@)
                    matches Some(st2) && st2 =~= (FillStateV {
                    long: long@,
                    short: short@,
                    fee: fee@,
                    profit: profit@,
                    events: order_views(events@),
                }));
            }
        }
        proof {
            assert(fvs.take(fvs.len() as int) =~= fvs);
        }
        let ncash = match self.cash.checked_sub(&fee) {
            Some(c1) => match c1.checked_add(&profit) {
                Some(c2) => c2,
                None => {
                    return Err(EngineError::Overflow);
                },
            },
            None => {
                return Err(EngineError::Overflow);
            },
        };
        let spref = &self.positions[i];
        let updated = SymbolPosition {
            symbol: spref.symbol.clone(),
            leverage: spref.leverage,
            long,
            short,
            orders: kept,
        };
        self.positions.set(i, updated);
        self.cash = ncash;
        proof {
            let st_final = FillStateV {
                long: long@,
                short: short@,
                fee: fee@,
                profit: profit@,
                events: order_views(events@),
            };
            assert(apply_fills_v(fvs, st0, last@, fee_rate_taker@, fee_rate_maker@) == Some(
                st_final,
            ));
            assert(self@.positions[i as int].orders =~= cross_kept(sp0.orders, last@));
            let oc = cross_outcome_v(a0, i as int, fee_rate_taker@, fee_rate_maker@);
            assert(oc matches Some(p) && final(self)@ =~= p.0 && order_views(events@) == p.1);
            lemma_cross_partition(sp0.orders, last@, TradeSide::Long);
            lemma_cross_partition(sp0.orders, last@, TradeSide::Short);
            lemma_cross_kept_wf(sp0.orders, last@, sp0.symbol);
            lemma_cross_fills_wf(sp0.orders, last@, sp0.symbol);
            assert(forall|x: int|
                0 <= x < fvs.len() ==> 1 <= (#[trigger] fvs[x]).size && d_fits(fvs[x].size)
                    && fvs[x].deal_size == 0);
            let kvs = cross_kept(sp0.orders, last@);
            assert(forall|x: int|
                0 <= x < fvs.len() ==> frozen_term(#[trigger] fvs[x], TradeSide::Long) >= 0
                    && frozen_term(#[trigger] fvs[x], TradeSide::Short) >= 0);
            assert(forall|x: int|
                0 <= x < kvs.len() ==> frozen_term(#[trigger] kvs[x], TradeSide::Long) >= 0
                    && frozen_term(#[trigger] kvs[x], TradeSide::Short) >= 0);
            lemma_frozen_total_nonneg(kvs, TradeSide::Long);
            lemma_frozen_total_nonneg(kvs, TradeSide::Short);
            lemma_apply_fills_wf(
                fvs,
                st0,
                last@,
                fee_rate_taker@,
                fee_rate_maker@,
                sp0.symbol.rule,
            );
            assert(sp_wf(self@.positions[i as int]));
            assert(acct_wf(final(self)@));
        }
        Ok(events)
    }
}

/// Does an order match a side / open-close filter?
pub open spec fn order_matches(o: OrderV, side: Option<TradeSide>, reduce: Option<bool>) -> bool {
    &&& (side matches Some(s) ==> o.side == s)
    &&& (reduce matches Some(b) ==> o.reduce_only == b)
}

/// The orders passing a side / open-close filter, in book order.
pub open spec fn filter_orders(
    orders: Seq<OrderV>,
    side: Option<TradeSide>,
    reduce: Option<bool>,
) -> Seq<OrderV>
    decreases orders.len(),
{
    if orders.len() == 0 {
        Seq::empty()
    } else {
        let r = filter_orders(orders.drop_last(), side, reduce);
        if order_matches(orders.last(), side, reduce) {
            r.push(orders.last())
        } else {
            r
        }
    }
}

/// Copy the orders passing a side / open-close filter.
#[verifier::loop_isolation(false)]
pub fn filter_orders_exec(
    orders: &Vec<Order>,
    side: Option<TradeSide>,
    reduce: Option<bool>,
) -> (r: Vec<Order>)
    ensures
        order_views(r@) == filter_orders(order_views(orders@), side, reduce),
{
    let ghost ovs = order_views(orders@);
    let mut out: Vec<Order> = Vec::new();
    let mut i: usize = 0;
    proof {
        assert(ovs.take(0) =~= Seq::<OrderV>::empty());
        assert(order_views(out@) =~= Seq::<OrderV>::empty());
    }
    while i < orders.len()
        invariant
            i <= orders@.len(),
            order_views(out@) == filter_orders(ovs.take(i as int), side, reduce),
        decreases orders@.len() - i,
    {
        let o = &orders[i];
        let matches_side = match side {
            Some(s) => o.side == s,
            None => true,
        };
        let matches_reduce = match reduce {
            Some(b) => o.reduce_only == b,
            None => true,
        };
        proof {
            assert(ovs.take(i as int + 1).drop_last() =~= ovs.take(i as int));
            assert(ovs.take(i as int + 1).last() == ovs[i as int]);
        }
        if matches_side && matches_reduce {
            let ghost pre = out@;
            out.push(o.clone());
            proof {
                assert(order_views(out@) =~= order_views(pre).push(ovs[i as int]));
            }
        }
        i = i + 1;
    }
    proof {
        assert(ovs.take(orders@.len() as int) =~= ovs);
    }
    out
}

/// The account with one market field set on the symbol at `i`.
pub open spec fn set_market_v(a: AccountV, i: int, m: MarketV) -> AccountV {
    AccountV {
        positions: a.positions.update(
            i,
            SymbolPositionV {
                symbol: SymbolV { market: m, ..a.positions[i].symbol },
                ..a.positions[i]
            },
        ),
        ..a
    }
}

impl Account {
    /// Write the settlement rate and next settlement time of a symbol.
    pub fn set_settlement(&mut self, symbol: &str, rate: Decimal, time: i64) -> (r: Result<
        (),
        EngineError,
    >)
        ensures
            sym_idx(old(self)@.positions, symbol@) == -1 ==> r == Err::<(), EngineError>(
                EngineError::UnknownSymbol,
            ) && final(self)@ == old(self)@,
            sym_idx(old(self)@.positions, symbol@) != -1 ==> r == Ok::<(), EngineError>(())
                && final(self)@ == set_market_v(
                old(self)@,
                sym_idx(old(self)@.positions, symbol@),
                MarketV {
                    settlement: rate@,
                    settlement_time: time as int,
                    ..old(self)@.positions[sym_idx(old(self)@.positions, symbol@)].symbol.market
                },
            ),
            acct_wf(old(self)@) ==> acct_wf(final(self)@),
    {
        let i = match self.find_symbol(symbol) {
            Some(i) => i,
            None => {
                return Err(EngineError::UnknownSymbol);
            },
        };
        let sp = &self.positions[i];
        let mut market = sp.symbol.market;
        market.settlement = rate;
        market.settlement_time = time;
        let updated = SymbolPosition {
            symbol: Symbol {
                symbol: sp.symbol.symbol.clone(),
                enable: sp.symbol.enable,
                rule: sp.symbol.rule,
                market,
            },
            leverage: sp.leverage,
            long: sp.long,
            short: sp.short,
            orders: clone_orders(&sp.orders),
        };
        self.positions.set(i, updated);
        proof {
            assert(final(self)@ =~= set_market_v(
                old(self)@,
                i as int,
                MarketV {
                    settlement: rate@,
                    settlement_time: time as int,
                    ..old(self)@.positions[i as int].symbol.market
                },
            ));
            lemma_wf_market_update(old(self)@, self@, i as int);
        }
        Ok(())
    }

    /// Write one of the three price fields of a symbol's market.
    pub fn set_price(&mut self, symbol: &str, which: PriceField, px: Decimal) -> (r: Result<
        (),
        EngineError,
    >)
        ensures
            sym_idx(old(self)@.positions, symbol@) == -1 ==> r == Err::<(), EngineError>(
                EngineError::UnknownSymbol,
            ) && final(self)@ == old(self)@,
            sym_idx(old(self)@.positions, symbol@) != -1 ==> r == Ok::<(), EngineError>(())
                && final(self)@ == set_market_v(
                old(self)@,
                sym_idx(old(self)@.positions, symbol@),
                price_field_update(
                    old(self)@.positions[sym_idx(old(self)@.positions, symbol@)].symbol.market,
                    which,
                    px@,
                ),
            ),
            acct_wf(old(self)@) ==> acct_wf(final(self)@),
    {
        let i = match self.find_symbol(symbol) {
            Some(i) => i,
            None => {
                return Err(EngineError::UnknownSymbol);
            },
        };
        let sp = &self.positions[i];
        let mut market = sp.symbol.market;
        match which {
            PriceField::Mark => {
                market.mark = px;
            },
            PriceField::Index => {
                market.index = px;
            },
            PriceField::Last => {
                market.last = px;
            },
        }
        let updated = SymbolPosition {
            symbol: Symbol {
                symbol: sp.symbol.symbol.clone(),
                enable: sp.symbol.enable,
                rule: sp.symbol.rule,
                market,
            },
            leverage: sp.leverage,
            long: sp.long,
            short: sp.short,
            orders: clone_orders(&sp.orders),
        };
        self.positions.set(i, updated);
        proof {
            assert(final(self)@ =~= set_market_v(
                old(self)@,
                i as int,
                price_field_update(old(self)@.positions[i as int].symbol.market, which, px@),
            ));
            lemma_wf_market_update(old(self)@, self@, i as int);
        }
        Ok(())
    }
}

/// Which price of a market snapshot to write.
#[derive(Clone, Copy, PartialEq, Eq, Structural, Debug)]
pub enum PriceField {
    Mark,
    Index,
    Last,
}

/// A market snapshot with one price field replaced.
pub open spec fn price_field_update(m: MarketV, which: PriceField, px: int) -> MarketV {
    match which {
        PriceField::Mark => MarketV { mark: px, ..m },
        PriceField::Index => MarketV { index: px, ..m },
        PriceField::Last => MarketV { last: px, ..m },
    }
}

/// Market writes do not touch anything the store invariant speaks of.
proof fn lemma_wf_market_update(a0: AccountV, a1: AccountV, i: int)
    requires
        0 <= i < a0.positions.len(),
        a1.positions.len() == a0.positions.len(),
        a1.cash == a0.cash,
        forall|k: int| 0 <= k < a0.positions.len() && k != i ==> a1.positions[k] == a0.positions[k],
        a1.positions[i] == (SymbolPositionV {
            symbol: SymbolV {
                market: a1.positions[i].symbol.market,
                ..a0.positions[i].symbol
            },
            ..a0.positions[i]
        }),
    ensures
        acct_wf(a0) ==> acct_wf(a1),
{
    if acct_wf(a0) {
        assert forall|k: int| 0 <= k < a1.positions.len() implies sp_wf(
            #[trigger] a1.positions[k],
        ) by {
            assert(sp_wf(a0.positions[k]));
            if k == i {
                assert(a1.positions[i].orders == a0.positions[i].orders);
                assert(forall|x: int|
                    0 <= x < a1.positions[i].orders.len() ==> order_wf(
                        #[trigger] a1.positions[i].orders[x],
                        a1.positions[i].symbol,
                    ));
            }
        }
    }
}

/// The account after removing order `id` from the symbol at `i`: unchanged
/// if the id is absent, else with that order taken out.
pub open spec fn remove_order_v(a: AccountV, i: int, id: Seq<char>) -> AccountV {
    let sp = a.positions[i];
    let j = order_idx(sp.orders, id);
    if j == -1 {
        a
    } else {
        AccountV {
            positions: a.positions.update(
                i,
                SymbolPositionV { orders: sp.orders.remove(j), ..sp },
            ),
            ..a
        }
    }
}

/// The account after removing each id in turn from `symbol`'s book.
pub open spec fn remove_many_v(a: AccountV, symbol: Seq<char>, ids: Seq<Seq<char>>) -> AccountV
    decreases ids.len(),
{
    if ids.len() == 0 {
        a
    } else {
        let i = sym_idx(a.positions, symbol);
        let a1 = if i == -1 {
            a
        } else {
            remove_order_v(a, i, ids.first())
        };
        remove_many_v(a1, symbol, ids.drop_first())
    }
}

/// The views of a sequence of orders.
pub open spec fn order_views(orders: Seq<Order>) -> Seq<OrderV> {
    Seq::new(orders.len(), |i: int| orders[i]@)
}

// ---------------------------------------------------------------------------
// Submission
// ---------------------------------------------------------------------------
/// Outcome of the validation pipeline for a submission against the symbol
/// at `i`: the quantized size and price, or the error of the first failing
/// check. The checks run in the fixed order size, price, amount and
/// margin (opening) or available position (closing).
pub open spec fn submit_check_v(
    a: AccountV,
    i: int,
    type_: TradeType,
    side: TradeSide,
    reduce_only: bool,
    size_in: int,
    price_in: int,
) -> Result<(int, int), EngineError> {
    let sp = a.positions[i];
    let r = sp.symbol.rule;
    match c_quant(Some(size_in), Some(r.size_tick)) {
        None => Err(EngineError::Overflow),
        Some(size) => {
            if size < r.size_min {
                Err(EngineError::SizeBelowMin)
            } else if !reduce_only && size > r.size_max {
                Err(EngineError::SizeAboveMax)
            } else {
                match (if type_ == TradeType::Limit {
                    c_quant(Some(price_in), Some(r.price_tick))
                } else {
                    Some(0int)
                }) {
                    None => Err(EngineError::Overflow),
                    Some(price) => {
                        if type_ == TradeType::Limit && price < r.price_min {
                            Err(EngineError::PriceBelowMin)
                        } else if type_ == TradeType::Limit && price > r.price_max {
                            Err(EngineError::PriceAboveMax)
                        } else if !reduce_only {
                            let ref_price = if type_ == TradeType::Limit {
                                price
                            } else {
                                sp.symbol.market.mark
                            };
                            match c_mul(Some(size), Some(ref_price)) {
                                None => Err(EngineError::Overflow),
                                Some(amount) => {
                                    if amount < r.amount_min {
                                        Err(EngineError::AmountBelowMin)
                                    } else {
                                        match c_div(Some(amount), Some(lev_raw(sp.leverage))) {
                                            None => Err(EngineError::Overflow),
                                            Some(margin) => {
                                                match acct_cash_available_v(a) {
                                                    None => Err(EngineError::Overflow),
                                                    Some(avail) => {
                                                        if avail < margin {
                                                            Err(EngineError::InsufficientCash)
                                                        } else {
                                                            Ok((size, price))
                                                        }
                                                    },
                                                }
                                            },
                                        }
                                    }
                                },
                            }
                        } else {
                            match sp_size_available_v(sp, side) {
                                None => Err(EngineError::Overflow),
                                Some(avail) => {
                                    if avail < size {
                                        Err(EngineError::InsufficientPosition)
                                    } else {
                                        Ok((size, price))
                                    }
                                },
                            }
                        }
                    },
                }
            }
        },
    }
}

/// The freshly created order a successful submission appends.
pub open spec fn new_order_v(
    sp: SymbolPositionV,
    type_: TradeType,
    side: TradeSide,
    reduce_only: bool,
    size: int,
    price: int,
    id: Seq<char>,
    now: int,
) -> OrderV {
    OrderV {
        id,
        symbol: sp.symbol.symbol,
        type_,
        side,
        reduce_only,
        status: OrderStatus::Created,
        price,
        size,
        deal_price: 0,
        deal_size: 0,
        deal_fee: 0,
        create_time: now,
    }
}

/// The account after appending `o` to the book of the symbol at `i`.
pub open spec fn submit_effect_v(a: AccountV, i: int, o: OrderV) -> AccountV {
    AccountV {
        positions: a.positions.update(
            i,
            SymbolPositionV { orders: a.positions[i].orders.push(o), ..a.positions[i] },
        ),
        ..a
    }
}

// ---------------------------------------------------------------------------
// Matching
// ---------------------------------------------------------------------------
/// Does a live order cross at the reference price `last`? Market orders
/// always do; a resting limit order crosses when `last` has reached its
/// price from the favourable side.
pub open spec fn order_crosses(o: OrderV, last: int) -> bool {
    match o.type_ {
        TradeType::Market => true,
        TradeType::Limit => {
            if o.side == TradeSide::Long {
                if o.reduce_only {
                    o.price <= last
                } else {
                    o.price >= last
                }
            } else {
                if o.reduce_only {
                    o.price >= last
                } else {
                    o.price <= last
                }
            }
        },
    }
}

/// One pass of the matcher over a resting order that did not cross:
/// `Created` becomes `Submitted`, anything else is left alone.
pub open spec fn advance_v(o: OrderV) -> OrderV {
    if o.status == OrderStatus::Created {
        OrderV { status: OrderStatus::Submitted, ..o }
    } else {
        o
    }
}

/// The orders that stay in the book after a matching pass, in order, with
/// their statuses advanced.
pub open spec fn cross_kept(orders: Seq<OrderV>, last: int) -> Seq<OrderV>
    decreases orders.len(),
{
    if orders.len() == 0 {
        Seq::empty()
    } else {
        let r = cross_kept(orders.drop_last(), last);
        if order_crosses(orders.last(), last) {
            r
        } else {
            r.push(advance_v(orders.last()))
        }
    }
}

/// The orders that cross in a matching pass, in book order.
pub open spec fn cross_fills(orders: Seq<OrderV>, last: int) -> Seq<OrderV>
    decreases orders.len(),
{
    if orders.len() == 0 {
        Seq::empty()
    } else {
        let r = cross_fills(orders.drop_last(), last);
        if order_crosses(orders.last(), last) {
            r.push(orders.last())
        } else {
            r
        }
    }
}

/// Running state of the fill loop: both position sides, accumulated fee
/// and realized profit, and the fill events in emission order.
#[verifier::ext_equal]
pub ghost struct FillStateV {
    pub long: PositionV,
    pub short: PositionV,
    pub fee: int,
    pub profit: int,
    pub events: Seq<OrderV>,
}

/// A filled order as reported to the strategy.
pub open spec fn fill_event_v(o: OrderV, last: int, fee_o: int) -> OrderV {
    OrderV {
        status: OrderStatus::Filled,
        deal_price: last,
        deal_size: o.size,
        deal_fee: fee_o,
        ..o
    }
}

/// Apply one fill at price `last`.
///
/// The fee is `size * last * rate`, taker rate for orders never seen
/// resting. A reduce-only fill realizes `(last - entry) * size` (sign by
/// side) and shrinks the position, resetting the entry price at zero size.
/// An opening fill re-averages the entry price, weighting limit orders by
/// their limit price and market orders by `last`, and grows the position.
pub open spec fn fill_step_v(
    st: FillStateV,
    o: OrderV,
    last: int,
    taker: int,
    maker: int,
) -> Option<FillStateV> {
    let rate = if o.status == OrderStatus::Created {
        taker
    } else {
        maker
    };
    match c_mul(c_mul(Some(o.size), Some(last)), Some(rate)) {
        None => None,
        Some(fee_o) => match c_add(Some(st.fee), Some(fee_o)) {
            None => None,
            Some(fee1) => {
                let pos = if o.side == TradeSide::Long {
                    st.long
                } else {
                    st.short
                };
                let events1 = st.events.push(fill_event_v(o, last, fee_o));
                if o.reduce_only {
                    let diff = if o.side == TradeSide::Long {
                        c_sub(Some(last), Some(pos.price))
                    } else {
                        c_sub(Some(pos.price), Some(last))
                    };
                    match c_mul(diff, Some(o.size)) {
                        None => None,
                        Some(gain) => match c_add(Some(st.profit), Some(gain)) {
                            None => None,
                            Some(profit1) => match c_sub(Some(pos.size), Some(o.size)) {
                                None => None,
                                Some(nsize) => {
                                    let npos = PositionV {
                                        side: pos.side,
                                        price: if nsize == 0 {
                                            0
                                        } else {
                                            pos.price
                                        },
                                        size: nsize,
                                    };
                                    Some(
                                        FillStateV {
                                            long: if o.side == TradeSide::Long {
                                                npos
                                            } else {
                                                st.long
                                            },
                                            short: if o.side == TradeSide::Long {
                                                st.short
                                            } else {
                                                npos
                                            },
                                            fee: fee1,
                                            profit: profit1,
                                            events: events1,
                                        },
                                    )
                                },
                            },
                        },
                    }
                } else {
                    let eff = if o.type_ == TradeType::Limit {
                        o.price
                    } else {
                        last
                    };
                    match c_add(
                        c_mul(Some(eff), Some(o.size)),
                        c_mul(Some(pos.price), Some(pos.size)),
                    ) {
                        None => None,
                        Some(num) => match c_add(Some(o.size), Some(pos.size)) {
                            None => None,
                            Some(den) => match c_div(Some(num), Some(den)) {
                                None => None,
                                Some(nprice) => {
                                    let npos = PositionV {
                                        side: pos.side,
                                        price: nprice,
                                        size: den,
                                    };
                                    Some(
                                        FillStateV {
                                            long: if o.side == TradeSide::Long {
                                                npos
                                            } else {
                                                st.long
                                            },
                                            short: if o.side == TradeSide::Long {
                                                st.short
                                            } else {
                                                npos
                                            },
                                            fee: fee1,
                                            profit: st.profit,
                                            events: events1,
                                        },
                                    )
                                },
                            },
                        },
                    }
                }
            },
        },
    }
}

/// Apply a sequence of fills in order.
pub open spec fn apply_fills_v(
    fills: Seq<OrderV>,
    st: FillStateV,
    last: int,
    taker: int,
    maker: int,
) -> Option<FillStateV>
    decreases fills.len(),
{
    if fills.len() == 0 {
        Some(st)
    } else {
        match apply_fills_v(fills.drop_last(), st, last, taker, maker) {
            None => None,
            Some(st1) => fill_step_v(st1, fills.last(), last, taker, maker),
        }
    }
}

/// The full matching pass for the symbol at `i`: split the book, apply the
/// fills, settle fee and profit against cash. `None` on arithmetic
/// overflow, in which case the executable matcher changes nothing.
pub open spec fn cross_outcome_v(a: AccountV, i: int, taker: int, maker: int) -> Option<
    (AccountV, Seq<OrderV>),
> {
    let sp = a.positions[i];
    let last = sp.symbol.market.last;
    let kept = cross_kept(sp.orders, last);
    let fills = cross_fills(sp.orders, last);
    let st0 = FillStateV {
        long: sp.long,
        short: sp.short,
        fee: 0,
        profit: 0,
        events: Seq::empty(),
    };
    match apply_fills_v(fills, st0, last, taker, maker) {
        None => None,
        Some(st) => match c_add(c_sub(Some(a.cash), Some(st.fee)), Some(st.profit)) {
            None => None,
            Some(ncash) => Some(
                (
                    AccountV {
                        cash: ncash,
                        positions: a.positions.update(
                            i,
                            SymbolPositionV { long: st.long, short: st.short, orders: kept, ..sp },
                        ),
                    },
                    st.events,
                ),
            ),
        },
    }
}

/// Extending the fill fold by one element.
pub proof fn lemma_apply_fills_step(
    fills: Seq<OrderV>,
    j: int,
    st: FillStateV,
    last: int,
    taker: int,
    maker: int,
)
    requires
        0 <= j < fills.len(),
    ensures
        apply_fills_v(fills.take(j + 1), st, last, taker, maker) == (match apply_fills_v(
            fills.take(j),
            st,
            last,
            taker,
            maker,
        ) {
            None => None,
            Some(st1) => fill_step_v(st1, fills[j], last, taker, maker),
        }),
{
    assert(fills.take(j + 1).drop_last() =~= fills.take(j));
    assert(fills.take(j + 1).last() == fills[j]);
}

/// Once the fill fold is `None` on a prefix, it stays `None`.
pub proof fn lemma_apply_fills_none(
    fills: Seq<OrderV>,
    j: int,
    st: FillStateV,
    last: int,
    taker: int,
    maker: int,
)
    requires
        0 <= j <= fills.len(),
        apply_fills_v(fills.take(j), st, last, taker, maker) is None,
    ensures
        apply_fills_v(fills, st, last, taker, maker) is None,
    decreases fills.len() - j,
{
    if j == fills.len() {
        assert(fills.take(j) =~= fills);
    } else {
        lemma_apply_fills_step(fills, j, st, last, taker, maker);
        lemma_apply_fills_none(fills, j + 1, st, last, taker, maker);
    }
}

/// A matching pass conserves frozen size: what the book froze is now
/// frozen by the kept orders and the fills together.
pub proof fn lemma_cross_partition(orders: Seq<OrderV>, last: int, side: TradeSide)
    ensures
        frozen_total(orders, side) == frozen_total(cross_kept(orders, last), side)
            + frozen_total(cross_fills(orders, last), side),
    decreases orders.len(),
{
    if orders.len() > 0 {
        lemma_cross_partition(orders.drop_last(), last, side);
        if order_crosses(orders.last(), last) {
            lemma_frozen_total_push(
                cross_fills(orders.drop_last(), last),
                orders.last(),
                side,
            );
        } else {
            lemma_frozen_total_push(
                cross_kept(orders.drop_last(), last),
                advance_v(orders.last()),
                side,
            );
        }
    }
}

/// Kept orders remain well-formed: advancing a status keeps every other
/// clause of `order_wf`.
pub proof fn lemma_cross_kept_wf(orders: Seq<OrderV>, last: int, sym: SymbolV)
    requires
        forall|k: int| 0 <= k < orders.len() ==> order_wf(#[trigger] orders[k], sym),
    ensures
        forall|k: int|
            0 <= k < cross_kept(orders, last).len() ==> order_wf(
                #[trigger] cross_kept(orders, last)[k],
                sym,
            ),
    decreases orders.len(),
{
    if orders.len() > 0 {
        let rest = orders.drop_last();
        assert(forall|k: int| 0 <= k < rest.len() ==> #[trigger] rest[k] == orders[k]);
        lemma_cross_kept_wf(rest, last, sym);
        let kk = cross_kept(orders, last);
        let kr = cross_kept(rest, last);
        assert(order_wf(orders.last(), sym));
        if order_crosses(orders.last(), last) {
            assert(kk == kr);
        } else {
            assert(order_wf(advance_v(orders.last()), sym));
            assert(kk == kr.push(advance_v(orders.last())));
            assert(forall|k: int|
                0 <= k < kk.len() ==> #[trigger] kk[k] == (if k < kr.len() {
                    kr[k]
                } else {
                    advance_v(orders.last())
                }));
        }
    }
}

/// Fills are orders of the book, unchanged.
pub proof fn lemma_cross_fills_wf(orders: Seq<OrderV>, last: int, sym: SymbolV)
    requires
        forall|k: int| 0 <= k < orders.len() ==> order_wf(#[trigger] orders[k], sym),
    ensures
        forall|k: int|
            0 <= k < cross_fills(orders, last).len() ==> order_wf(
                #[trigger] cross_fills(orders, last)[k],
                sym,
            ),
    decreases orders.len(),
{
    if orders.len() > 0 {
        let rest = orders.drop_last();
        assert(forall|k: int| 0 <= k < rest.len() ==> #[trigger] rest[k] == orders[k]);
        lemma_cross_fills_wf(rest, last, sym);
        let ff = cross_fills(orders, last);
        let fr = cross_fills(rest, last);
        assert(order_wf(orders.last(), sym));
        if order_crosses(orders.last(), last) {
            assert(ff == fr.push(orders.last()));
            assert(forall|k: int|
                0 <= k < ff.len() ==> #[trigger] ff[k] == (if k < fr.len() {
                    fr[k]
                } else {
                    orders.last()
                }));
        } else {
            assert(ff == fr);
        }
    }
}

/// Every integer sits on a grid of tick one.
pub proof fn lemma_rem_one(x: int)
    ensures
        d_rem(x, 1) == 0,
{
    crate::decimal::lemma_rem_of_multiple(x, 1);
}

/// Applying fills keeps both position sides well-formed and shrinks each
/// side by exactly the size its reduce-only fills released.
pub proof fn lemma_apply_fills_wf(
    fills: Seq<OrderV>,
    st: FillStateV,
    last: int,
    taker: int,
    maker: int,
    r: RuleV,
)
    requires
        r == default_rule_v(),
        forall|k: int|
            0 <= k < fills.len() ==> 1 <= (#[trigger] fills[k]).size && d_fits(fills[k].size)
                && fills[k].deal_size == 0,
        pos_wf(st.long, r, TradeSide::Long),
        pos_wf(st.short, r, TradeSide::Short),
        frozen_total(fills, TradeSide::Long) <= st.long.size,
        frozen_total(fills, TradeSide::Short) <= st.short.size,
    ensures
        match apply_fills_v(fills, st, last, taker, maker) {
            None => true,
            Some(st1) => pos_wf(st1.long, r, TradeSide::Long) && pos_wf(
                st1.short,
                r,
                TradeSide::Short,
            ) && st1.long.size >= st.long.size - frozen_total(fills, TradeSide::Long)
                && st1.short.size >= st.short.size - frozen_total(fills, TradeSide::Short),
        },
    decreases fills.len(),
{
    if fills.len() > 0 {
        let rest = fills.drop_last();
        let o = fills.last();
        assert(forall|k: int| 0 <= k < rest.len() ==> #[trigger] rest[k] == fills[k]);
        assert(1 <= o.size && d_fits(o.size) && o.deal_size == 0);
        assert(frozen_term(o, TradeSide::Long) >= 0 && frozen_term(o, TradeSide::Short) >= 0);
        assert(frozen_total(fills, TradeSide::Long) == frozen_total(rest, TradeSide::Long)
            + frozen_term(o, TradeSide::Long));
        assert(frozen_total(fills, TradeSide::Short) == frozen_total(rest, TradeSide::Short)
            + frozen_term(o, TradeSide::Short));
        lemma_apply_fills_wf(rest, st, last, taker, maker, r);
        match apply_fills_v(rest, st, last, taker, maker) {
            None => {
            },
            Some(st1) => {
                assert(st1.long.size >= st.long.size - frozen_total(rest, TradeSide::Long));
                assert(st1.short.size >= st.short.size - frozen_total(rest, TradeSide::Short));
                match fill_step_v(st1, o, last, taker, maker) {
                    None => {
                    },
                    Some(st2) => {
                        if o.reduce_only {
                            if o.side == TradeSide::Long {
                                assert(frozen_term(o, TradeSide::Long) == o.size);
                                assert(st2.long.size == st1.long.size - o.size);
                                assert(st2.short == st1.short);
                            } else {
                                assert(frozen_term(o, TradeSide::Short) == o.size);
                                assert(st2.short.size == st1.short.size - o.size);
                                assert(st2.long == st1.long);
                            }
                        } else {
                            assert(frozen_term(o, TradeSide::Long) == 0);
                            assert(frozen_term(o, TradeSide::Short) == 0);
                            if o.side == TradeSide::Long {
                                assert(st2.long.size == st1.long.size + o.size);
                                assert(st2.short == st1.short);
                            } else {
                                assert(st2.short.size == st1.short.size + o.size);
                                assert(st2.long == st1.long);
                            }
                        }
                        lemma_rem_one(st2.long.price);
                        lemma_rem_one(st2.long.size);
                        lemma_rem_one(st2.short.price);
                        lemma_rem_one(st2.short.size);
                        assert(pos_wf(st2.long, r, TradeSide::Long));
                        assert(pos_wf(st2.short, r, TradeSide::Short));
                    },
                }
            },
        }
    }
}

/// For well-formed orders the clipped frozen-size fold equals the exact
/// total.
pub proof fn lemma_frozen_bridge(orders: Seq<OrderV>, side: TradeSide)
    requires
        forall|i: int|
            0 <= i < orders.len() ==> 0 <= frozen_term(#[trigger] orders[i], side) <= MAX_RAW,
        frozen_total(orders, side) <= MAX_RAW,
    ensures
        crate::models::orders_frozen_sum(orders, side) == Some(frozen_total(orders, side)),
    decreases orders.len(),
{
    if orders.len() > 0 {
        let rest = orders.drop_last();
        lemma_frozen_total_nonneg(rest, side);
        lemma_frozen_total_nonneg(orders, side);
        assert(frozen_term(orders.last(), side) >= 0);
        lemma_frozen_bridge(rest, side);
    }
}

/// Index of the first order with identifier `id`, by forward scan.
pub fn find_order_index(orders: &Vec<Order>, id: &str) -> (r: Option<usize>)
    ensures
        match r {
            Some(k) => k < orders@.len() && order_idx(order_views(orders@), id@) == k,
            None => order_idx(order_views(orders@), id@) == -1,
        },
{
    proof {
        lemma_order_idx(order_views(orders@), id@);
    }
    let mut k: usize = 0;
    while k < orders.len()
        invariant
            k <= orders.len(),
            forall|x: int| 0 <= x < k ==> (#[trigger] order_views(orders@)[x]).id != id@,
        decreases orders.len() - k,
    {
        if same_str(&orders[k].id, id) {
            proof {
                lemma_order_idx_scan(order_views(orders@), id@, k as int);
            }
            return Some(k);
        }
        k = k + 1;
    }
    None
}

/// Symbol lookup only reads symbol names, so updates that keep them keep
/// the index.
proof fn lemma_sym_idx_stable(
    ps1: Seq<SymbolPositionV>,
    ps2: Seq<SymbolPositionV>,
    name: Seq<char>,
)
    requires
        ps1.len() == ps2.len(),
        forall|i: int|
            0 <= i < ps1.len() ==> (#[trigger] ps1[i]).symbol.symbol == ps2[i].symbol.symbol,
    ensures
        sym_idx(ps1, name) == sym_idx(ps2, name),
    decreases ps1.len(),
{
    if ps1.len() > 0 {
        assert(forall|i: int|
            0 <= i < ps1.len() - 1 ==> (#[trigger] ps1.drop_first()[i]).symbol.symbol
                == ps2.drop_first()[i].symbol.symbol);
        lemma_sym_idx_stable(ps1.drop_first(), ps2.drop_first(), name);
    }
}

/// A copy of an order list.
pub fn clone_orders(orders: &Vec<Order>) -> (r: Vec<Order>)
    ensures
        r@ =~= orders@,
{
    let mut out: Vec<Order> = Vec::new();
    let mut i: usize = 0;
    while i < orders.len()
        invariant
            i <= orders.len(),
            out@ =~= orders@.take(i as int),
        decreases orders.len() - i,
    {
        out.push(orders[i].clone());
        i = i + 1;
    }
    proof {
        assert(orders@.take(orders@.len() as int) =~= orders@);
    }
    out
}

/// A copy of an order list with the element at `k` removed.
pub fn remove_order_at(orders: &Vec<Order>, k: usize) -> (r: Vec<Order>)
    requires
        k < orders@.len(),
    ensures
        r@ =~= orders@.remove(k as int),
{
    let mut out: Vec<Order> = Vec::new();
    let mut i: usize = 0;
    while i < orders.len()
        invariant
            i <= orders.len(),
            k < orders@.len(),
            out@ =~= if i <= k {
                orders@.take(i as int)
            } else {
                orders@.remove(k as int).take(i as int - 1)
            },
        decreases orders.len() - i,
    {
        if i != k {
            out.push(orders[i].clone());
        }
        i = i + 1;
    }
    proof {
        assert(orders@.remove(k as int).take(orders@.len() - 1) =~= orders@.remove(k as int));
    }
    out
}

/// A first match found by a forward scan agrees with `sym_idx`.
proof fn lemma_sym_idx_scan(ps: Seq<SymbolPositionV>, name: Seq<char>, i: int)
    requires
        0 <= i < ps.len(),
        ps[i].symbol.symbol == name,
        forall|j: int| 0 <= j < i ==> (#[trigger] ps[j]).symbol.symbol != name,
    ensures
        sym_idx(ps, name) == i,
    decreases i,
{
    if i == 0 {
    } else {
        assert(forall|j: int|
            0 <= j < i - 1 ==> ps.drop_first()[j] == #[trigger] ps[j + 1]);
        lemma_sym_idx_scan(ps.drop_first(), name, i - 1);
    }
}

/// A first match found by a forward scan agrees with `order_idx`.
proof fn lemma_order_idx_scan(orders: Seq<OrderV>, id: Seq<char>, i: int)
    requires
        0 <= i < orders.len(),
        orders[i].id == id,
        forall|j: int| 0 <= j < i ==> (#[trigger] orders[j]).id != id,
    ensures
        order_idx(orders, id) == i,
    decreases i,
{
    if i == 0 {
    } else {
        assert(forall|j: int|
            0 <= j < i - 1 ==> orders.drop_first()[j] == #[trigger] orders[j + 1]);
        lemma_order_idx_scan(orders.drop_first(), id, i - 1);
    }
}

} // verus!
