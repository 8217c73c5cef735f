//! Market data model: symbols and their rules, market snapshots, klines,
//! funding rates, orders, positions and the account.
//!
//! Each executable type has a ghost view (`...V`) over `int` raw values and
//! `Seq`; every derived quantity (margins, profit and loss, frozen sizes,
//! available cash) is defined once as a spec function over the views, in
//! the checked-arithmetic monad of [`crate::decimal`], and the executable
//! methods are proved to return exactly those values.

use crate::decimal::{
    c_add, c_div, c_mul, c_sub, opt_raw, Decimal, SCALE_RAW,
};
use crate::enums::{OrderStatus, TradeSide, TradeType};
use vstd::prelude::*;

verus! {

/// Raw value of a leverage counter as a `Decimal`.
pub open spec fn lev_raw(l: int) -> int {
    l * (SCALE_RAW as int)
}

/// One raw unit (`10^-8`) or its negation, the factors profit and loss are
/// scaled by.
pub open spec fn side_unit(side: TradeSide) -> int {
    if side == TradeSide::Long {
        SCALE_RAW as int
    } else {
        -(SCALE_RAW as int)
    }
}

// ---------------------------------------------------------------------------
// Ghost views
// ---------------------------------------------------------------------------
/// View of a [`SymbolRule`].
#[verifier::ext_equal]
pub ghost struct RuleV {
    pub price_min: int,
    pub price_max: int,
    pub price_tick: int,
    pub size_min: int,
    pub size_max: int,
    pub size_tick: int,
    pub amount_min: int,
    pub order_max: int,
}

/// View of a [`SymbolMarket`].
#[verifier::ext_equal]
pub ghost struct MarketV {
    pub mark: int,
    pub index: int,
    pub last: int,
    pub settlement: int,
    pub settlement_time: int,
    pub time: int,
}

/// View of a [`Symbol`].
#[verifier::ext_equal]
pub ghost struct SymbolV {
    pub symbol: Seq<char>,
    pub enable: bool,
    pub rule: RuleV,
    pub market: MarketV,
}

/// View of an [`Order`].
#[verifier::ext_equal]
pub ghost struct OrderV {
    pub id: Seq<char>,
    pub symbol: Seq<char>,
    pub type_: TradeType,
    pub side: TradeSide,
    pub reduce_only: bool,
    pub status: OrderStatus,
    pub price: int,
    pub size: int,
    pub deal_price: int,
    pub deal_size: int,
    pub deal_fee: int,
    pub create_time: int,
}

/// View of a [`Kline`].
#[verifier::ext_equal]
pub ghost struct KlineV {
    pub symbol: Seq<char>,
    pub open_time: int,
    pub open: int,
    pub high: int,
    pub low: int,
    pub close: int,
    pub size: int,
    pub cash: int,
    pub buy_size: int,
    pub buy_cash: int,
    pub trades: int,
}

/// View of a [`FundingRateHistory`].
#[verifier::ext_equal]
pub ghost struct FundingRateHistoryV {
    pub symbol: Seq<char>,
    pub mark_price: int,
    pub rate: int,
    pub time: int,
}

/// View of a [`Position`].
#[verifier::ext_equal]
pub ghost struct PositionV {
    pub side: TradeSide,
    pub price: int,
    pub size: int,
}

/// View of a [`SymbolPosition`].
#[verifier::ext_equal]
pub ghost struct SymbolPositionV {
    pub symbol: SymbolV,
    pub leverage: int,
    pub long: PositionV,
    pub short: PositionV,
    pub orders: Seq<OrderV>,
}

/// View of an [`Account`].
#[verifier::ext_equal]
pub ghost struct AccountV {
    pub cash: int,
    pub positions: Seq<SymbolPositionV>,
}

// ---------------------------------------------------------------------------
// Executable types
// ---------------------------------------------------------------------------
/// A trading pair with its immutable rule and mutable market snapshot.
#[derive(Debug)]
pub struct Symbol {
    pub symbol: String,
    pub enable: bool,
    pub rule: SymbolRule,
    pub market: SymbolMarket,
}

/// Per-symbol validation limits, fixed at initialization.
#[derive(Clone, Copy, Debug)]
pub struct SymbolRule {
    pub price_min: Decimal,
    pub price_max: Decimal,
    pub price_tick: Decimal,
    pub size_min: Decimal,
    pub size_max: Decimal,
    pub size_tick: Decimal,
    pub amount_min: Decimal,
    pub order_max: i64,
}

/// Per-symbol market snapshot; zero prices mean "no data yet". Times are
/// epoch milliseconds.
#[derive(Clone, Copy, Debug)]
pub struct SymbolMarket {
    pub mark: Decimal,
    pub index: Decimal,
    pub last: Decimal,
    pub settlement: Decimal,
    pub settlement_time: i64,
    pub time: i64,
}

/// One bar of a kline series; `open_time` is epoch milliseconds.
#[derive(Debug)]
pub struct Kline {
    pub symbol: String,
    pub open_time: i64,
    pub open: Decimal,
    pub high: Decimal,
    pub low: Decimal,
    pub close: Decimal,
    pub size: Decimal,
    pub cash: Decimal,
    pub buy_size: Decimal,
    pub buy_cash: Decimal,
    pub trades: i64,
}

/// A funding-rate observation; `time` is epoch milliseconds.
#[derive(Debug)]
pub struct FundingRateHistory {
    pub symbol: String,
    pub mark_price: Decimal,
    pub rate: Decimal,
    pub time: i64,
}

/// A live or filled order; `create_time` is epoch milliseconds.
#[derive(Debug)]
pub struct Order {
    pub id: String,
    pub symbol: String,
    pub type_: TradeType,
    pub side: TradeSide,
    pub reduce_only: bool,
    pub status: OrderStatus,
    pub price: Decimal,
    pub size: Decimal,
    pub deal_price: Decimal,
    pub deal_size: Decimal,
    pub deal_fee: Decimal,
    pub create_time: i64,
}

/// One side of a symbol's holdings: weighted-average entry price and size.
#[derive(Clone, Copy, Debug)]
pub struct Position {
    pub side: TradeSide,
    pub price: Decimal,
    pub size: Decimal,
}

/// Everything the engine tracks for one symbol: rule, market, leverage,
/// both position sides, and the live orders in insertion order.
#[derive(Debug)]
pub struct SymbolPosition {
    pub symbol: Symbol,
    pub leverage: u32,
    pub long: Position,
    pub short: Position,
    pub orders: Vec<Order>,
}

/// The account: cash plus one [`SymbolPosition`] per initialized symbol, in
/// initialization order.
#[derive(Debug)]
pub struct Account {
    pub cash: Decimal,
    pub positions: Vec<SymbolPosition>,
}

/// Levels of an order book snapshot.
#[derive(Clone, Debug)]
pub struct Depth {
    pub symbol: String,
    pub buys: Vec<DepthLevel>,
    pub sells: Vec<DepthLevel>,
    pub time: i64,
}

/// One level of an order book snapshot.
#[derive(Clone, Copy, Debug)]
pub struct DepthLevel {
    pub price: Decimal,
    pub size: Decimal,
}

/// A batch of aggregated trades.
#[derive(Clone, Debug)]
pub struct AggTrades {
    pub symbol: String,
    pub trades: Vec<AggTrade>,
}

/// One aggregated trade.
#[derive(Clone, Debug)]
pub struct AggTrade {
    pub id: i64,
    pub price: Decimal,
    pub size: Decimal,
    pub cash: Decimal,
    pub is_buy: bool,
    pub time: i64,
}

// ---------------------------------------------------------------------------
// Views
// ---------------------------------------------------------------------------
impl View for SymbolRule {
    type V = RuleV;

    open spec fn view(&self) -> RuleV {
        RuleV {
            price_min: self.price_min@,
            price_max: self.price_max@,
            price_tick: self.price_tick@,
            size_min: self.size_min@,
            size_max: self.size_max@,
            size_tick: self.size_tick@,
            amount_min: self.amount_min@,
            order_max: self.order_max as int,
        }
    }
}

impl View for SymbolMarket {
    type V = MarketV;

    open spec fn view(&self) -> MarketV {
        MarketV {
            mark: self.mark@,
            index: self.index@,
            last: self.last@,
            settlement: self.settlement@,
            settlement_time: self.settlement_time as int,
            time: self.time as int,
        }
    }
}

impl View for Symbol {
    type V = SymbolV;

    open spec fn view(&self) -> SymbolV {
        SymbolV { symbol: self.symbol@, enable: self.enable, rule: self.rule@, market: self.market@ }
    }
}

impl View for Kline {
    type V = KlineV;

    open spec fn view(&self) -> KlineV {
        KlineV {
            symbol: self.symbol@,
            open_time: self.open_time as int,
            open: self.open@,
            high: self.high@,
            low: self.low@,
            close: self.close@,
            size: self.size@,
            cash: self.cash@,
            buy_size: self.buy_size@,
            buy_cash: self.buy_cash@,
            trades: self.trades as int,
        }
    }
}

impl View for FundingRateHistory {
    type V = FundingRateHistoryV;

    open spec fn view(&self) -> FundingRateHistoryV {
        FundingRateHistoryV {
            symbol: self.symbol@,
            mark_price: self.mark_price@,
            rate: self.rate@,
            time: self.time as int,
        }
    }
}

impl View for Order {
    type V = OrderV;

    open spec fn view(&self) -> OrderV {
        OrderV {
            id: self.id@,
            symbol: self.symbol@,
            type_: self.type_,
            side: self.side,
            reduce_only: self.reduce_only,
            status: self.status,
            price: self.price@,
            size: self.size@,
            deal_price: self.deal_price@,
            deal_size: self.deal_size@,
            deal_fee: self.deal_fee@,
            create_time: self.create_time as int,
        }
    }
}

impl View for Position {
    type V = PositionV;

    open spec fn view(&self) -> PositionV {
        PositionV { side: self.side, price: self.price@, size: self.size@ }
    }
}

impl View for SymbolPosition {
    type V = SymbolPositionV;

    open spec fn view(&self) -> SymbolPositionV {
        SymbolPositionV {
            symbol: self.symbol@,
            leverage: self.leverage as int,
            long: self.long@,
            short: self.short@,
            orders: Seq::new(self.orders@.len(), |i: int| self.orders@[i]@),
        }
    }
}

impl View for Account {
    type V = AccountV;

    open spec fn view(&self) -> AccountV {
        AccountV {
            cash: self.cash@,
            positions: Seq::new(self.positions@.len(), |i: int| self.positions@[i]@),
        }
    }
}

// ---------------------------------------------------------------------------
// Clones for the non-`Copy` data records
// ---------------------------------------------------------------------------
impl Clone for Order {
    fn clone(&self) -> (r: Self)
        ensures
            r == *self,
    {
        Order {
            id: self.id.clone(),
            symbol: self.symbol.clone(),
            type_: self.type_,
            side: self.side,
            reduce_only: self.reduce_only,
            status: self.status,
            price: self.price,
            size: self.size,
            deal_price: self.deal_price,
            deal_size: self.deal_size,
            deal_fee: self.deal_fee,
            create_time: self.create_time,
        }
    }
}

impl Clone for Kline {
    fn clone(&self) -> (r: Self)
        ensures
            r == *self,
    {
        Kline {
            symbol: self.symbol.clone(),
            open_time: self.open_time,
            open: self.open,
            high: self.high,
            low: self.low,
            close: self.close,
            size: self.size,
            cash: self.cash,
            buy_size: self.buy_size,
            buy_cash: self.buy_cash,
            trades: self.trades,
        }
    }
}

impl Clone for FundingRateHistory {
    fn clone(&self) -> (r: Self)
        ensures
            r == *self,
    {
        FundingRateHistory {
            symbol: self.symbol.clone(),
            mark_price: self.mark_price,
            rate: self.rate,
            time: self.time,
        }
    }
}

impl Clone for Symbol {
    fn clone(&self) -> (r: Self)
        ensures
            r == *self,
    {
        Symbol {
            symbol: self.symbol.clone(),
            enable: self.enable,
            rule: self.rule,
            market: self.market,
        }
    }
}

// ---------------------------------------------------------------------------
// Derived quantities over views
// ---------------------------------------------------------------------------
/// Margin an order freezes: zero for reduce-only orders, otherwise the
/// undealt size at the limit price (limit orders) or mark price (market
/// orders), divided by the leverage.
pub open spec fn order_margin_v(o: OrderV, mark: int, leverage: int) -> Option<int> {
    if o.reduce_only {
        Some(0)
    } else {
        c_div(
            c_mul(
                c_sub(Some(o.size), Some(o.deal_size)),
                Some(
                    if o.type_ == TradeType::Limit {
                        o.price
                    } else {
                        mark
                    },
                ),
            ),
            Some(lev_raw(leverage)),
        )
    }
}

/// Position size a reduce-only order of this side freezes.
pub open spec fn order_frozen_v(o: OrderV, side: TradeSide) -> Option<int> {
    if o.side == side && o.reduce_only {
        c_sub(Some(o.size), Some(o.deal_size))
    } else {
        Some(0)
    }
}

/// Margin a position holds: entry notional divided by leverage.
pub open spec fn pos_margin_v(p: PositionV, leverage: int) -> Option<int> {
    c_div(c_mul(Some(p.size), Some(p.price)), Some(lev_raw(leverage)))
}

/// Unrealized profit and loss of a position against the mark price.
pub open spec fn pos_pnl_v(p: PositionV, mark: int) -> Option<int> {
    if p.size == 0 {
        Some(0)
    } else {
        c_mul(c_mul(c_sub(Some(mark), Some(p.price)), Some(p.size)), Some(side_unit(p.side)))
    }
}

/// Sum of the order margins of a symbol, in insertion order.
pub open spec fn orders_margin_sum(orders: Seq<OrderV>, mark: int, leverage: int) -> Option<int>
    decreases orders.len(),
{
    if orders.len() == 0 {
        Some(0)
    } else {
        c_add(
            orders_margin_sum(orders.drop_last(), mark, leverage),
            order_margin_v(orders.last(), mark, leverage),
        )
    }
}

/// Sum of the frozen sizes of one side's reduce-only orders.
pub open spec fn orders_frozen_sum(orders: Seq<OrderV>, side: TradeSide) -> Option<int>
    decreases orders.len(),
{
    if orders.len() == 0 {
        Some(0)
    } else {
        c_add(orders_frozen_sum(orders.drop_last(), side), order_frozen_v(orders.last(), side))
    }
}

/// Total margin of one symbol: its orders plus both position sides.
pub open spec fn sp_margin_v(sp: SymbolPositionV) -> Option<int> {
    c_add(
        orders_margin_sum(sp.orders, sp.symbol.market.mark, sp.leverage),
        c_add(pos_margin_v(sp.long, sp.leverage), pos_margin_v(sp.short, sp.leverage)),
    )
}

/// Total unrealized profit and loss of one symbol.
pub open spec fn sp_pnl_v(sp: SymbolPositionV) -> Option<int> {
    c_add(pos_pnl_v(sp.long, sp.symbol.market.mark), pos_pnl_v(sp.short, sp.symbol.market.mark))
}

/// Frozen size of one side of a symbol.
pub open spec fn sp_size_frozen_v(sp: SymbolPositionV, side: TradeSide) -> Option<int> {
    orders_frozen_sum(sp.orders, side)
}

/// Available size of one side of a symbol: held size minus frozen size.
pub open spec fn sp_size_available_v(sp: SymbolPositionV, side: TradeSide) -> Option<int> {
    c_sub(
        Some(
            if side == TradeSide::Long {
                sp.long.size
            } else {
                sp.short.size
            },
        ),
        sp_size_frozen_v(sp, side),
    )
}

/// Sum of the symbol margins of an account, in initialization order.
pub open spec fn acct_margin_sum(positions: Seq<SymbolPositionV>) -> Option<int>
    decreases positions.len(),
{
    if positions.len() == 0 {
        Some(0)
    } else {
        c_add(acct_margin_sum(positions.drop_last()), sp_margin_v(positions.last()))
    }
}

/// Sum of the symbol profits and losses of an account.
pub open spec fn acct_pnl_sum(positions: Seq<SymbolPositionV>) -> Option<int>
    decreases positions.len(),
{
    if positions.len() == 0 {
        Some(0)
    } else {
        c_add(acct_pnl_sum(positions.drop_last()), sp_pnl_v(positions.last()))
    }
}

/// Frozen cash of an account: the total margin.
pub open spec fn acct_cash_frozen_v(a: AccountV) -> Option<int> {
    acct_margin_sum(a.positions)
}

/// Available cash: cash minus frozen cash plus unrealized profit and loss.
pub open spec fn acct_cash_available_v(a: AccountV) -> Option<int> {
    c_add(c_sub(Some(a.cash), acct_margin_sum(a.positions)), acct_pnl_sum(a.positions))
}

// ---------------------------------------------------------------------------
// Fold lemmas
// ---------------------------------------------------------------------------
/// Extending an order-margin fold by one element.
pub proof fn lemma_orders_margin_step(orders: Seq<OrderV>, i: int, mark: int, leverage: int)
    requires
        0 <= i < orders.len(),
    ensures
        orders_margin_sum(orders.take(i + 1), mark, leverage) == c_add(
            orders_margin_sum(orders.take(i), mark, leverage),
            order_margin_v(orders[i], mark, leverage),
        ),
{
    assert(orders.take(i + 1).drop_last() =~= orders.take(i));
    assert(orders.take(i + 1).last() == orders[i]);
}

/// Once an order-margin fold is `None` on a prefix, it stays `None`.
pub proof fn lemma_orders_margin_none(orders: Seq<OrderV>, j: int, mark: int, leverage: int)
    requires
        0 <= j <= orders.len(),
        orders_margin_sum(orders.take(j), mark, leverage) is None,
    ensures
        orders_margin_sum(orders, mark, leverage) is None,
    decreases orders.len() - j,
{
    if j == orders.len() {
        assert(orders.take(j) =~= orders);
    } else {
        lemma_orders_margin_step(orders, j, mark, leverage);
        lemma_orders_margin_none(orders, j + 1, mark, leverage);
    }
}

/// Extending a frozen-size fold by one element.
pub proof fn lemma_orders_frozen_step(orders: Seq<OrderV>, i: int, side: TradeSide)
    requires
        0 <= i < orders.len(),
    ensures
        orders_frozen_sum(orders.take(i + 1), side) == c_add(
            orders_frozen_sum(orders.take(i), side),
            order_frozen_v(orders[i], side),
        ),
{
    assert(orders.take(i + 1).drop_last() =~= orders.take(i));
    assert(orders.take(i + 1).last() == orders[i]);
}

/// Once a frozen-size fold is `None` on a prefix, it stays `None`.
pub proof fn lemma_orders_frozen_none(orders: Seq<OrderV>, j: int, side: TradeSide)
    requires
        0 <= j <= orders.len(),
        orders_frozen_sum(orders.take(j), side) is None,
    ensures
        orders_frozen_sum(orders, side) is None,
    decreases orders.len() - j,
{
    if j == orders.len() {
        assert(orders.take(j) =~= orders);
    } else {
        lemma_orders_frozen_step(orders, j, side);
        lemma_orders_frozen_none(orders, j + 1, side);
    }
}

/// Extending an account-margin fold by one element.
pub proof fn lemma_acct_margin_step(positions: Seq<SymbolPositionV>, i: int)
    requires
        0 <= i < positions.len(),
    ensures
        acct_margin_sum(positions.take(i + 1)) == c_add(
            acct_margin_sum(positions.take(i)),
            sp_margin_v(positions[i]),
        ),
{
    assert(positions.take(i + 1).drop_last() =~= positions.take(i));
    assert(positions.take(i + 1).last() == positions[i]);
}

/// Once an account-margin fold is `None` on a prefix, it stays `None`.
pub proof fn lemma_acct_margin_none(positions: Seq<SymbolPositionV>, j: int)
    requires
        0 <= j <= positions.len(),
        acct_margin_sum(positions.take(j)) is None,
    ensures
        acct_margin_sum(positions) is None,
    decreases positions.len() - j,
{
    if j == positions.len() {
        assert(positions.take(j) =~= positions);
    } else {
        lemma_acct_margin_step(positions, j);
        lemma_acct_margin_none(positions, j + 1);
    }
}

/// Extending an account-pnl fold by one element.
pub proof fn lemma_acct_pnl_step(positions: Seq<SymbolPositionV>, i: int)
    requires
        0 <= i < positions.len(),
    ensures
        acct_pnl_sum(positions.take(i + 1)) == c_add(
            acct_pnl_sum(positions.take(i)),
            sp_pnl_v(positions[i]),
        ),
{
    assert(positions.take(i + 1).drop_last() =~= positions.take(i));
    assert(positions.take(i + 1).last() == positions[i]);
}

/// Once an account-pnl fold is `None` on a prefix, it stays `None`.
pub proof fn lemma_acct_pnl_none(positions: Seq<SymbolPositionV>, j: int)
    requires
        0 <= j <= positions.len(),
        acct_pnl_sum(positions.take(j)) is None,
    ensures
        acct_pnl_sum(positions) is None,
    decreases positions.len() - j,
{
    if j == positions.len() {
        assert(positions.take(j) =~= positions);
    } else {
        lemma_acct_pnl_step(positions, j);
        lemma_acct_pnl_none(positions, j + 1);
    }
}

// ---------------------------------------------------------------------------
// Executable derived quantities
// ---------------------------------------------------------------------------
impl Order {
    /// Margin this order freezes; `None` on arithmetic overflow.
    pub fn margin(&self, mark_price: Decimal, leverage: u32) -> (r: Option<Decimal>)
        ensures
            opt_raw(r) == order_margin_v(self@, mark_price@, leverage as int),
    {
        if self.reduce_only {
            return Some(Decimal::zero());
        }
        let undealt = match self.size.checked_sub(&self.deal_size) {
            Some(u) => u,
            None => {
                return None;
            },
        };
        let px = if matches!(self.type_, TradeType::Limit) {
            self.price
        } else {
            mark_price
        };
        let notional = match undealt.checked_mul(&px) {
            Some(a) => a,
            None => {
                return None;
            },
        };
        notional.checked_div(&Decimal::from_int(leverage as i64))
    }
}

impl Position {
    /// Margin this position holds; `None` on arithmetic overflow.
    pub fn margin(&self, leverage: u32) -> (r: Option<Decimal>)
        ensures
            opt_raw(r) == pos_margin_v(self@, leverage as int),
    {
        let notional = match self.size.checked_mul(&self.price) {
            Some(a) => a,
            None => {
                return None;
            },
        };
        notional.checked_div(&Decimal::from_int(leverage as i64))
    }

    /// Unrealized profit and loss against `mark_price`; `None` on overflow.
    pub fn pnl(&self, mark_price: Decimal) -> (r: Option<Decimal>)
        ensures
            opt_raw(r) == pos_pnl_v(self@, mark_price@),
    {
        if self.size.is_zero() {
            return Some(Decimal::zero());
        }
        let diff = match mark_price.checked_sub(&self.price) {
            Some(d) => d,
            None => {
                return None;
            },
        };
        let scaled = match diff.checked_mul(&self.size) {
            Some(s) => s,
            None => {
                return None;
            },
        };
        let unit = if matches!(self.side, TradeSide::Long) {
            Decimal::one()
        } else {
            Decimal::one_neg()
        };
        scaled.checked_mul(&unit)
    }
}

impl SymbolPosition {
    /// Sum of the margins of the live orders; `None` on overflow.
    pub fn margin_orders(&self) -> (r: Option<Decimal>)
        ensures
            opt_raw(r) == orders_margin_sum(
                self@.orders,
                self@.symbol.market.mark,
                self@.leverage,
            ),
    {
        let ghost ovs = self@.orders;
        let ghost mark = self@.symbol.market.mark;
        let ghost lev = self@.leverage;
        let mut acc = Decimal::zero();
        let mut i: usize = 0;
        while i < self.orders.len()
            invariant
                i <= self.orders.len(),
                ovs == self@.orders,
                mark == self@.symbol.market.mark,
                lev == self@.leverage,
                Some(acc@) == orders_margin_sum(ovs.take(i as int), mark, lev),
            decreases self.orders.len() - i,
        {
            let m = match self.orders[i].margin(self.symbol.market.mark, self.leverage) {
                Some(m) => m,
                None => {
                    proof {
                        lemma_orders_margin_step(ovs, i as int, mark, lev);
                        lemma_orders_margin_none(ovs, i as int + 1, mark, lev);
                    }
                    return None;
                },
            };
            let next = match acc.checked_add(&m) {
                Some(a) => a,
                None => {
                    proof {
                        lemma_orders_margin_step(ovs, i as int, mark, lev);
                        lemma_orders_margin_none(ovs, i as int + 1, mark, lev);
                    }
                    return None;
                },
            };
            proof {
                lemma_orders_margin_step(ovs, i as int, mark, lev);
            }
            acc = next;
            i = i + 1;
        }
        proof {
            assert(ovs.take(i as int) =~= ovs);
        }
        Some(acc)
    }

    /// Margin of the long side.
    pub fn margin_long(&self) -> (r: Option<Decimal>)
        ensures
            opt_raw(r) == pos_margin_v(self@.long, self@.leverage),
    {
        self.long.margin(self.leverage)
    }

    /// Margin of the short side.
    pub fn margin_short(&self) -> (r: Option<Decimal>)
        ensures
            opt_raw(r) == pos_margin_v(self@.short, self@.leverage),
    {
        self.short.margin(self.leverage)
    }

    /// Combined margin of both position sides.
    pub fn margin_positions(&self) -> (r: Option<Decimal>)
        ensures
            opt_raw(r) == c_add(
                pos_margin_v(self@.long, self@.leverage),
                pos_margin_v(self@.short, self@.leverage),
            ),
    {
        let l = match self.margin_long() {
            Some(l) => l,
            None => {
                return None;
            },
        };
        let s = match self.margin_short() {
            Some(s) => s,
            None => {
                return None;
            },
        };
        l.checked_add(&s)
    }

    /// Total margin of the symbol: orders plus positions.
    pub fn margin(&self) -> (r: Option<Decimal>)
        ensures
            opt_raw(r) == sp_margin_v(self@),
    {
        let o = match self.margin_orders() {
            Some(o) => o,
            None => {
                return None;
            },
        };
        let p = match self.margin_positions() {
            Some(p) => p,
            None => {
                return None;
            },
        };
        o.checked_add(&p)
    }

    /// Unrealized profit and loss of the long side.
    pub fn long_pnl(&self) -> (r: Option<Decimal>)
        ensures
            opt_raw(r) == pos_pnl_v(self@.long, self@.symbol.market.mark),
    {
        self.long.pnl(self.symbol.market.mark)
    }

    /// Unrealized profit and loss of the short side.
    pub fn short_pnl(&self) -> (r: Option<Decimal>)
        ensures
            opt_raw(r) == pos_pnl_v(self@.short, self@.symbol.market.mark),
    {
        self.short.pnl(self.symbol.market.mark)
    }

    /// Unrealized profit and loss of the symbol.
    pub fn pnl(&self) -> (r: Option<Decimal>)
        ensures
            opt_raw(r) == sp_pnl_v(self@),
    {
        let l = match self.long_pnl() {
            Some(l) => l,
            None => {
                return None;
            },
        };
        let s = match self.short_pnl() {
            Some(s) => s,
            None => {
                return None;
            },
        };
        l.checked_add(&s)
    }

    /// Long size frozen by reduce-only long orders.
    pub fn long_size_frozen(&self) -> (r: Option<Decimal>)
        ensures
            opt_raw(r) == sp_size_frozen_v(self@, TradeSide::Long),
    {
        self.size_frozen(TradeSide::Long)
    }

    /// Short size frozen by reduce-only short orders.
    pub fn short_size_frozen(&self) -> (r: Option<Decimal>)
        ensures
            opt_raw(r) == sp_size_frozen_v(self@, TradeSide::Short),
    {
        self.size_frozen(TradeSide::Short)
    }

    /// Size frozen on one side by its reduce-only orders.
    pub fn size_frozen(&self, side: TradeSide) -> (r: Option<Decimal>)
        ensures
            opt_raw(r) == sp_size_frozen_v(self@, side),
    {
        let ghost ovs = self@.orders;
        let mut acc = Decimal::zero();
        let mut i: usize = 0;
        while i < self.orders.len()
            invariant
                i <= self.orders.len(),
                ovs == self@.orders,
                Some(acc@) == orders_frozen_sum(ovs.take(i as int), side),
            decreases self.orders.len() - i,
        {
            let o = &self.orders[i];
            let contribution: Option<Decimal> = if o.side == side && o.reduce_only {
                o.size.checked_sub(&o.deal_size)
            } else {
                Some(Decimal::zero())
            };
            let c = match contribution {
                Some(c) => c,
                None => {
                    proof {
                        lemma_orders_frozen_step(ovs, i as int, side);
                        lemma_orders_frozen_none(ovs, i as int + 1, side);
                    }
                    return None;
                },
            };
            let next = match acc.checked_add(&c) {
                Some(a) => a,
                None => {
                    proof {
                        lemma_orders_frozen_step(ovs, i as int, side);
                        lemma_orders_frozen_none(ovs, i as int + 1, side);
                    }
                    return None;
                },
            };
            proof {
                lemma_orders_frozen_step(ovs, i as int, side);
            }
            acc = next;
            i = i + 1;
        }
        proof {
            assert(ovs.take(i as int) =~= ovs);
        }
        Some(acc)
    }

    /// Long size not frozen by reduce-only orders.
    pub fn long_size_available(&self) -> (r: Option<Decimal>)
        ensures
            opt_raw(r) == sp_size_available_v(self@, TradeSide::Long),
    {
        let f = match self.long_size_frozen() {
            Some(f) => f,
            None => {
                return None;
            },
        };
        self.long.size.checked_sub(&f)
    }

    /// Short size not frozen by reduce-only orders.
    pub fn short_size_available(&self) -> (r: Option<Decimal>)
        ensures
            opt_raw(r) == sp_size_available_v(self@, TradeSide::Short),
    {
        let f = match self.short_size_frozen() {
            Some(f) => f,
            None => {
                return None;
            },
        };
        self.short.size.checked_sub(&f)
    }
}

impl Account {
    /// Total margin across all symbols; `None` on overflow.
    pub fn margin(&self) -> (r: Option<Decimal>)
        ensures
            opt_raw(r) == acct_margin_sum(self@.positions),
    {
        let ghost pvs = self@.positions;
        let mut acc = Decimal::zero();
        let mut i: usize = 0;
        while i < self.positions.len()
            invariant
                i <= self.positions.len(),
                pvs == self@.positions,
                Some(acc@) == acct_margin_sum(pvs.take(i as int)),
            decreases self.positions.len() - i,
        {
            let m = match self.positions[i].margin() {
                Some(m) => m,
                None => {
                    proof {
                        lemma_acct_margin_step(pvs, i as int);
                        lemma_acct_margin_none(pvs, i as int + 1);
                    }
                    return None;
                },
            };
            let next = match acc.checked_add(&m) {
                Some(a) => a,
                None => {
                    proof {
                        lemma_acct_margin_step(pvs, i as int);
                        lemma_acct_margin_none(pvs, i as int + 1);
                    }
                    return None;
                },
            };
            proof {
                lemma_acct_margin_step(pvs, i as int);
            }
            acc = next;
            i = i + 1;
        }
        proof {
            assert(pvs.take(i as int) =~= pvs);
        }
        Some(acc)
    }

    /// Total unrealized profit and loss across all symbols.
    pub fn pnl(&self) -> (r: Option<Decimal>)
        ensures
            opt_raw(r) == acct_pnl_sum(self@.positions),
    {
        let ghost pvs = self@.positions;
        let mut acc = Decimal::zero();
        let mut i: usize = 0;
        while i < self.positions.len()
            invariant
                i <= self.positions.len(),
                pvs == self@.positions,
                Some(acc@) == acct_pnl_sum(pvs.take(i as int)),
            decreases self.positions.len() - i,
        {
            let m = match self.positions[i].pnl() {
                Some(m) => m,
                None => {
                    proof {
                        lemma_acct_pnl_step(pvs, i as int);
                        lemma_acct_pnl_none(pvs, i as int + 1);
                    }
                    return None;
                },
            };
            let next = match acc.checked_add(&m) {
                Some(a) => a,
                None => {
                    proof {
                        lemma_acct_pnl_step(pvs, i as int);
                        lemma_acct_pnl_none(pvs, i as int + 1);
                    }
                    return None;
                },
            };
            proof {
                lemma_acct_pnl_step(pvs, i as int);
            }
            acc = next;
            i = i + 1;
        }
        proof {
            assert(pvs.take(i as int) =~= pvs);
        }
        Some(acc)
    }

    /// Frozen cash: the total margin.
    pub fn cash_frozen(&self) -> (r: Option<Decimal>)
        ensures
            opt_raw(r) == acct_cash_frozen_v(self@),
    {
        self.margin()
    }

    /// Available cash: cash minus frozen cash plus profit and loss.
    pub fn cash_available(&self) -> (r: Option<Decimal>)
        ensures
            opt_raw(r) == acct_cash_available_v(self@),
    {
        let frozen = match self.cash_frozen() {
            Some(f) => f,
            None => {
                return None;
            },
        };
        let rest = match self.cash.checked_sub(&frozen) {
            Some(x) => x,
            None => {
                return None;
            },
        };
        let p = match self.pnl() {
            Some(p) => p,
            None => {
                return None;
            },
        };
        rest.checked_add(&p)
    }
}

} // verus!
