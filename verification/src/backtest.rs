//! The backtest driver: configuration, the strategy interface, the public
//! engine surface strategies act through, and the minute-tick event loop.

use crate::decimal::{opt_raw, Decimal};
use crate::enums::{TradeSide, TradeType};
use crate::errors::EngineError;
use crate::exchange::{
    acct_wf, clone_orders, filter_orders, filter_orders_exec, find_order_index, init_sp_v,
    order_idx, order_views, remove_many_v, remove_order_v, submit_check_v, submit_effect_v,
    sym_idx, new_order_v, PriceField,
};
use crate::history::HistoryDataStream;
use crate::models::{
    acct_cash_available_v, acct_cash_frozen_v, acct_margin_sum, acct_pnl_sum, sp_margin_v,
    sp_pnl_v, sp_size_available_v, sp_size_frozen_v, pos_margin_v, pos_pnl_v, Account, AccountV,
    FundingRateHistory, Kline, Order, Position, SymbolPositionV,
};
use crate::time::{Time, MS_PER_DAY, MS_PER_HOUR, MS_PER_MINUTE};
use vstd::prelude::*;

verus! {

/// Configuration of one backtest run.
pub struct BacktestConfig {
    /// Simulation start, UTC; truncated to its minute.
    pub begin: Time,
    /// Simulation end, UTC, inclusive; truncated to its minute.
    pub end: Time,
    /// Initial account cash.
    pub cash: Decimal,
    /// Fee fraction charged on taker fills.
    pub fee_rate_taker: Decimal,
    /// Fee fraction charged on maker fills.
    pub fee_rate_maker: Decimal,
    /// Reserved; accepted and validated but not applied.
    pub slippage_rate: Decimal,
}

impl BacktestConfig {
    /// A configuration with the default cash of 1000, fee rates of 0.0005
    /// and slippage rate of 0.01.
    pub fn with_defaults(begin: Time, end: Time) -> (r: BacktestConfig)
        ensures
            r.begin == begin,
            r.end == end,
            r.cash@ == 1000 * (crate::decimal::SCALE_RAW as int),
            r.fee_rate_taker@ == 50_000,
            r.fee_rate_maker@ == 50_000,
            r.slippage_rate@ == 1_000_000,
    {
        BacktestConfig {
            begin,
            end,
            cash: Decimal::from_int(1000),
            fee_rate_taker: Decimal::from_scaled(50_000),
            fee_rate_maker: Decimal::from_scaled(50_000),
            slippage_rate: Decimal::from_scaled(1_000_000),
        }
    }
}

/// All historical data of one symbol, already decoded, each series in
/// ascending time order.
pub struct SymbolData {
    pub symbol: String,
    pub funding_rate: Vec<FundingRateHistory>,
    pub klines: Vec<Kline>,
    pub index_price_klines: Vec<Kline>,
    pub mark_price_klines: Vec<Kline>,
}

/// View of a [`Backtest`].
#[verifier::ext_equal]
pub ghost struct BacktestV {
    pub begin: int,
    pub end: int,
    pub fee_taker: int,
    pub fee_maker: int,
    pub slippage: int,
    pub account: AccountV,
    pub trade_time: int,
}

/// The deterministic backtesting engine: the market-state store plus the
/// simulated clock.
pub struct Backtest {
    config: BacktestConfig,
    begin_ms: i64,
    end_ms: i64,
    account: Account,
    trade_time: i64,
}

impl View for Backtest {
    type V = BacktestV;

    closed spec fn view(&self) -> BacktestV {
        BacktestV {
            begin: self.begin_ms as int,
            end: self.end_ms as int,
            fee_taker: self.config.fee_rate_taker@,
            fee_maker: self.config.fee_rate_maker@,
            slippage: self.config.slippage_rate@,
            account: self.account@,
            trade_time: self.trade_time as int,
        }
    }
}

/// A user strategy: the callbacks the event loop fires, all defaulting to
/// a no-op.
///
/// A strategy only acts through the engine's public operations, so every
/// callback leaves the store's invariant intact; the contracts record
/// that.
pub trait Strategy {
    fn on_init(&mut self, engine: &mut Backtest) -> (r: Result<(), String>)
        ensures
            old(engine).wf() ==> final(engine).wf(),
    {
        Ok(())
    }

    fn on_start(&mut self, engine: &mut Backtest) -> (r: Result<(), String>)
        ensures
            old(engine).wf() ==> final(engine).wf(),
    {
        Ok(())
    }

    fn on_stop(&mut self, engine: &mut Backtest) -> (r: Result<(), String>)
        ensures
            old(engine).wf() ==> final(engine).wf(),
    {
        Ok(())
    }

    fn on_daily(&mut self, engine: &mut Backtest) -> (r: Result<(), String>)
        ensures
            old(engine).wf() ==> final(engine).wf(),
    {
        Ok(())
    }

    fn on_hourly(&mut self, engine: &mut Backtest) -> (r: Result<(), String>)
        ensures
            old(engine).wf() ==> final(engine).wf(),
    {
        Ok(())
    }

    fn on_minutely(&mut self, engine: &mut Backtest) -> (r: Result<(), String>)
        ensures
            old(engine).wf() ==> final(engine).wf(),
    {
        Ok(())
    }

    fn on_kline(&mut self, engine: &mut Backtest, kline: &Kline) -> (r: Result<(), String>)
        ensures
            old(engine).wf() ==> final(engine).wf(),
    {
        Ok(())
    }

    fn on_order(&mut self, engine: &mut Backtest, order: &Order) -> (r: Result<(), String>)
        ensures
            old(engine).wf() ==> final(engine).wf(),
    {
        Ok(())
    }

    fn on_position(&mut self, engine: &mut Backtest, position: &Position) -> (r: Result<
        (),
        String,
    >)
        ensures
            old(engine).wf() ==> final(engine).wf(),
    {
        Ok(())
    }
}

/// Outcome of a submission operation at the engine surface: state and
/// result exactly as the validation pipeline decides, everything but the
/// account untouched.
pub open spec fn submit_res(
    b0: BacktestV,
    b1: BacktestV,
    r: Result<String, EngineError>,
    symbol: Seq<char>,
    type_: TradeType,
    side: TradeSide,
    reduce_only: bool,
    size: int,
    price: int,
) -> bool {
    let i = sym_idx(b0.account.positions, symbol);
    &&& b1 == BacktestV { account: b1.account, ..b0 }
    &&& (i == -1 ==> r == Err::<String, EngineError>(EngineError::UnknownSymbol) && b1 == b0)
    &&& (i != -1 ==> (match submit_check_v(b0.account, i, type_, side, reduce_only, size, price) {
        Err(e) => r == Err::<String, EngineError>(e) && b1 == b0,
        Ok(qp) => r matches Ok(id) && id@.len() == 32 && b1.account == submit_effect_v(
            b0.account,
            i,
            new_order_v(
                b0.account.positions[i],
                type_,
                side,
                reduce_only,
                qp.0,
                qp.1,
                id@,
                b0.trade_time,
            ),
        ),
    }))
}

impl Backtest {
    /// The store invariant at the engine surface, together with the clock
    /// bounds the loop relies on.
    pub open spec fn wf(self) -> bool {
        &&& acct_wf(self@.account)
        &&& 0 <= self@.begin < 300_000_000_000_000
        &&& 0 <= self@.end < 300_000_000_000_000
        &&& 0 <= self@.trade_time < 300_000_000_000_000
    }

    /// Validate a configuration and build the engine: times truncated to
    /// the minute and begin strictly before end, cash and rates at least
    /// zero, the account starting flat with the configured cash.
    pub fn new(config: BacktestConfig) -> (r: Result<Backtest, EngineError>)
        ensures
            ({
                let bt = Time { second: 0, ..config.begin };
                let et = Time { second: 0, ..config.end };
                if !(config.begin.valid() && config.end.valid()) {
                    r == Err::<Backtest, EngineError>(EngineError::InvalidTimeRange)
                } else if bt.spec_ms() >= et.spec_ms() {
                    r == Err::<Backtest, EngineError>(EngineError::InvalidTimeRange)
                } else if config.cash@ < 0 {
                    r == Err::<Backtest, EngineError>(EngineError::NegativeCash)
                } else if config.fee_rate_taker@ < 0 || config.fee_rate_maker@ < 0
                    || config.slippage_rate@ < 0 {
                    r == Err::<Backtest, EngineError>(EngineError::NegativeRate)
                } else {
                    r matches Ok(b) && b@ == (BacktestV {
                        begin: bt.spec_ms(),
                        end: et.spec_ms(),
                        fee_taker: config.fee_rate_taker@,
                        fee_maker: config.fee_rate_maker@,
                        slippage: config.slippage_rate@,
                        account: AccountV { cash: config.cash@, positions: Seq::empty() },
                        trade_time: bt.spec_ms(),
                    }) && b.wf()
                }
            }),
    {
        if !(config.begin.is_valid() && config.end.is_valid()) {
            return Err(EngineError::InvalidTimeRange);
        }
        let begin = config.begin.truncate_minute();
        let end = config.end.truncate_minute();
        let begin_ms = begin.to_ms();
        let end_ms = end.to_ms();
        if begin_ms >= end_ms {
            return Err(EngineError::InvalidTimeRange);
        }
        if config.cash.lt(&Decimal::zero()) {
            return Err(EngineError::NegativeCash);
        }
        if config.fee_rate_taker.lt(&Decimal::zero()) || config.fee_rate_maker.lt(&Decimal::zero())
            || config.slippage_rate.lt(&Decimal::zero()) {
            return Err(EngineError::NegativeRate);
        }
        let cash = config.cash;
        let b = Backtest {
            config,
            begin_ms,
            end_ms,
            account: Account { cash, positions: Vec::new() },
            trade_time: begin_ms,
        };
        proof {
            assert(b@.account.positions =~= Seq::<SymbolPositionV>::empty());
        }
        Ok(b)
    }

    /// The simulated clock, in epoch milliseconds.
    pub fn time(&self) -> (r: i64)
        ensures
            r as int == self@.trade_time,
    {
        self.trade_time
    }

    /// Stopping is the caller's concern; the engine itself has nothing to
    /// shut down.
    pub fn stop(&self) {
    }

    /// Initialize a symbol with the default rule; a second initialization
    /// of the same symbol is rejected.
    pub fn symbol_init(&mut self, symbol: &str) -> (r: Result<(), EngineError>)
        ensures
            final(self)@ == (BacktestV { account: final(self)@.account, ..old(self)@ }),
            sym_idx(old(self)@.account.positions, symbol@) != -1 ==> r == Err::<(), EngineError>(
                EngineError::DuplicateSymbol,
            ) && final(self)@ == old(self)@,
            sym_idx(old(self)@.account.positions, symbol@) == -1 ==> r == Ok::<(), EngineError>(())
                && final(self)@.account == (AccountV {
                positions: old(self)@.account.positions.push(init_sp_v(symbol@)),
                ..old(self)@.account
            }),
            old(self).wf() ==> final(self).wf(),
    {
        self.account.symbol_init(symbol)
    }

    /// Set the leverage of a symbol; it must be at least 1.
    pub fn leverage_set(&mut self, symbol: &str, leverage: u32) -> (r: Result<(), EngineError>)
        ensures
            final(self)@ == (BacktestV { account: final(self)@.account, ..old(self)@ }),
            leverage < 1 ==> r == Err::<(), EngineError>(EngineError::InvalidLeverage)
                && final(self)@ == old(self)@,
            leverage >= 1 && sym_idx(old(self)@.account.positions, symbol@) == -1 ==> r == Err::<
                (),
                EngineError,
            >(EngineError::UnknownSymbol) && final(self)@ == old(self)@,
            leverage >= 1 && sym_idx(old(self)@.account.positions, symbol@) != -1 ==> r == Ok::<
                (),
                EngineError,
            >(()) && final(self)@.account == (AccountV {
                positions: old(self)@.account.positions.update(
                    sym_idx(old(self)@.account.positions, symbol@),
                    SymbolPositionV {
                        leverage: leverage as int,
                        ..old(self)@.account.positions[sym_idx(
                            old(self)@.account.positions,
                            symbol@,
                        )]
                    },
                ),
                ..old(self)@.account
            }),
            old(self).wf() ==> final(self).wf(),
    {
        self.account.leverage_set(symbol, leverage)
    }

    /// Remove one order from the book; an absent id is ignored.
    pub fn order_close(&mut self, symbol: &str, id: &str) -> (r: Result<(), EngineError>)
        ensures
            final(self)@ == (BacktestV { account: final(self)@.account, ..old(self)@ }),
            sym_idx(old(self)@.account.positions, symbol@) == -1 ==> r == Err::<(), EngineError>(
                EngineError::UnknownSymbol,
            ) && final(self)@ == old(self)@,
            sym_idx(old(self)@.account.positions, symbol@) != -1 ==> r == Ok::<(), EngineError>(())
                && final(self)@.account == remove_order_v(
                old(self)@.account,
                sym_idx(old(self)@.account.positions, symbol@),
                id@,
            ),
            old(self).wf() ==> final(self).wf(),
    {
        self.account.order_close(symbol, id)
    }

    /// Remove several orders from the book; absent ids are ignored.
    pub fn order_cancel_many(&mut self, symbol: &str, ids: &Vec<String>) -> (r: Result<
        (),
        EngineError,
    >)
        ensures
            final(self)@ == (BacktestV { account: final(self)@.account, ..old(self)@ }),
            ids@.len() == 0 ==> r == Ok::<(), EngineError>(()) && final(self)@ == old(self)@,
            ids@.len() > 0 && sym_idx(old(self)@.account.positions, symbol@) == -1 ==> r == Err::<
                (),
                EngineError,
            >(EngineError::UnknownSymbol) && final(self)@ == old(self)@,
            ids@.len() > 0 && sym_idx(old(self)@.account.positions, symbol@) != -1 ==> r == Ok::<
                (),
                EngineError,
            >(()) && final(self)@.account == remove_many_v(
                old(self)@.account,
                symbol@,
                ids@.map_values(|s: String| s@),
            ),
            old(self).wf() ==> final(self).wf(),
    {
        self.account.order_cancel_many(symbol, ids)
    }

    /// Open long at the next price: a market buy.
    pub fn long_market_open(&mut self, symbol: &str, size: Decimal) -> (r: Result<
        String,
        EngineError,
    >)
        requires
            old(self).wf(),
        ensures
            final(self).wf(),
            submit_res(
                old(self)@,
                final(self)@,
                r,
                symbol@,
                TradeType::Market,
                TradeSide::Long,
                false,
                size@,
                0,
            ),
    {
        self.account.submit_order(
            symbol,
            TradeType::Market,
            TradeSide::Long,
            false,
            size,
            Decimal::zero(),
            self.trade_time,
        )
    }

    /// Open long at a limit price: a resting buy.
    pub fn long_limit_open(&mut self, symbol: &str, size: Decimal, price: Decimal) -> (r: Result<
        String,
        EngineError,
    >)
        requires
            old(self).wf(),
        ensures
            final(self).wf(),
            submit_res(
                old(self)@,
                final(self)@,
                r,
                symbol@,
                TradeType::Limit,
                TradeSide::Long,
                false,
                size@,
                price@,
            ),
    {
        self.account.submit_order(
            symbol,
            TradeType::Limit,
            TradeSide::Long,
            false,
            size,
            price,
            self.trade_time,
        )
    }

    /// Close long at the next price: a reduce-only market sell.
    pub fn long_market_close(&mut self, symbol: &str, size: Decimal) -> (r: Result<
        String,
        EngineError,
    >)
        requires
            old(self).wf(),
        ensures
            final(self).wf(),
            submit_res(
                old(self)@,
                final(self)@,
                r,
                symbol@,
                TradeType::Market,
                TradeSide::Long,
                true,
                size@,
                0,
            ),
    {
        self.account.submit_order(
            symbol,
            TradeType::Market,
            TradeSide::Long,
            true,
            size,
            Decimal::zero(),
            self.trade_time,
        )
    }

    /// Close long at a limit price: a resting reduce-only sell.
    pub fn long_limit_close(&mut self, symbol: &str, size: Decimal, price: Decimal) -> (r: Result<
        String,
        EngineError,
    >)
        requires
            old(self).wf(),
        ensures
            final(self).wf(),
            submit_res(
                old(self)@,
                final(self)@,
                r,
                symbol@,
                TradeType::Limit,
                TradeSide::Long,
                true,
                size@,
                price@,
            ),
    {
        self.account.submit_order(
            symbol,
            TradeType::Limit,
            TradeSide::Long,
            true,
            size,
            price,
            self.trade_time,
        )
    }

    /// Open short at the next price.
    pub fn short_market_open(&mut self, symbol: &str, size: Decimal) -> (r: Result<
        String,
        EngineError,
    >)
        requires
            old(self).wf(),
        ensures
            final(self).wf(),
            submit_res(
                old(self)@,
                final(self)@,
                r,
                symbol@,
                TradeType::Market,
                TradeSide::Short,
                false,
                size@,
                0,
            ),
    {
        self.account.submit_order(
            symbol,
            TradeType::Market,
            TradeSide::Short,
            false,
            size,
            Decimal::zero(),
            self.trade_time,
        )
    }

    /// Open short at a limit price.
    pub fn short_limit_open(&mut self, symbol: &str, size: Decimal, price: Decimal) -> (r: Result<
        String,
        EngineError,
    >)
        requires
            old(self).wf(),
        ensures
            final(self).wf(),
            submit_res(
                old(self)@,
                final(self)@,
                r,
                symbol@,
                TradeType::Limit,
                TradeSide::Short,
                false,
                size@,
                price@,
            ),
    {
        self.account.submit_order(
            symbol,
            TradeType::Limit,
            TradeSide::Short,
            false,
            size,
            price,
            self.trade_time,
        )
    }

    /// Close short at the next price.
    pub fn short_market_close(&mut self, symbol: &str, size: Decimal) -> (r: Result<
        String,
        EngineError,
    >)
        requires
            old(self).wf(),
        ensures
            final(self).wf(),
            submit_res(
                old(self)@,
                final(self)@,
                r,
                symbol@,
                TradeType::Market,
                TradeSide::Short,
                true,
                size@,
                0,
            ),
    {
        self.account.submit_order(
            symbol,
            TradeType::Market,
            TradeSide::Short,
            true,
            size,
            Decimal::zero(),
            self.trade_time,
        )
    }

    /// Close short at a limit price.
    pub fn short_limit_close(&mut self, symbol: &str, size: Decimal, price: Decimal) -> (r: Result<
        String,
        EngineError,
    >)
        requires
            old(self).wf(),
        ensures
            final(self).wf(),
            submit_res(
                old(self)@,
                final(self)@,
                r,
                symbol@,
                TradeType::Limit,
                TradeSide::Short,
                true,
                size@,
                price@,
            ),
    {
        self.account.submit_order(
            symbol,
            TradeType::Limit,
            TradeSide::Short,
            true,
            size,
            price,
            self.trade_time,
        )
    }
}

// ---------------------------------------------------------------------------
// Read access
// ---------------------------------------------------------------------------
impl Backtest {
    /// The initialized symbols, in initialization order.
    pub fn symbols(&self) -> (r: Vec<String>)
        ensures
            r@.len() == self@.account.positions.len(),
            forall|k: int|
                0 <= k < r@.len() ==> (#[trigger] r@[k])@ == self@.account.positions[
                    k
                ].symbol.symbol,
    {
        let mut out: Vec<String> = Vec::new();
        let mut i: usize = 0;
        while i < self.account.positions.len()
            invariant
                i <= self.account.positions@.len(),
                out@.len() == i,
                forall|k: int|
                    0 <= k < i ==> (#[trigger] out@[k])@ == self@.account.positions[
                        k
                    ].symbol.symbol,
            decreases self.account.positions@.len() - i,
        {
            out.push(self.account.positions[i].symbol.symbol.clone());
            i = i + 1;
        }
        out
    }

    /// The live order `id` of `symbol`, if both exist.
    pub fn order(&self, symbol: &str, id: &str) -> (r: Option<Order>)
        ensures
            ({
                let ps = self@.account.positions;
                let i = sym_idx(ps, symbol@);
                if i == -1 {
                    r is None
                } else {
                    let j = order_idx(ps[i].orders, id@);
                    if j == -1 {
                        r is None
                    } else {
                        r matches Some(o) && o@ == ps[i].orders[j]
                    }
                }
            }),
    {
        let i = match self.account.find_symbol(symbol) {
            Some(i) => i,
            None => {
                return None;
            },
        };
        let ghost spo = self@.account.positions[i as int].orders;
        proof {
            assert(spo =~= order_views(self.account.positions[i as int].orders@));
        }
        match find_order_index(&self.account.positions[i].orders, id) {
            Some(j) => Some(self.account.positions[i].orders[j].clone()),
            None => None,
        }
    }

    /// All live orders of `symbol`, in insertion order.
    pub fn orders(&self, symbol: &str) -> (r: Vec<Order>)
        ensures
            ({
                let ps = self@.account.positions;
                let i = sym_idx(ps, symbol@);
                if i == -1 {
                    r@.len() == 0
                } else {
                    order_views(r@) == ps[i].orders
                }
            }),
    {
        match self.account.find_symbol(symbol) {
            Some(i) => {
                let r = clone_orders(&self.account.positions[i].orders);
                proof {
                    assert(order_views(r@) =~= self@.account.positions[sym_idx(
                        self@.account.positions,
                        symbol@,
                    )].orders);
                }
                r
            },
            None => Vec::new(),
        }
    }

    /// The live orders of one side and openness of `symbol`.
    fn orders_filtered(&self, symbol: &str, side: Option<TradeSide>, reduce: Option<bool>) -> (r:
        Vec<Order>)
        ensures
            ({
                let ps = self@.account.positions;
                let i = sym_idx(ps, symbol@);
                if i == -1 {
                    r@.len() == 0
                } else {
                    order_views(r@) == filter_orders(ps[i].orders, side, reduce)
                }
            }),
    {
        match self.account.find_symbol(symbol) {
            Some(i) => {
                let r = filter_orders_exec(&self.account.positions[i].orders, side, reduce);
                proof {
                    assert(order_views(self.account.positions[i as int].orders@)
                        =~= self@.account.positions[i as int].orders);
                }
                r
            },
            None => Vec::new(),
        }
    }

    /// The live long orders of `symbol`.
    pub fn orders_long(&self, symbol: &str) -> (r: Vec<Order>)
        ensures
            ({
                let ps = self@.account.positions;
                let i = sym_idx(ps, symbol@);
                if i == -1 {
                    r@.len() == 0
                } else {
                    order_views(r@) == filter_orders(
                        ps[i].orders,
                        Some(TradeSide::Long),
                        None::<bool>,
                    )
                }
            }),
    {
        self.orders_filtered(symbol, Some(TradeSide::Long), None)
    }

    /// The live opening long orders of `symbol`.
    pub fn orders_long_open(&self, symbol: &str) -> (r: Vec<Order>)
        ensures
            ({
                let ps = self@.account.positions;
                let i = sym_idx(ps, symbol@);
                if i == -1 {
                    r@.len() == 0
                } else {
                    order_views(r@) == filter_orders(
                        ps[i].orders,
                        Some(TradeSide::Long),
                        Some(false),
                    )
                }
            }),
    {
        self.orders_filtered(symbol, Some(TradeSide::Long), Some(false))
    }

    /// The live reduce-only long orders of `symbol`.
    pub fn orders_long_close(&self, symbol: &str) -> (r: Vec<Order>)
        ensures
            ({
                let ps = self@.account.positions;
                let i = sym_idx(ps, symbol@);
                if i == -1 {
                    r@.len() == 0
                } else {
                    order_views(r@) == filter_orders(
                        ps[i].orders,
                        Some(TradeSide::Long),
                        Some(true),
                    )
                }
            }),
    {
        self.orders_filtered(symbol, Some(TradeSide::Long), Some(true))
    }

    /// The live short orders of `symbol`.
    pub fn orders_short(&self, symbol: &str) -> (r: Vec<Order>)
        ensures
            ({
                let ps = self@.account.positions;
                let i = sym_idx(ps, symbol@);
                if i == -1 {
                    r@.len() == 0
                } else {
                    order_views(r@) == filter_orders(
                        ps[i].orders,
                        Some(TradeSide::Short),
                        None::<bool>,
                    )
                }
            }),
    {
        self.orders_filtered(symbol, Some(TradeSide::Short), None)
    }

    /// The live opening short orders of `symbol`.
    pub fn orders_short_open(&self, symbol: &str) -> (r: Vec<Order>)
        ensures
            ({
                let ps = self@.account.positions;
                let i = sym_idx(ps, symbol@);
                if i == -1 {
                    r@.len() == 0
                } else {
                    order_views(r@) == filter_orders(
                        ps[i].orders,
                        Some(TradeSide::Short),
                        Some(false),
                    )
                }
            }),
    {
        self.orders_filtered(symbol, Some(TradeSide::Short), Some(false))
    }

    /// The live reduce-only short orders of `symbol`.
    pub fn orders_short_close(&self, symbol: &str) -> (r: Vec<Order>)
        ensures
            ({
                let ps = self@.account.positions;
                let i = sym_idx(ps, symbol@);
                if i == -1 {
                    r@.len() == 0
                } else {
                    order_views(r@) == filter_orders(
                        ps[i].orders,
                        Some(TradeSide::Short),
                        Some(true),
                    )
                }
            }),
    {
        self.orders_filtered(symbol, Some(TradeSide::Short), Some(true))
    }

    /// The leverage of `symbol`; 1 for an unknown symbol.
    pub fn leverage(&self, symbol: &str) -> (r: u32)
        ensures
            r as int == ({
                let i = sym_idx(self@.account.positions, symbol@);
                if i == -1 {
                    1int
                } else {
                    self@.account.positions[i].leverage
                }
            }),
    {
        match self.account.find_symbol(symbol) {
            Some(i) => self.account.positions[i].leverage,
            None => 1,
        }
    }

    /// The account cash.
    pub fn cash(&self) -> (r: Decimal)
        ensures
            r@ == self@.account.cash,
    {
        self.account.cash
    }

    /// Available cash; `None` on arithmetic overflow.
    pub fn cash_available(&self) -> (r: Option<Decimal>)
        ensures
            opt_raw(r) == acct_cash_available_v(self@.account),
    {
        self.account.cash_available()
    }

    /// Frozen cash (the total margin); `None` on arithmetic overflow.
    pub fn cash_frozen(&self) -> (r: Option<Decimal>)
        ensures
            opt_raw(r) == acct_cash_frozen_v(self@.account),
    {
        self.account.cash_frozen()
    }

    /// Total margin; `None` on arithmetic overflow.
    pub fn margin(&self) -> (r: Option<Decimal>)
        ensures
            opt_raw(r) == acct_margin_sum(self@.account.positions),
    {
        self.account.margin()
    }

    /// Total unrealized profit and loss; `None` on arithmetic overflow.
    pub fn pnl(&self) -> (r: Option<Decimal>)
        ensures
            opt_raw(r) == acct_pnl_sum(self@.account.positions),
    {
        self.account.pnl()
    }

    /// The symbol state at a known index; ghost shorthand for contracts.
    pub open spec fn sp_of(self, symbol: Seq<char>) -> SymbolPositionV {
        self@.account.positions[sym_idx(self@.account.positions, symbol)]
    }

    /// Is `symbol` initialized? Ghost shorthand for contracts.
    pub open spec fn has_symbol(self, symbol: Seq<char>) -> bool {
        sym_idx(self@.account.positions, symbol) != -1
    }

    /// Average entry price of the long side; 0 for an unknown symbol.
    pub fn long_price(&self, symbol: &str) -> (r: Decimal)
        ensures
            r@ == if self.has_symbol(symbol@) {
                self.sp_of(symbol@).long.price
            } else {
                0int
            },
    {
        match self.account.find_symbol(symbol) {
            Some(i) => self.account.positions[i].long.price,
            None => Decimal::zero(),
        }
    }

    /// Size of the long side; 0 for an unknown symbol.
    pub fn long_size(&self, symbol: &str) -> (r: Decimal)
        ensures
            r@ == if self.has_symbol(symbol@) {
                self.sp_of(symbol@).long.size
            } else {
                0int
            },
    {
        match self.account.find_symbol(symbol) {
            Some(i) => self.account.positions[i].long.size,
            None => Decimal::zero(),
        }
    }

    /// Long size not frozen by reduce-only orders; 0 for an unknown symbol.
    pub fn long_size_available(&self, symbol: &str) -> (r: Option<Decimal>)
        ensures
            opt_raw(r) == if self.has_symbol(symbol@) {
                sp_size_available_v(self.sp_of(symbol@), TradeSide::Long)
            } else {
                Some(0int)
            },
    {
        match self.account.find_symbol(symbol) {
            Some(i) => self.account.positions[i].long_size_available(),
            None => Some(Decimal::zero()),
        }
    }

    /// Long size frozen by reduce-only orders; 0 for an unknown symbol.
    pub fn long_size_frozen(&self, symbol: &str) -> (r: Option<Decimal>)
        ensures
            opt_raw(r) == if self.has_symbol(symbol@) {
                sp_size_frozen_v(self.sp_of(symbol@), TradeSide::Long)
            } else {
                Some(0int)
            },
    {
        match self.account.find_symbol(symbol) {
            Some(i) => self.account.positions[i].long_size_frozen(),
            None => Some(Decimal::zero()),
        }
    }

    /// Margin held by the long side; 0 for an unknown symbol.
    pub fn long_margin(&self, symbol: &str) -> (r: Option<Decimal>)
        ensures
            opt_raw(r) == if self.has_symbol(symbol@) {
                pos_margin_v(self.sp_of(symbol@).long, self.sp_of(symbol@).leverage)
            } else {
                Some(0int)
            },
    {
        match self.account.find_symbol(symbol) {
            Some(i) => self.account.positions[i].margin_long(),
            None => Some(Decimal::zero()),
        }
    }

    /// Unrealized profit and loss of the long side; 0 for an unknown
    /// symbol.
    pub fn long_pnl(&self, symbol: &str) -> (r: Option<Decimal>)
        ensures
            opt_raw(r) == if self.has_symbol(symbol@) {
                pos_pnl_v(self.sp_of(symbol@).long, self.sp_of(symbol@).symbol.market.mark)
            } else {
                Some(0int)
            },
    {
        match self.account.find_symbol(symbol) {
            Some(i) => self.account.positions[i].long_pnl(),
            None => Some(Decimal::zero()),
        }
    }

    /// Average entry price of the short side; 0 for an unknown symbol.
    pub fn short_price(&self, symbol: &str) -> (r: Decimal)
        ensures
            r@ == if self.has_symbol(symbol@) {
                self.sp_of(symbol@).short.price
            } else {
                0int
            },
    {
        match self.account.find_symbol(symbol) {
            Some(i) => self.account.positions[i].short.price,
            None => Decimal::zero(),
        }
    }

    /// Size of the short side; 0 for an unknown symbol.
    pub fn short_size(&self, symbol: &str) -> (r: Decimal)
        ensures
            r@ == if self.has_symbol(symbol@) {
                self.sp_of(symbol@).short.size
            } else {
                0int
            },
    {
        match self.account.find_symbol(symbol) {
            Some(i) => self.account.positions[i].short.size,
            None => Decimal::zero(),
        }
    }

    /// Short size not frozen by reduce-only orders; 0 for an unknown
    /// symbol.
    pub fn short_size_available(&self, symbol: &str) -> (r: Option<Decimal>)
        ensures
            opt_raw(r) == if self.has_symbol(symbol@) {
                sp_size_available_v(self.sp_of(symbol@), TradeSide::Short)
            } else {
                Some(0int)
            },
    {
        match self.account.find_symbol(symbol) {
            Some(i) => self.account.positions[i].short_size_available(),
            None => Some(Decimal::zero()),
        }
    }

    /// Short size frozen by reduce-only orders; 0 for an unknown symbol.
    pub fn short_size_frozen(&self, symbol: &str) -> (r: Option<Decimal>)
        ensures
            opt_raw(r) == if self.has_symbol(symbol@) {
                sp_size_frozen_v(self.sp_of(symbol@), TradeSide::Short)
            } else {
                Some(0int)
            },
    {
        match self.account.find_symbol(symbol) {
            Some(i) => self.account.positions[i].short_size_frozen(),
            None => Some(Decimal::zero()),
        }
    }

    /// Margin held by the short side; 0 for an unknown symbol.
    pub fn short_margin(&self, symbol: &str) -> (r: Option<Decimal>)
        ensures
            opt_raw(r) == if self.has_symbol(symbol@) {
                pos_margin_v(self.sp_of(symbol@).short, self.sp_of(symbol@).leverage)
            } else {
                Some(0int)
            },
    {
        match self.account.find_symbol(symbol) {
            Some(i) => self.account.positions[i].margin_short(),
            None => Some(Decimal::zero()),
        }
    }

    /// Unrealized profit and loss of the short side; 0 for an unknown
    /// symbol.
    pub fn short_pnl(&self, symbol: &str) -> (r: Option<Decimal>)
        ensures
            opt_raw(r) == if self.has_symbol(symbol@) {
                pos_pnl_v(self.sp_of(symbol@).short, self.sp_of(symbol@).symbol.market.mark)
            } else {
                Some(0int)
            },
    {
        match self.account.find_symbol(symbol) {
            Some(i) => self.account.positions[i].short_pnl(),
            None => Some(Decimal::zero()),
        }
    }

    /// Unrealized profit and loss of `symbol`; 0 for an unknown symbol.
    pub fn symbol_pnl(&self, symbol: &str) -> (r: Option<Decimal>)
        ensures
            opt_raw(r) == if self.has_symbol(symbol@) {
                sp_pnl_v(self.sp_of(symbol@))
            } else {
                Some(0int)
            },
    {
        match self.account.find_symbol(symbol) {
            Some(i) => self.account.positions[i].pnl(),
            None => Some(Decimal::zero()),
        }
    }

    /// Total margin of `symbol`; 0 for an unknown symbol.
    pub fn symbol_margin(&self, symbol: &str) -> (r: Option<Decimal>)
        ensures
            opt_raw(r) == if self.has_symbol(symbol@) {
                sp_margin_v(self.sp_of(symbol@))
            } else {
                Some(0int)
            },
    {
        match self.account.find_symbol(symbol) {
            Some(i) => self.account.positions[i].margin(),
            None => Some(Decimal::zero()),
        }
    }

    /// The mark price of `symbol`; 0 for an unknown symbol.
    pub fn price_mark(&self, symbol: &str) -> (r: Decimal)
        ensures
            r@ == if self.has_symbol(symbol@) {
                self.sp_of(symbol@).symbol.market.mark
            } else {
                0int
            },
    {
        match self.account.find_symbol(symbol) {
            Some(i) => self.account.positions[i].symbol.market.mark,
            None => Decimal::zero(),
        }
    }

    /// The last price of `symbol`; 0 for an unknown symbol.
    pub fn price_last(&self, symbol: &str) -> (r: Decimal)
        ensures
            r@ == if self.has_symbol(symbol@) {
                self.sp_of(symbol@).symbol.market.last
            } else {
                0int
            },
    {
        match self.account.find_symbol(symbol) {
            Some(i) => self.account.positions[i].symbol.market.last,
            None => Decimal::zero(),
        }
    }

    /// The index price of `symbol`; 0 for an unknown symbol.
    pub fn price_index(&self, symbol: &str) -> (r: Decimal)
        ensures
            r@ == if self.has_symbol(symbol@) {
                self.sp_of(symbol@).symbol.market.index
            } else {
                0int
            },
    {
        match self.account.find_symbol(symbol) {
            Some(i) => self.account.positions[i].symbol.market.index,
            None => Decimal::zero(),
        }
    }

    /// The last observed funding rate of `symbol`; 0 for an unknown
    /// symbol.
    pub fn price_settlement(&self, symbol: &str) -> (r: Decimal)
        ensures
            r@ == if self.has_symbol(symbol@) {
                self.sp_of(symbol@).symbol.market.settlement
            } else {
                0int
            },
    {
        match self.account.find_symbol(symbol) {
            Some(i) => self.account.positions[i].symbol.market.settlement,
            None => Decimal::zero(),
        }
    }

    /// The next settlement time of `symbol`, in epoch milliseconds; 0 for
    /// an unknown symbol.
    pub fn time_settlement(&self, symbol: &str) -> (r: i64)
        ensures
            r as int == if self.has_symbol(symbol@) {
                self.sp_of(symbol@).symbol.market.settlement_time
            } else {
                0int
            },
    {
        match self.account.find_symbol(symbol) {
            Some(i) => self.account.positions[i].symbol.market.settlement_time,
            None => 0,
        }
    }

    /// The minimum price of `symbol`'s rule; 0 for an unknown symbol.
    pub fn rule_price_min(&self, symbol: &str) -> (r: Decimal)
        ensures
            r@ == if self.has_symbol(symbol@) {
                self.sp_of(symbol@).symbol.rule.price_min
            } else {
                0int
            },
    {
        match self.account.find_symbol(symbol) {
            Some(i) => self.account.positions[i].symbol.rule.price_min,
            None => Decimal::zero(),
        }
    }

    /// The maximum price of `symbol`'s rule; 0 for an unknown symbol.
    pub fn rule_price_max(&self, symbol: &str) -> (r: Decimal)
        ensures
            r@ == if self.has_symbol(symbol@) {
                self.sp_of(symbol@).symbol.rule.price_max
            } else {
                0int
            },
    {
        match self.account.find_symbol(symbol) {
            Some(i) => self.account.positions[i].symbol.rule.price_max,
            None => Decimal::zero(),
        }
    }

    /// The price grid of `symbol`'s rule; 0 for an unknown symbol.
    pub fn rule_price_tick(&self, symbol: &str) -> (r: Decimal)
        ensures
            r@ == if self.has_symbol(symbol@) {
                self.sp_of(symbol@).symbol.rule.price_tick
            } else {
                0int
            },
    {
        match self.account.find_symbol(symbol) {
            Some(i) => self.account.positions[i].symbol.rule.price_tick,
            None => Decimal::zero(),
        }
    }

    /// The minimum size of `symbol`'s rule; 0 for an unknown symbol.
    pub fn rule_size_min(&self, symbol: &str) -> (r: Decimal)
        ensures
            r@ == if self.has_symbol(symbol@) {
                self.sp_of(symbol@).symbol.rule.size_min
            } else {
                0int
            },
    {
        match self.account.find_symbol(symbol) {
            Some(i) => self.account.positions[i].symbol.rule.size_min,
            None => Decimal::zero(),
        }
    }

    /// The maximum size of `symbol`'s rule; 0 for an unknown symbol.
    pub fn rule_size_max(&self, symbol: &str) -> (r: Decimal)
        ensures
            r@ == if self.has_symbol(symbol@) {
                self.sp_of(symbol@).symbol.rule.size_max
            } else {
                0int
            },
    {
        match self.account.find_symbol(symbol) {
            Some(i) => self.account.positions[i].symbol.rule.size_max,
            None => Decimal::zero(),
        }
    }

    /// The size grid of `symbol`'s rule; 0 for an unknown symbol.
    pub fn rule_size_tick(&self, symbol: &str) -> (r: Decimal)
        ensures
            r@ == if self.has_symbol(symbol@) {
                self.sp_of(symbol@).symbol.rule.size_tick
            } else {
                0int
            },
    {
        match self.account.find_symbol(symbol) {
            Some(i) => self.account.positions[i].symbol.rule.size_tick,
            None => Decimal::zero(),
        }
    }

    /// The minimum opening notional of `symbol`'s rule; 0 for an unknown
    /// symbol.
    pub fn rule_amount_min(&self, symbol: &str) -> (r: Decimal)
        ensures
            r@ == if self.has_symbol(symbol@) {
                self.sp_of(symbol@).symbol.rule.amount_min
            } else {
                0int
            },
    {
        match self.account.find_symbol(symbol) {
            Some(i) => self.account.positions[i].symbol.rule.amount_min,
            None => Decimal::zero(),
        }
    }

    /// The live-order bound of `symbol`'s rule; 0 for an unknown symbol.
    pub fn rule_order_max(&self, symbol: &str) -> (r: i64)
        ensures
            r as int == if self.has_symbol(symbol@) {
                self.sp_of(symbol@).symbol.rule.order_max
            } else {
                0int
            },
    {
        match self.account.find_symbol(symbol) {
            Some(i) => self.account.positions[i].symbol.rule.order_max,
            None => 0,
        }
    }
}

// ---------------------------------------------------------------------------
// The event loop
// ---------------------------------------------------------------------------
/// The four history streams of one symbol.
struct SymbolHistoryData {
    funding_rate: HistoryDataStream<FundingRateHistory>,
    klines: HistoryDataStream<Kline>,
    index_price_klines: HistoryDataStream<Kline>,
    mark_price_klines: HistoryDataStream<Kline>,
}

impl SymbolHistoryData {
    /// Streams over one symbol's decoded series.
    fn new(
        funding_rate: Vec<FundingRateHistory>,
        klines: Vec<Kline>,
        index_price_klines: Vec<Kline>,
        mark_price_klines: Vec<Kline>,
    ) -> SymbolHistoryData {
        SymbolHistoryData {
            funding_rate: HistoryDataStream::new(funding_rate),
            klines: HistoryDataStream::new(klines),
            index_price_klines: HistoryDataStream::new(index_price_klines),
            mark_price_klines: HistoryDataStream::new(mark_price_klines),
        }
    }
}

/// First data entry named `name`, if any.
fn find_data(data: &Vec<SymbolData>, name: &String) -> (r: Option<usize>)
    ensures
        r matches Some(j) ==> j < data@.len(),
{
    let mut j: usize = 0;
    while j < data.len()
        invariant
            j <= data@.len(),
        decreases data@.len() - j,
    {
        if data[j].symbol == *name {
            return Some(j);
        }
        j = j + 1;
    }
    None
}

impl Backtest {
    /// Fire the daily callback when the tick is at midnight; a strategy
    /// error is non-fatal.
    fn on_daily<S: Strategy>(&mut self, strategy: &mut S, time: i64)
        requires
            old(self).wf(),
            time >= 0,
        ensures
            final(self).wf(),
    {
        if (time as u64) % (MS_PER_DAY as u64) == 0 {
            let _ = strategy.on_daily(self);
        }
    }

    /// Fire the hourly callback when the tick is on the hour; a strategy
    /// error is non-fatal.
    fn on_hourly<S: Strategy>(&mut self, strategy: &mut S, time: i64)
        requires
            old(self).wf(),
            time >= 0,
        ensures
            final(self).wf(),
    {
        if (time as u64) % (MS_PER_HOUR as u64) == 0 {
            let _ = strategy.on_hourly(self);
        }
    }

    /// Fire the minutely callback; a strategy error is non-fatal.
    fn on_minutely<S: Strategy>(&mut self, strategy: &mut S)
        requires
            old(self).wf(),
        ensures
            final(self).wf(),
    {
        let _ = strategy.on_minutely(self);
    }

    /// Report one fill to the strategy; a strategy error is non-fatal.
    fn on_order<S: Strategy>(&mut self, strategy: &mut S, order: &Order)
        requires
            old(self).wf(),
        ensures
            final(self).wf(),
    {
        let _ = strategy.on_order(self, order);
    }

    /// Run the strategy to completion: propagate the fatal lifecycle
    /// errors.
    fn on_stop<S: Strategy>(&mut self, strategy: &mut S) -> (r: Result<(), EngineError>)
        requires
            old(self).wf(),
        ensures
            final(self).wf(),
    {
        match strategy.on_stop(self) {
            Ok(_) => Ok(()),
            Err(_) => Err(EngineError::StrategyFailed),
        }
    }

    /// Refresh one symbol's market from its streams at tick `date`:
    /// funding rate at `date` itself, then mark, index and last prices
    /// from the bar one minute earlier; after a new last price the matcher
    /// runs, its fills are reported, and the kline callback fires.
    fn flush_symbol<S: Strategy>(
        &mut self,
        sh: &mut SymbolHistoryData,
        symbol: &str,
        strategy: &mut S,
        date: i64,
    ) -> (r: Result<(), EngineError>)
        requires
            old(self).wf(),
            0 <= date < 300_000_000_000_000,
        ensures
            final(self).wf(),
    {
        if let Some(fr) = sh.funding_rate.take(date) {
            match self.account.set_settlement(symbol, fr.rate, date + 8 * MS_PER_HOUR) {
                Ok(_) => {
                },
                Err(e) => {
                    return Err(e);
                },
            }
        }
        let prev = date - MS_PER_MINUTE;
        if let Some(k) = sh.mark_price_klines.take(prev) {
            match self.account.set_price(symbol, PriceField::Mark, k.close) {
                Ok(_) => {
                },
                Err(e) => {
                    return Err(e);
                },
            }
        }
        if let Some(k) = sh.index_price_klines.take(prev) {
            match self.account.set_price(symbol, PriceField::Index, k.close) {
                Ok(_) => {
                },
                Err(e) => {
                    return Err(e);
                },
            }
        }
        if let Some(k) = sh.klines.take(prev) {
            match self.account.set_price(symbol, PriceField::Last, k.close) {
                Ok(_) => {
                },
                Err(e) => {
                    return Err(e);
                },
            }
            let events = match self.account.cross_order(
                symbol,
                self.config.fee_rate_taker,
                self.config.fee_rate_maker,
            ) {
                Ok(evs) => evs,
                Err(e) => {
                    return Err(e);
                },
            };
            let mut ei: usize = 0;
            while ei < events.len()
                invariant
                    self.wf(),
                decreases events@.len() - ei,
            {
                let ev = &events[ei];
                self.on_order(strategy, ev);
                ei = ei + 1;
            }
            let mut kk = k;
            kk.symbol = symbol.to_owned();
            let _ = strategy.on_kline(self, &kk);
        }
        Ok(())
    }

    /// Drive an initialized engine: fire `on_init`, require at least one
    /// symbol, fire `on_start`, then tick minute by minute from begin to
    /// end inclusive — refreshing every symbol's market, matching, and
    /// firing the daily, hourly and minutely callbacks in that order — and
    /// finally fire `on_stop`. Lifecycle callback errors are fatal; in-loop
    /// callback errors are not.
    pub fn run0<S: Strategy>(&mut self, strategy: &mut S, data: Vec<SymbolData>) -> (r: Result<
        (),
        EngineError,
    >)
        requires
            old(self).wf(),
        ensures
            final(self).wf(),
    {
        let mut data = data;
        match strategy.on_init(self) {
            Ok(_) => {
            },
            Err(_) => {
                return Err(EngineError::StrategyFailed);
            },
        }
        if self.account.positions.len() == 0 {
            return Err(EngineError::NoSymbols);
        }
        match strategy.on_start(self) {
            Ok(_) => {
            },
            Err(_) => {
                return Err(EngineError::StrategyFailed);
            },
        }
        let symbols = self.symbols();
        let mut streams: Vec<SymbolHistoryData> = Vec::new();
        let mut si: usize = 0;
        while si < symbols.len()
            invariant
                streams@.len() == si,
                si <= symbols@.len(),
            decreases symbols@.len() - si,
        {
            match find_data(&data, &symbols[si]) {
                Some(j) => {
                    let sd = data.remove(j);
                    streams.push(
                        SymbolHistoryData::new(
                            sd.funding_rate,
                            sd.klines,
                            sd.index_price_klines,
                            sd.mark_price_klines,
                        ),
                    );
                },
                None => {
                    streams.push(
                        SymbolHistoryData::new(Vec::new(), Vec::new(), Vec::new(), Vec::new()),
                    );
                },
            }
            si = si + 1;
        }
        let end = self.end_ms;
        let mut t = self.begin_ms;
        proof {
            assert(0 <= t as int && (t as int) < 300_000_000_000_000);
            assert((end as int) < 300_000_000_000_000);
        }
        while t <= end
            invariant
                self.wf(),
                0 <= t as int,
                (t as int) < 300_000_000_000_000 + MS_PER_MINUTE as int,
                (end as int) < 300_000_000_000_000,
                streams@.len() == symbols@.len(),
            decreases end as int + MS_PER_MINUTE as int - t as int,
        {
            self.trade_time = t;
            let mut k: usize = 0;
            while k < symbols.len()
                invariant
                    self.wf(),
                    0 <= t as int && (t as int) < 300_000_000_000_000,
                    streams@.len() == symbols@.len(),
                    k <= symbols@.len(),
                decreases symbols@.len() - k,
            {
                let mut sh = streams.remove(k);
                let res = self.flush_symbol(&mut sh, symbols[k].as_str(), strategy, t);
                streams.insert(k, sh);
                match res {
                    Ok(_) => {
                    },
                    Err(e) => {
                        return Err(e);
                    },
                }
                k = k + 1;
            }
            self.on_daily(strategy, t);
            self.on_hourly(strategy, t);
            self.on_minutely(strategy);
            t = t + MS_PER_MINUTE;
        }
        self.on_stop(strategy)
    }

    /// Validate a configuration, then run a strategy over the given
    /// historical data.
    pub fn run<S: Strategy>(config: BacktestConfig, strategy: &mut S, data: Vec<SymbolData>) -> (r:
        Result<(), EngineError>)
        ensures
            ({
                let bt = Time { second: 0, ..config.begin };
                let et = Time { second: 0, ..config.end };
                if !(config.begin.valid() && config.end.valid()) {
                    r == Err::<(), EngineError>(EngineError::InvalidTimeRange)
                } else if bt.spec_ms() >= et.spec_ms() {
                    r == Err::<(), EngineError>(EngineError::InvalidTimeRange)
                } else if config.cash@ < 0 {
                    r == Err::<(), EngineError>(EngineError::NegativeCash)
                } else if config.fee_rate_taker@ < 0 || config.fee_rate_maker@ < 0
                    || config.slippage_rate@ < 0 {
                    r == Err::<(), EngineError>(EngineError::NegativeRate)
                } else {
                    true
                }
            }),
    {
        let mut b = match Backtest::new(config) {
            Ok(b) => b,
            Err(e) => {
                return Err(e);
            },
        };
        b.run0(strategy, data)
    }
}

} // verus!
