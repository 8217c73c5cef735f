use destiny::backtest::{Backtest, BacktestConfig, Strategy, SymbolData};
use destiny::decimal::Decimal;
use destiny::errors::EngineError;
use destiny::models::{FundingRateHistory, Kline, Order};
use destiny::time::Time;

fn config() -> BacktestConfig {
    BacktestConfig::with_defaults(
        Time { year: 2024, month: 1, day: 1, hour: 0, minute: 0, second: 0 },
        Time { year: 2024, month: 1, day: 1, hour: 0, minute: 10, second: 0 },
    )
}

const T0: i64 = 1_704_067_200_000;

fn bar(open_time: i64, close: i64) -> Kline {
    Kline {
        symbol: String::new(),
        open_time,
        open: Decimal::from_int(close),
        high: Decimal::from_int(close),
        low: Decimal::from_int(close),
        close: Decimal::from_int(close),
        size: Decimal::one(),
        cash: Decimal::zero(),
        buy_size: Decimal::zero(),
        buy_cash: Decimal::zero(),
        trades: 1,
    }
}

/// Bars at T0..T0+9min with a flat close of 2000.
fn flat_bars() -> Vec<Kline> {
    let mut v = Vec::new();
    let mut i = 0i64;
    while i < 10 {
        v.push(bar(T0 + i * 60_000, 2000));
        i += 1;
    }
    v
}

fn eth_data() -> Vec<SymbolData> {
    vec![SymbolData {
        symbol: "ETHUSDT".to_string(),
        funding_rate: Vec::new(),
        klines: flat_bars(),
        index_price_klines: flat_bars(),
        mark_price_klines: flat_bars(),
    }]
}

#[derive(Default)]
struct NoInit {
    inited: bool,
    started: bool,
}

impl Strategy for NoInit {
    fn on_init(&mut self, _engine: &mut Backtest) -> Result<(), String> {
        self.inited = true;
        Ok(())
    }

    fn on_start(&mut self, _engine: &mut Backtest) -> Result<(), String> {
        self.started = true;
        Ok(())
    }
}

#[test]
fn empty_run_fails_before_start() {
    let mut b = Backtest::new(config()).unwrap();
    let mut s = NoInit::default();
    let r = b.run0(&mut s, Vec::new());
    assert!(matches!(r, Err(EngineError::NoSymbols)));
    assert!(s.inited);
    assert!(!s.started);
}

#[derive(Default)]
struct FailingInit;

impl Strategy for FailingInit {
    fn on_init(&mut self, _engine: &mut Backtest) -> Result<(), String> {
        Err("refused".to_string())
    }
}

#[test]
fn fatal_callback_errors_abort() {
    let mut b = Backtest::new(config()).unwrap();
    let mut s = FailingInit::default();
    assert!(matches!(b.run0(&mut s, Vec::new()), Err(EngineError::StrategyFailed)));
}

#[derive(Default)]
struct Counter {
    daily: u32,
    hourly: u32,
    minutely: u32,
    klines: u32,
    orders: u32,
    first_tick: Vec<&'static str>,
}

impl Strategy for Counter {
    fn on_init(&mut self, engine: &mut Backtest) -> Result<(), String> {
        engine.symbol_init("ETHUSDT").map_err(|e| e.message())?;
        Ok(())
    }

    fn on_daily(&mut self, engine: &mut Backtest) -> Result<(), String> {
        self.daily += 1;
        if engine.time() == T0 {
            self.first_tick.push("daily");
        }
        Ok(())
    }

    fn on_hourly(&mut self, engine: &mut Backtest) -> Result<(), String> {
        self.hourly += 1;
        if engine.time() == T0 {
            self.first_tick.push("hourly");
        }
        Ok(())
    }

    fn on_minutely(&mut self, engine: &mut Backtest) -> Result<(), String> {
        self.minutely += 1;
        if engine.time() == T0 {
            self.first_tick.push("minutely");
        }
        Ok(())
    }

    fn on_kline(&mut self, _engine: &mut Backtest, _kline: &Kline) -> Result<(), String> {
        self.klines += 1;
        Ok(())
    }

    fn on_order(&mut self, _engine: &mut Backtest, _order: &Order) -> Result<(), String> {
        self.orders += 1;
        Ok(())
    }
}

#[test]
fn noop_strategy_over_ten_minutes() {
    let mut b = Backtest::new(config()).unwrap();
    let mut s = Counter::default();
    b.run0(&mut s, eth_data()).unwrap();
    assert_eq!(b.cash(), Decimal::from_int(1000));
    assert!(b.long_size("ETHUSDT").is_zero());
    assert!(b.short_size("ETHUSDT").is_zero());
    assert_eq!(b.price_last("ETHUSDT"), Decimal::from_int(2000));
    // eleven ticks from begin to end inclusive
    assert_eq!(s.minutely, 11);
    assert_eq!(s.daily, 1);
    assert_eq!(s.hourly, 1);
    // the bar of the previous minute arrives on each tick after the first
    assert_eq!(s.klines, 10);
    assert_eq!(s.orders, 0);
}

#[test]
fn midnight_fires_daily_then_hourly_then_minutely() {
    let mut b = Backtest::new(config()).unwrap();
    let mut s = Counter::default();
    b.run0(&mut s, eth_data()).unwrap();
    assert_eq!(s.first_tick, vec!["daily", "hourly", "minutely"]);
}

#[derive(Default)]
struct BuyOnce {
    bought: bool,
    fills: Vec<(i64, Order)>,
}

impl Strategy for BuyOnce {
    fn on_init(&mut self, engine: &mut Backtest) -> Result<(), String> {
        engine.symbol_init("ETHUSDT").map_err(|e| e.message())?;
        engine.leverage_set("ETHUSDT", 2).map_err(|e| e.message())?;
        Ok(())
    }

    fn on_minutely(&mut self, engine: &mut Backtest) -> Result<(), String> {
        if !self.bought {
            engine
                .long_limit_open("ETHUSDT", Decimal::one(), Decimal::from_int(2000))
                .map_err(|e| e.message())?;
            self.bought = true;
        }
        Ok(())
    }

    fn on_order(&mut self, engine: &mut Backtest, order: &Order) -> Result<(), String> {
        self.fills.push((engine.time(), order.clone()));
        Ok(())
    }
}

#[test]
fn single_limit_long_fill() {
    let mut b = Backtest::new(config()).unwrap();
    let mut s = BuyOnce::default();
    b.run0(&mut s, eth_data()).unwrap();
    // the touched limit order crossed on its first matching tick
    assert_eq!(s.fills.len(), 1);
    assert_eq!(s.fills[0].0, T0 + 60_000);
    let fill = &s.fills[0].1;
    assert_eq!(fill.deal_price, Decimal::from_int(2000));
    assert_eq!(fill.deal_size, Decimal::one());
    // taker fee: 1.0 * 2000 * 0.0005 = 1
    assert_eq!(fill.deal_fee, Decimal::one());
    assert_eq!(b.orders("ETHUSDT").len(), 0);
    assert_eq!(b.long_size("ETHUSDT"), Decimal::one());
    assert_eq!(b.long_price("ETHUSDT"), Decimal::from_int(2000));
    assert_eq!(b.cash(), Decimal::from_int(999));
    // at leverage 2 the filled position freezes half its notional
    assert_eq!(b.cash_frozen().unwrap(), Decimal::from_int(1000));
    assert_eq!(b.cash_available().unwrap(), Decimal::from_int(-1));
    assert_eq!(b.pnl().unwrap(), Decimal::zero());
}

#[derive(Default)]
struct OpenThenClose {
    fills: u32,
}

impl Strategy for OpenThenClose {
    fn on_init(&mut self, engine: &mut Backtest) -> Result<(), String> {
        engine.symbol_init("ETHUSDT").map_err(|e| e.message())?;
        engine.leverage_set("ETHUSDT", 2).map_err(|e| e.message())?;
        Ok(())
    }

    fn on_minutely(&mut self, engine: &mut Backtest) -> Result<(), String> {
        if engine.time() == T0 {
            engine
                .long_limit_open("ETHUSDT", Decimal::one(), Decimal::from_int(2000))
                .map_err(|e| e.message())?;
        }
        if engine.time() == T0 + 120_000 {
            engine
                .long_market_close("ETHUSDT", Decimal::one())
                .map_err(|e| e.message())?;
        }
        Ok(())
    }

    fn on_order(&mut self, _engine: &mut Backtest, _order: &Order) -> Result<(), String> {
        self.fills += 1;
        Ok(())
    }
}

#[test]
fn open_then_close_at_flat_price() {
    let mut b = Backtest::new(config()).unwrap();
    let mut s = OpenThenClose::default();
    b.run0(&mut s, eth_data()).unwrap();
    assert_eq!(s.fills, 2);
    // two fees of 1.0 each, no realized profit at the flat price
    assert_eq!(b.cash(), Decimal::from_int(998));
    assert!(b.long_size("ETHUSDT").is_zero());
    assert!(b.long_price("ETHUSDT").is_zero());
    assert_eq!(b.cash_frozen().unwrap(), Decimal::zero());
    assert_eq!(b.cash_available().unwrap(), Decimal::from_int(998));
}

struct InitOnly {
    symbol: &'static str,
}

impl Strategy for InitOnly {
    fn on_init(&mut self, engine: &mut Backtest) -> Result<(), String> {
        engine.symbol_init(self.symbol).map_err(|e| e.message())?;
        Ok(())
    }
}

#[test]
fn funding_rate_observation() {
    let mut b = Backtest::new(config()).unwrap();
    let mut s = InitOnly { symbol: "BTCUSDT" };
    let data = vec![SymbolData {
        symbol: "BTCUSDT".to_string(),
        funding_rate: vec![FundingRateHistory {
            symbol: String::new(),
            mark_price: Decimal::zero(),
            rate: Decimal::from_scaled(10_000),
            time: T0,
        }],
        klines: Vec::new(),
        index_price_klines: Vec::new(),
        mark_price_klines: Vec::new(),
    }];
    b.run0(&mut s, data).unwrap();
    assert_eq!(b.price_settlement("BTCUSDT"), Decimal::from_scaled(10_000));
    assert_eq!(b.time_settlement("BTCUSDT"), T0 + 8 * 3_600_000);
    // no klines arrived, so no prices were written
    assert!(b.price_last("BTCUSDT").is_zero());
    assert!(b.price_mark("BTCUSDT").is_zero());
}

#[test]
fn rejected_submission_changes_nothing_in_a_run() {
    struct BadPrice {
        rejected: bool,
        fills: u32,
    }
    impl Strategy for BadPrice {
        fn on_init(&mut self, engine: &mut Backtest) -> Result<(), String> {
            engine.symbol_init("ETHUSDT").map_err(|e| e.message())?;
            Ok(())
        }

        fn on_minutely(&mut self, engine: &mut Backtest) -> Result<(), String> {
            // far above the allowed price band
            let r = engine.long_limit_open(
                "ETHUSDT",
                Decimal::one(),
                Decimal::from_scaled(10_000_000_000_000_001),
            );
            if matches!(r, Err(EngineError::PriceAboveMax)) {
                self.rejected = true;
            }
            Ok(())
        }

        fn on_order(&mut self, _engine: &mut Backtest, _order: &Order) -> Result<(), String> {
            self.fills += 1;
            Ok(())
        }
    }
    let mut b = Backtest::new(config()).unwrap();
    let mut s = BadPrice { rejected: false, fills: 0 };
    b.run0(&mut s, eth_data()).unwrap();
    assert!(s.rejected);
    assert_eq!(s.fills, 0);
    assert_eq!(b.orders("ETHUSDT").len(), 0);
    assert_eq!(b.cash(), Decimal::from_int(1000));
}

#[test]
fn run_validates_the_config() {
    let mut bad = config();
    bad.cash = Decimal::from_int(-5);
    let mut s = NoInit::default();
    assert!(matches!(
        Backtest::run(bad, &mut s, Vec::new()),
        Err(EngineError::NegativeCash)
    ));
}

#[derive(Default)]
struct ShortRoundTrip;

impl Strategy for ShortRoundTrip {
    fn on_init(&mut self, engine: &mut Backtest) -> Result<(), String> {
        engine.symbol_init("ETHUSDT").map_err(|e| e.message())?;
        engine.leverage_set("ETHUSDT", 2).map_err(|e| e.message())?;
        Ok(())
    }

    fn on_minutely(&mut self, engine: &mut Backtest) -> Result<(), String> {
        if engine.time() == T0 {
            engine
                .short_limit_open("ETHUSDT", Decimal::one(), Decimal::from_int(2000))
                .map_err(|e| e.message())?;
        }
        if engine.time() == T0 + 120_000 {
            engine
                .short_market_close("ETHUSDT", Decimal::one())
                .map_err(|e| e.message())?;
        }
        Ok(())
    }
}

#[test]
fn short_open_then_close_at_flat_price() {
    let mut b = Backtest::new(config()).unwrap();
    let mut s = ShortRoundTrip::default();
    b.run0(&mut s, eth_data()).unwrap();
    assert_eq!(b.cash(), Decimal::from_int(998));
    assert!(b.short_size("ETHUSDT").is_zero());
    assert!(b.short_price("ETHUSDT").is_zero());
}

#[derive(Default)]
struct RideTheMove;

impl Strategy for RideTheMove {
    fn on_init(&mut self, engine: &mut Backtest) -> Result<(), String> {
        engine.symbol_init("ETHUSDT").map_err(|e| e.message())?;
        engine.leverage_set("ETHUSDT", 2).map_err(|e| e.message())?;
        Ok(())
    }

    fn on_minutely(&mut self, engine: &mut Backtest) -> Result<(), String> {
        if engine.time() == T0 {
            engine
                .long_limit_open("ETHUSDT", Decimal::one(), Decimal::from_int(2000))
                .map_err(|e| e.message())?;
        }
        if engine.time() == T0 + 360_000 {
            engine
                .long_market_close("ETHUSDT", Decimal::one())
                .map_err(|e| e.message())?;
        }
        Ok(())
    }
}

#[test]
fn realized_profit_reaches_cash() {
    // flat at 2000 for five minutes, then a step up to 2100
    let mut bars = Vec::new();
    let mut i = 0i64;
    while i < 10 {
        bars.push(bar(T0 + i * 60_000, if i < 5 { 2000 } else { 2100 }));
        i += 1;
    }
    let data = vec![SymbolData {
        symbol: "ETHUSDT".to_string(),
        funding_rate: Vec::new(),
        klines: bars.clone(),
        index_price_klines: bars.clone(),
        mark_price_klines: bars,
    }];
    let mut b = Backtest::new(config()).unwrap();
    let mut s = RideTheMove::default();
    b.run0(&mut s, data).unwrap();
    // open fee 1.00 at 2000, close fee 1.05 at 2100, realized profit 100:
    // 1000 - 1.00 + 100 - 1.05 = 1097.95
    assert_eq!(b.cash(), Decimal::from_scaled(109_795_000_000));
    assert!(b.long_size("ETHUSDT").is_zero());
}

/// Checks the accounting identities from the engine's own accessors on
/// every tick of a run with a filled position and a resting reduce-only
/// order.
struct IdentityCheck {
    all_good: bool,
    saw_frozen_size: bool,
}

impl Strategy for IdentityCheck {
    fn on_init(&mut self, engine: &mut Backtest) -> Result<(), String> {
        engine.symbol_init("ETHUSDT").map_err(|e| e.message())?;
        engine.leverage_set("ETHUSDT", 2).map_err(|e| e.message())?;
        Ok(())
    }

    fn on_minutely(&mut self, engine: &mut Backtest) -> Result<(), String> {
        if engine.time() == T0 {
            engine
                .long_limit_open("ETHUSDT", Decimal::one(), Decimal::from_int(2000))
                .map_err(|e| e.message())?;
        }
        if engine.time() == T0 + 180_000 {
            // rests forever: a reduce-only limit sell far above the market
            engine
                .long_limit_close("ETHUSDT", Decimal::one(), Decimal::from_int(3000))
                .map_err(|e| e.message())?;
        }
        // cash_available + cash_frozen == cash + pnl
        let cash = engine.cash();
        let avail = engine.cash_available().unwrap();
        let frozen = engine.cash_frozen().unwrap();
        let pnl = engine.pnl().unwrap();
        if avail.checked_add(&frozen) != cash.checked_add(&pnl) {
            self.all_good = false;
        }
        // long_size_available + long_size_frozen == long_size
        let ls = engine.long_size("ETHUSDT");
        let lsa = engine.long_size_available("ETHUSDT").unwrap();
        let lsf = engine.long_size_frozen("ETHUSDT").unwrap();
        if lsa.checked_add(&lsf) != Some(ls) {
            self.all_good = false;
        }
        if lsf == Decimal::one() {
            self.saw_frozen_size = true;
        }
        Ok(())
    }
}

#[test]
fn accounting_identities_hold_on_every_tick() {
    let mut b = Backtest::new(config()).unwrap();
    let mut s = IdentityCheck { all_good: true, saw_frozen_size: false };
    b.run0(&mut s, eth_data()).unwrap();
    assert!(s.all_good);
    // the resting reduce-only order really froze the position
    assert!(s.saw_frozen_size);
    assert_eq!(b.long_size_frozen("ETHUSDT").unwrap(), Decimal::one());
    assert_eq!(b.long_size_available("ETHUSDT").unwrap(), Decimal::zero());
}
