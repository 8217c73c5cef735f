use destiny::backtest::{Backtest, BacktestConfig};
use destiny::decimal::Decimal;
use destiny::errors::EngineError;
use destiny::ids::gen_id;
use destiny::time::Time;

fn config() -> BacktestConfig {
    BacktestConfig::with_defaults(
        Time { year: 2024, month: 1, day: 1, hour: 0, minute: 0, second: 0 },
        Time { year: 2024, month: 1, day: 1, hour: 0, minute: 10, second: 0 },
    )
}

fn engine() -> Backtest {
    Backtest::new(config()).unwrap()
}

#[test]
fn config_validation() {
    let mut bad_time = config();
    bad_time.end = bad_time.begin;
    assert!(matches!(Backtest::new(bad_time), Err(EngineError::InvalidTimeRange)));

    let mut invalid_date = config();
    invalid_date.begin = Time { year: 2024, month: 13, day: 1, hour: 0, minute: 0, second: 0 };
    assert!(matches!(Backtest::new(invalid_date), Err(EngineError::InvalidTimeRange)));

    let mut negative_cash = config();
    negative_cash.cash = Decimal::from_int(-1);
    assert!(matches!(Backtest::new(negative_cash), Err(EngineError::NegativeCash)));

    let mut negative_rate = config();
    negative_rate.fee_rate_maker = Decimal::from_scaled(-1);
    assert!(matches!(Backtest::new(negative_rate), Err(EngineError::NegativeRate)));

    // sub-minute parts are truncated away before the comparison
    let mut seconds_only = config();
    seconds_only.end = Time { second: 30, ..seconds_only.begin };
    assert!(matches!(Backtest::new(seconds_only), Err(EngineError::InvalidTimeRange)));
}

#[test]
fn symbol_init_rejects_duplicates() {
    let mut b = engine();
    assert!(b.symbol_init("ETHUSDT").is_ok());
    assert!(matches!(b.symbol_init("ETHUSDT"), Err(EngineError::DuplicateSymbol)));
    assert!(b.symbol_init("BTCUSDT").is_ok());
    // one position per distinct symbol
    let symbols = b.symbols();
    assert_eq!(symbols.len(), 2);
    assert_eq!(symbols[0], "ETHUSDT");
    assert_eq!(symbols[1], "BTCUSDT");
}

#[test]
fn leverage_set_validates_and_is_idempotent() {
    let mut b = engine();
    b.symbol_init("ETHUSDT").unwrap();
    assert!(matches!(b.leverage_set("ETHUSDT", 0), Err(EngineError::InvalidLeverage)));
    assert!(matches!(b.leverage_set("BTCUSDT", 5), Err(EngineError::UnknownSymbol)));
    assert_eq!(b.leverage("ETHUSDT"), 1);
    b.leverage_set("ETHUSDT", 20).unwrap();
    assert_eq!(b.leverage("ETHUSDT"), 20);
    b.leverage_set("ETHUSDT", 20).unwrap();
    assert_eq!(b.leverage("ETHUSDT"), 20);
}

#[test]
fn submission_validation_pipeline() {
    let mut b = engine();
    b.symbol_init("ETHUSDT").unwrap();

    let one = Decimal::one();
    assert!(matches!(
        b.long_limit_open("BTCUSDT", one, one),
        Err(EngineError::UnknownSymbol)
    ));
    // one unit below the minimum size is zero, which is rejected
    assert!(matches!(
        b.long_limit_open("ETHUSDT", Decimal::zero(), one),
        Err(EngineError::SizeBelowMin)
    ));
    // one unit above the maximum size
    assert!(matches!(
        b.long_limit_open("ETHUSDT", Decimal::from_scaled(10_000_000_000_000_001), one),
        Err(EngineError::SizeAboveMax)
    ));
    assert!(matches!(
        b.long_limit_open("ETHUSDT", one, Decimal::zero()),
        Err(EngineError::PriceBelowMin)
    ));
    assert!(matches!(
        b.long_limit_open("ETHUSDT", one, Decimal::from_scaled(10_000_000_000_000_001)),
        Err(EngineError::PriceAboveMax)
    ));
    // notional one unit below the minimum amount: 10^-8 * 0.5 truncates to 0
    assert!(matches!(
        b.long_limit_open("ETHUSDT", Decimal::from_scaled(1), Decimal::from_scaled(50_000_000)),
        Err(EngineError::AmountBelowMin)
    ));
    // margin above available cash
    assert!(matches!(
        b.long_limit_open("ETHUSDT", one, Decimal::from_int(2000)),
        Err(EngineError::InsufficientCash)
    ));
    // closing without holdings
    assert!(matches!(
        b.long_market_close("ETHUSDT", one),
        Err(EngineError::InsufficientPosition)
    ));
    // nothing was booked by any of the rejections
    assert_eq!(b.orders("ETHUSDT").len(), 0);
    assert_eq!(b.cash(), Decimal::from_int(1000));
}

#[test]
fn submission_boundaries_succeed() {
    let mut b = engine();
    b.symbol_init("ETHUSDT").unwrap();
    // exactly the minimum size, with a price that keeps the notional legal
    let id1 = b.long_limit_open("ETHUSDT", Decimal::from_scaled(1), Decimal::one()).unwrap();
    assert_eq!(id1.len(), 32);
    // exactly the maximum size at the minimum price
    let id2 = b
        .long_limit_open(
            "ETHUSDT",
            Decimal::from_int(100_000_000),
            Decimal::from_scaled(1),
        )
        .unwrap();
    assert_ne!(id1, id2);
    let orders = b.orders("ETHUSDT");
    assert_eq!(orders.len(), 2);
    assert_eq!(orders[0].id, id1);
    assert_eq!(orders[1].id, id2);
    // sizes were quantized to the grid and stored as submitted
    assert_eq!(orders[1].size, Decimal::from_int(100_000_000));
}

#[test]
fn submit_then_cancel_restores_the_account() {
    let mut b = engine();
    b.symbol_init("ETHUSDT").unwrap();
    let cash_before = b.cash();
    let avail_before = b.cash_available().unwrap();
    let id = b.long_limit_open("ETHUSDT", Decimal::one(), Decimal::from_int(100)).unwrap();
    // the resting order freezes its margin
    assert_eq!(b.cash_frozen().unwrap(), Decimal::from_int(100));
    assert_eq!(b.cash_available().unwrap(), Decimal::from_int(900));
    b.order_close("ETHUSDT", id.as_str()).unwrap();
    assert_eq!(b.orders("ETHUSDT").len(), 0);
    assert_eq!(b.cash(), cash_before);
    assert_eq!(b.cash_available().unwrap(), avail_before);
    assert!(b.long_size("ETHUSDT").is_zero());
    // cancelling an absent id is silently ignored
    b.order_close("ETHUSDT", "0123456789abcdef0123456789abcdef").unwrap();
}

#[test]
fn cancel_many_and_filters() {
    let mut b = engine();
    b.symbol_init("ETHUSDT").unwrap();
    let a = b.long_limit_open("ETHUSDT", Decimal::one(), Decimal::from_int(10)).unwrap();
    let c = b.short_limit_open("ETHUSDT", Decimal::one(), Decimal::from_int(20)).unwrap();
    assert_eq!(b.orders_long("ETHUSDT").len(), 1);
    assert_eq!(b.orders_long_open("ETHUSDT").len(), 1);
    assert_eq!(b.orders_long_close("ETHUSDT").len(), 0);
    assert_eq!(b.orders_short("ETHUSDT").len(), 1);
    assert_eq!(b.orders_short_open("ETHUSDT").len(), 1);
    assert_eq!(b.orders_short_close("ETHUSDT").len(), 0);
    assert!(b.order("ETHUSDT", a.as_str()).is_some());
    assert!(b.order("ETHUSDT", "nope").is_none());
    b.order_cancel_many("ETHUSDT", &vec![a.clone(), c.clone()]).unwrap();
    assert_eq!(b.orders("ETHUSDT").len(), 0);
    // with no ids nothing is checked, as in the loop the list drives
    b.order_cancel_many("BTCUSDT", &Vec::new()).unwrap();
    assert!(matches!(
        b.order_cancel_many("BTCUSDT", &vec![a]),
        Err(EngineError::UnknownSymbol)
    ));
}

#[test]
fn generated_identifiers_are_32_hex_chars() {
    let id = gen_id();
    assert_eq!(id.len(), 32);
    for c in id.chars() {
        assert!(c.is_ascii_hexdigit() && !c.is_ascii_uppercase());
    }
    assert_ne!(gen_id(), gen_id());
}
