use destiny::decimal::Decimal;
use destiny::enums::KlineInterval;
use destiny::history::{HistoryDataStream, SyncHistoryMeta};
use destiny::models::Kline;

fn bar(open_time: i64) -> Kline {
    Kline {
        symbol: String::new(),
        open_time,
        open: Decimal::zero(),
        high: Decimal::zero(),
        low: Decimal::zero(),
        close: Decimal::from_int(2000),
        size: Decimal::one(),
        cash: Decimal::zero(),
        buy_size: Decimal::zero(),
        buy_cash: Decimal::zero(),
        trades: 0,
    }
}

#[test]
fn stream_take_peeks_and_consumes() {
    let mut s = HistoryDataStream::new(vec![bar(0), bar(60_000), bar(180_000)]);
    // an exact hit is consumed
    let first = s.take(0).unwrap();
    assert_eq!(first.open_time, 0);
    // consuming it means asking again finds the next record pending
    assert!(s.take(0).is_none());
    let second = s.take(60_000).unwrap();
    assert_eq!(second.open_time, 60_000);
    // a pending future record is left in place across misses
    assert!(s.take(120_000).is_none());
    let third = s.take(180_000).unwrap();
    assert_eq!(third.open_time, 180_000);
    // the stream is exhausted
    assert!(s.take(240_000).is_none());
}

#[test]
fn stream_take_skips_records_before_the_probe() {
    let mut s = HistoryDataStream::new(vec![bar(0), bar(60_000), bar(120_000)]);
    // probing past the head discards everything earlier
    let hit = s.take(120_000).unwrap();
    assert_eq!(hit.open_time, 120_000);
    assert!(s.take(180_000).is_none());
}

#[test]
fn archive_urls() {
    let m = SyncHistoryMeta::funding_rate("ETHUSDT", 2024, 3);
    assert_eq!(
        m.url(),
        "https://data.binance.vision/data/futures/um/monthly/fundingRate/ETHUSDT/ETHUSDT-fundingRate-2024-03.zip"
    );
    let k = SyncHistoryMeta::klines("BTCUSDT", KlineInterval::M1, 2020, 11);
    assert_eq!(
        k.url(),
        "https://data.binance.vision/data/futures/um/monthly/klines/BTCUSDT/1m/BTCUSDT-1m-2020-11.zip"
    );
    let a = SyncHistoryMeta::agg_trades("SOLUSDT", 2021, 7);
    assert_eq!(
        a.url(),
        "https://data.binance.vision/data/futures/um/monthly/aggTrades/SOLUSDT/SOLUSDT-aggTrades-2021-07.zip"
    );
}

#[test]
fn archive_paths_and_file_names() {
    let m = SyncHistoryMeta::mark_price_klines("ETHUSDT", KlineInterval::M1, 2024, 3);
    assert_eq!(m.save_path(), "ETHUSDT/markPriceKlines/1m");
    assert_eq!(m.save_file_name(), "202403.csv");
    let t = SyncHistoryMeta::trades("ETHUSDT", 2024, 12);
    assert_eq!(t.save_path(), "ETHUSDT/trades");
    assert_eq!(t.save_file_name(), "202412.csv");
    let b = SyncHistoryMeta::book_ticker("ETHUSDT", 2024, 1);
    assert_eq!(b.save_path(), "ETHUSDT/bookTicker");
    let i = SyncHistoryMeta::index_price_klines("ETHUSDT", KlineInterval::H1, 2024, 1);
    assert_eq!(i.save_path(), "ETHUSDT/indexPriceKlines/1h");
    let p = SyncHistoryMeta::premium_index_klines("ETHUSDT", KlineInterval::M5, 2024, 1);
    assert_eq!(p.save_path(), "ETHUSDT/premiumIndexKlines/5m");
}

#[test]
fn archive_descriptions() {
    let m = SyncHistoryMeta::funding_rate("ETHUSDT", 2024, 3);
    assert_eq!(m.desc(), "date(2024-03), symbol(ETHUSDT), kind(fundingRate)");
    let k = SyncHistoryMeta::klines("BTCUSDT", KlineInterval::M1, 2024, 10);
    assert_eq!(k.desc(), "date(2024-10), symbol(BTCUSDT), kind(klines), interval(1m)");
}
