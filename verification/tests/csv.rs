use destiny::csv::{parse_decimal, parse_i64, split_str};
use destiny::decimal::Decimal;
use destiny::errors::EngineError;
use destiny::history::HistoryData;
use destiny::models::{FundingRateHistory, Kline};

#[test]
fn splitting_on_commas() {
    let fields = split_str("a,bb,,c", ',');
    assert_eq!(fields.len(), 4);
    assert_eq!(fields[0], "a");
    assert_eq!(fields[1], "bb");
    assert_eq!(fields[2], "");
    assert_eq!(fields[3], "c");
    let single = split_str("abc", ',');
    assert_eq!(single.len(), 1);
    assert_eq!(single[0], "abc");
}

#[test]
fn decimal_parsing_is_exact() {
    assert_eq!(parse_decimal("0").unwrap(), Decimal::zero());
    assert_eq!(parse_decimal("2000.0").unwrap(), Decimal::from_int(2000));
    assert_eq!(parse_decimal("0.0005").unwrap(), Decimal::from_scaled(50_000));
    assert_eq!(parse_decimal("-0.0001").unwrap(), Decimal::from_scaled(-10_000));
    // the ninth fractional digit is truncated toward zero
    assert_eq!(parse_decimal("0.123456789").unwrap(), Decimal::from_scaled(12_345_678));
    assert_eq!(parse_decimal("-0.123456789").unwrap(), Decimal::from_scaled(-12_345_678));
}

#[test]
fn decimal_parsing_rejects_malformed_text() {
    assert!(parse_decimal("").is_none());
    assert!(parse_decimal("-").is_none());
    assert!(parse_decimal(".5").is_none());
    assert!(parse_decimal("5.").is_none());
    assert!(parse_decimal("1.2.3").is_none());
    assert!(parse_decimal("1e5").is_none());
    assert!(parse_decimal("12a").is_none());
    // out of the representable range
    assert!(parse_decimal("100000000000000000000000").is_none());
}

#[test]
fn integer_parsing() {
    assert_eq!(parse_i64("0").unwrap(), 0);
    assert_eq!(parse_i64("1704067200000").unwrap(), 1_704_067_200_000);
    assert_eq!(parse_i64("-42").unwrap(), -42);
    assert_eq!(parse_i64("9223372036854775807").unwrap(), i64::MAX);
    assert_eq!(parse_i64("-9223372036854775808").unwrap(), i64::MIN);
    assert!(parse_i64("9223372036854775808").is_none());
    assert!(parse_i64("").is_none());
    assert!(parse_i64("1.5").is_none());
}

#[test]
fn kline_row_decoding() {
    let row = "1704067200123,2000.5,2010.0,1990.25,2005.125,3.5,1704067259999,7000.0,42,1.25,2500.0,0";
    let fields = split_str(row, ',');
    let k = Kline::decode(&fields).unwrap();
    // the open time is truncated to its minute
    assert_eq!(k.open_time, 1_704_067_200_000);
    assert_eq!(k.open, Decimal::from_scaled(200_050_000_000));
    assert_eq!(k.high, Decimal::from_int(2010));
    assert_eq!(k.low, Decimal::from_scaled(199_025_000_000));
    assert_eq!(k.close, Decimal::from_scaled(200_512_500_000));
    assert_eq!(k.size, Decimal::from_scaled(350_000_000));
    assert_eq!(k.cash, Decimal::from_int(7000));
    assert_eq!(k.trades, 42);
    assert_eq!(k.buy_size, Decimal::from_scaled(125_000_000));
    assert_eq!(k.buy_cash, Decimal::from_int(2500));
}

#[test]
fn kline_row_rejects_bad_fields() {
    let short = split_str("1,2,3", ',');
    assert!(matches!(Kline::decode(&short), Err(EngineError::BadHistoryData)));
    let bad = split_str("x,2000,2000,2000,2000,1,0,1,1,1,1,0", ',');
    assert!(matches!(Kline::decode(&bad), Err(EngineError::BadHistoryData)));
}

#[test]
fn funding_row_decoding() {
    let fields = split_str("1704067200001,BTCUSDT,0.0001,2000.0", ',');
    let f = FundingRateHistory::decode(&fields).unwrap();
    // the funding time is truncated to its hour
    assert_eq!(f.time, 1_704_067_200_000);
    assert_eq!(f.rate, Decimal::from_scaled(10_000));
    assert!(f.mark_price.is_zero());
}

#[test]
fn csv_text_reading() {
    let text = "1704067200000,2000.0,2000.0,2000.0,2000.0,1.0,0,2000.0,1,0.5,1000.0,0\n1704067260000,2001.0,2001.0,2001.0,2001.0,1.0,0,2001.0,1,0.5,1000.0,0\n";
    let ks = HistoryData::csv_read_klines(text).unwrap();
    assert_eq!(ks.len(), 2);
    assert_eq!(ks[0].open_time, 1_704_067_200_000);
    assert_eq!(ks[1].close, Decimal::from_int(2001));
    let bad = HistoryData::csv_read_klines("not,a,row\n");
    assert!(matches!(bad, Err(EngineError::BadHistoryData)));
    let empty = HistoryData::csv_read_klines("");
    assert_eq!(empty.unwrap().len(), 0);
    let frs = HistoryData::csv_read_funding_rates("1704067200000,BTCUSDT,0.0001,0\n").unwrap();
    assert_eq!(frs.len(), 1);
    assert_eq!(frs[0].rate, Decimal::from_scaled(10_000));
}
