//! Historical market data: record decoding, the chronological streams the
//! event loop consumes, and the naming scheme of the monthly archive
//! files.

use crate::csv::{
    dec_text_ok, dec_text_raw, int_text_ok, int_text_val, parse_decimal, parse_i64, split_on,
    split_str,
};
use crate::decimal::{d_fits, Decimal};
use crate::enums::KlineInterval;
use crate::errors::EngineError;
use crate::models::{FundingRateHistory, FundingRateHistoryV, Kline, KlineV};
use crate::text::{int_text, two_wide};
use crate::text::push_int;
use crate::text::push_pad2;
use crate::time::{ms_truncate_hour, ms_truncate_minute, MS_PER_HOUR, MS_PER_MINUTE};
use vstd::prelude::*;
use vstd::string::StrSliceExecFns;
use vstd::string::StringExecFns;

verus! {

// ---------------------------------------------------------------------------
// Record decoding
// ---------------------------------------------------------------------------
/// A record of a history stream: it has a primary timestamp and can be
/// copied out of the stream.
pub trait DecodeCsvRecordItem: Sized {
    /// The primary timestamp, in epoch milliseconds.
    spec fn time_of(&self) -> int;

    /// The primary timestamp, in epoch milliseconds.
    fn datetime(&self) -> (r: i64)
        ensures
            r as int == self.time_of(),
    ;

    /// An exact copy.
    fn duplicate(&self) -> (r: Self)
        ensures
            r == *self,
    ;
}

impl DecodeCsvRecordItem for Kline {
    open spec fn time_of(&self) -> int {
        self.open_time as int
    }

    fn datetime(&self) -> (r: i64)
        ensures
            r as int == self.time_of(),
    {
        self.open_time
    }

    fn duplicate(&self) -> (r: Self)
        ensures
            r == *self,
    {
        self.clone()
    }
}

impl DecodeCsvRecordItem for FundingRateHistory {
    open spec fn time_of(&self) -> int {
        self.time as int
    }

    fn datetime(&self) -> (r: i64)
        ensures
            r as int == self.time_of(),
    {
        self.time
    }

    fn duplicate(&self) -> (r: Self)
        ensures
            r == *self,
    {
        self.clone()
    }
}

/// Is field `i` a decimal number that fits?
pub open spec fn dec_field_ok(fields: Seq<Seq<char>>, i: int) -> bool {
    dec_text_ok(fields[i]) && d_fits(dec_text_raw(fields[i]))
}

/// Is field `i` an `i64`?
pub open spec fn int_field_ok(fields: Seq<Seq<char>>, i: int) -> bool {
    int_text_ok(fields[i]) && i64::MIN <= int_text_val(fields[i]) <= i64::MAX
}

/// A well-formed kline row: open-time milliseconds, four prices, base and
/// quote volumes, a trade count, and taker volumes, in the archive column
/// order.
pub open spec fn kline_row_ok(fields: Seq<Seq<char>>) -> bool {
    &&& fields.len() >= 11
    &&& int_field_ok(fields, 0) && int_text_val(fields[0]) >= 0
    &&& dec_field_ok(fields, 1)
    &&& dec_field_ok(fields, 2)
    &&& dec_field_ok(fields, 3)
    &&& dec_field_ok(fields, 4)
    &&& dec_field_ok(fields, 5)
    &&& dec_field_ok(fields, 7)
    &&& int_field_ok(fields, 8)
    &&& dec_field_ok(fields, 9)
    &&& dec_field_ok(fields, 10)
}

/// The kline a well-formed row decodes to: the open time truncated to its
/// minute, every numeric field truncated to the eight-digit scale.
pub open spec fn kline_decode_v(fields: Seq<Seq<char>>) -> KlineV {
    KlineV {
        symbol: Seq::empty(),
        open_time: (int_text_val(fields[0]) / (MS_PER_MINUTE as int)) * (MS_PER_MINUTE as int),
        open: dec_text_raw(fields[1]),
        high: dec_text_raw(fields[2]),
        low: dec_text_raw(fields[3]),
        close: dec_text_raw(fields[4]),
        size: dec_text_raw(fields[5]),
        cash: dec_text_raw(fields[7]),
        buy_size: dec_text_raw(fields[9]),
        buy_cash: dec_text_raw(fields[10]),
        trades: int_text_val(fields[8]),
    }
}

/// A well-formed funding-rate row: funding-time milliseconds and a rate in
/// the third column.
pub open spec fn funding_row_ok(fields: Seq<Seq<char>>) -> bool {
    &&& fields.len() >= 3
    &&& int_field_ok(fields, 0) && int_text_val(fields[0]) >= 0
    &&& dec_field_ok(fields, 2)
}

/// The funding-rate record a well-formed row decodes to: the time
/// truncated to its hour.
pub open spec fn funding_decode_v(fields: Seq<Seq<char>>) -> FundingRateHistoryV {
    FundingRateHistoryV {
        symbol: Seq::empty(),
        mark_price: 0,
        rate: dec_text_raw(fields[2]),
        time: (int_text_val(fields[0]) / (MS_PER_HOUR as int)) * (MS_PER_HOUR as int),
    }
}

impl Kline {
    /// Decode one archive kline row.
    pub fn decode(fields: &Vec<String>) -> (r: Result<Kline, EngineError>)
        ensures
            ({
                let fv = fields@.map_values(|f: String| f@);
                match r {
                    Ok(k) => kline_row_ok(fv) && k@ == kline_decode_v(fv),
                    Err(e) => e == EngineError::BadHistoryData && !kline_row_ok(fv),
                }
            }),
    {
        if fields.len() < 11 {
            return Err(EngineError::BadHistoryData);
        }
        let ms = match parse_i64(fields[0].as_str()) {
            Some(v) => v,
            None => {
                return Err(EngineError::BadHistoryData);
            },
        };
        if ms < 0 {
            return Err(EngineError::BadHistoryData);
        }
        let open = match parse_decimal(fields[1].as_str()) {
            Some(v) => v,
            None => {
                return Err(EngineError::BadHistoryData);
            },
        };
        let high = match parse_decimal(fields[2].as_str()) {
            Some(v) => v,
            None => {
                return Err(EngineError::BadHistoryData);
            },
        };
        let low = match parse_decimal(fields[3].as_str()) {
            Some(v) => v,
            None => {
                return Err(EngineError::BadHistoryData);
            },
        };
        let close = match parse_decimal(fields[4].as_str()) {
            Some(v) => v,
            None => {
                return Err(EngineError::BadHistoryData);
            },
        };
        let size = match parse_decimal(fields[5].as_str()) {
            Some(v) => v,
            None => {
                return Err(EngineError::BadHistoryData);
            },
        };
        let cash = match parse_decimal(fields[7].as_str()) {
            Some(v) => v,
            None => {
                return Err(EngineError::BadHistoryData);
            },
        };
        let trades = match parse_i64(fields[8].as_str()) {
            Some(v) => v,
            None => {
                return Err(EngineError::BadHistoryData);
            },
        };
        let buy_size = match parse_decimal(fields[9].as_str()) {
            Some(v) => v,
            None => {
                return Err(EngineError::BadHistoryData);
            },
        };
        let buy_cash = match parse_decimal(fields[10].as_str()) {
            Some(v) => v,
            None => {
                return Err(EngineError::BadHistoryData);
            },
        };
        Ok(
            Kline {
                symbol: String::new(),
                open_time: ms_truncate_minute(ms),
                open,
                high,
                low,
                close,
                size,
                cash,
                buy_size,
                buy_cash,
                trades,
            },
        )
    }
}

impl FundingRateHistory {
    /// Decode one archive funding-rate row.
    pub fn decode(fields: &Vec<String>) -> (r: Result<FundingRateHistory, EngineError>)
        ensures
            ({
                let fv = fields@.map_values(|f: String| f@);
                match r {
                    Ok(k) => funding_row_ok(fv) && k@ == funding_decode_v(fv),
                    Err(e) => e == EngineError::BadHistoryData && !funding_row_ok(fv),
                }
            }),
    {
        if fields.len() < 3 {
            return Err(EngineError::BadHistoryData);
        }
        let ms = match parse_i64(fields[0].as_str()) {
            Some(v) => v,
            None => {
                return Err(EngineError::BadHistoryData);
            },
        };
        if ms < 0 {
            return Err(EngineError::BadHistoryData);
        }
        let rate = match parse_decimal(fields[2].as_str()) {
            Some(v) => v,
            None => {
                return Err(EngineError::BadHistoryData);
            },
        };
        Ok(
            FundingRateHistory {
                symbol: String::new(),
                mark_price: Decimal::zero(),
                rate,
                time: ms_truncate_hour(ms),
            },
        )
    }
}

// ---------------------------------------------------------------------------
// Reading whole CSV texts
// ---------------------------------------------------------------------------
/// The views of a sequence of klines.
pub open spec fn kline_views(ks: Seq<Kline>) -> Seq<KlineV> {
    Seq::new(ks.len(), |i: int| ks[i]@)
}

/// The views of a sequence of funding-rate records.
pub open spec fn funding_views(ks: Seq<FundingRateHistory>) -> Seq<FundingRateHistoryV> {
    Seq::new(ks.len(), |i: int| ks[i]@)
}

/// Decode the nonempty lines of a kline CSV text, in order; the first bad
/// row fails the whole text.
pub open spec fn kline_rows_v(lines: Seq<Seq<char>>) -> Result<Seq<KlineV>, EngineError>
    decreases lines.len(),
{
    if lines.len() == 0 {
        Ok(Seq::empty())
    } else {
        match kline_rows_v(lines.drop_last()) {
            Err(e) => Err(e),
            Ok(acc) => {
                let line = lines.last();
                if line.len() == 0 {
                    Ok(acc)
                } else if kline_row_ok(split_on(line, ',')) {
                    Ok(acc.push(kline_decode_v(split_on(line, ','))))
                } else {
                    Err(EngineError::BadHistoryData)
                }
            },
        }
    }
}

/// Decode the nonempty lines of a funding-rate CSV text, in order.
pub open spec fn funding_rows_v(lines: Seq<Seq<char>>) -> Result<
    Seq<FundingRateHistoryV>,
    EngineError,
>
    decreases lines.len(),
{
    if lines.len() == 0 {
        Ok(Seq::empty())
    } else {
        match funding_rows_v(lines.drop_last()) {
            Err(e) => Err(e),
            Ok(acc) => {
                let line = lines.last();
                if line.len() == 0 {
                    Ok(acc)
                } else if funding_row_ok(split_on(line, ',')) {
                    Ok(acc.push(funding_decode_v(split_on(line, ','))))
                } else {
                    Err(EngineError::BadHistoryData)
                }
            },
        }
    }
}

/// Reader for whole monthly CSV files held in memory.
pub struct HistoryData;

impl HistoryData {
    /// Decode a kline CSV text, one record per nonempty line.
    #[verifier::loop_isolation(false)]
    pub fn csv_read_klines(text: &str) -> (r: Result<Vec<Kline>, EngineError>)
        ensures
            match r {
                Ok(ks) => kline_rows_v(split_on(text@, '\n')) == Ok::<Seq<KlineV>, EngineError>(
                    kline_views(ks@),
                ),
                Err(e) => kline_rows_v(split_on(text@, '\n')) == Err::<Seq<KlineV>, EngineError>(
                    e,
                ),
            },
    {
        let lines = split_str(text, '\n');
        let ghost lv = lines@.map_values(|f: String| f@);
        let mut out: Vec<Kline> = Vec::new();
        let mut i: usize = 0;
        proof {
            assert(lv.take(0) =~= Seq::<Seq<char>>::empty());
            assert(kline_views(out@) =~= Seq::<KlineV>::empty());
        }
        while i < lines.len()
            invariant
                i <= lines@.len(),
                kline_rows_v(lv.take(i as int)) == Ok::<Seq<KlineV>, EngineError>(
                    kline_views(out@),
                ),
            decreases lines@.len() - i,
        {
            proof {
                assert(lv.take(i as int + 1).drop_last() =~= lv.take(i as int));
                assert(lv.take(i as int + 1).last() == lv[i as int]);
            }
            let line = &lines[i];
            if line.as_str().unicode_len() > 0 {
                let fields = split_str(line.as_str(), ',');
                match Kline::decode(&fields) {
                    Ok(k) => {
                        let ghost pre = out@;
                        out.push(k);
                        proof {
                            assert(kline_views(out@) =~= kline_views(pre).push(k@));
                        }
                    },
                    Err(e) => {
                        proof {
                            lemma_kline_rows_err(lv, i as int + 1);
                        }
                        return Err(e);
                    },
                }
            }
            i = i + 1;
        }
        proof {
            assert(lv.take(lines@.len() as int) =~= lv);
        }
        Ok(out)
    }

    /// Decode a funding-rate CSV text, one record per nonempty line.
    #[verifier::loop_isolation(false)]
    pub fn csv_read_funding_rates(text: &str) -> (r: Result<Vec<FundingRateHistory>, EngineError>)
        ensures
            match r {
                Ok(ks) => funding_rows_v(split_on(text@, '\n')) == Ok::<
                    Seq<FundingRateHistoryV>,
                    EngineError,
                >(funding_views(ks@)),
                Err(e) => funding_rows_v(split_on(text@, '\n')) == Err::<
                    Seq<FundingRateHistoryV>,
                    EngineError,
                >(e),
            },
    {
        let lines = split_str(text, '\n');
        let ghost lv = lines@.map_values(|f: String| f@);
        let mut out: Vec<FundingRateHistory> = Vec::new();
        let mut i: usize = 0;
        proof {
            assert(lv.take(0) =~= Seq::<Seq<char>>::empty());
            assert(funding_views(out@) =~= Seq::<FundingRateHistoryV>::empty());
        }
        while i < lines.len()
            invariant
                i <= lines@.len(),
                funding_rows_v(lv.take(i as int)) == Ok::<Seq<FundingRateHistoryV>, EngineError>(
                    funding_views(out@),
                ),
            decreases lines@.len() - i,
        {
            proof {
                assert(lv.take(i as int + 1).drop_last() =~= lv.take(i as int));
                assert(lv.take(i as int + 1).last() == lv[i as int]);
            }
            let line = &lines[i];
            if line.as_str().unicode_len() > 0 {
                let fields = split_str(line.as_str(), ',');
                match FundingRateHistory::decode(&fields) {
                    Ok(k) => {
                        let ghost pre = out@;
                        out.push(k);
                        proof {
                            assert(funding_views(out@) =~= funding_views(pre).push(k@));
                        }
                    },
                    Err(e) => {
                        proof {
                            lemma_funding_rows_err(lv, i as int + 1);
                        }
                        return Err(e);
                    },
                }
            }
            i = i + 1;
        }
        proof {
            assert(lv.take(lines@.len() as int) =~= lv);
        }
        Ok(out)
    }
}

/// Once a kline fold fails on a prefix, it fails on the whole text.
proof fn lemma_kline_rows_err(lines: Seq<Seq<char>>, j: int)
    requires
        0 <= j <= lines.len(),
        kline_rows_v(lines.take(j)) is Err,
    ensures
        kline_rows_v(lines) == kline_rows_v(lines.take(j)),
    decreases lines.len() - j,
{
    if j == lines.len() {
        assert(lines.take(j) =~= lines);
    } else {
        assert(lines.take(j + 1).drop_last() =~= lines.take(j));
        lemma_kline_rows_err(lines, j + 1);
    }
}

/// Once a funding fold fails on a prefix, it fails on the whole text.
proof fn lemma_funding_rows_err(lines: Seq<Seq<char>>, j: int)
    requires
        0 <= j <= lines.len(),
        funding_rows_v(lines.take(j)) is Err,
    ensures
        funding_rows_v(lines) == funding_rows_v(lines.take(j)),
    decreases lines.len() - j,
{
    if j == lines.len() {
        assert(lines.take(j) =~= lines);
    } else {
        assert(lines.take(j + 1).drop_last() =~= lines.take(j));
        lemma_funding_rows_err(lines, j + 1);
    }
}

// ---------------------------------------------------------------------------
// Streams
// ---------------------------------------------------------------------------
/// The kinds of history streams the engine consumes.
#[derive(Clone, Copy, PartialEq, Eq, Structural, Debug)]
pub enum HistoryDataStreamType {
    FundingRate,
    IndexPriceKlines,
    Klines,
    MarkPriceKlines,
    PremiumIndexKlines,
}

/// Cursor position after advancing from `c` to the first record at or
/// after `at`.
pub open spec fn seek_from<T: DecodeCsvRecordItem>(records: Seq<T>, c: int, at: int) -> int
    decreases records.len() - c,
    when 0 <= c <= records.len()
{
    if c >= records.len() {
        c
    } else if records[c].time_of() >= at {
        c
    } else {
        seek_from(records, c + 1, at)
    }
}

/// A lazy, finite, non-restartable chronological sequence of records with
/// a peek-and-consume interface.
pub struct HistoryDataStream<T: DecodeCsvRecordItem> {
    records: Vec<T>,
    cursor: usize,
}

impl<T: DecodeCsvRecordItem> HistoryDataStream<T> {
    /// The cursor never leaves the record list.
    #[verifier::type_invariant]
    pub open spec fn wf(self) -> bool {
        0 <= self.spec_cursor() <= self.spec_records().len()
    }

    /// The records this stream serves.
    pub closed spec fn spec_records(&self) -> Seq<T> {
        self.records@
    }

    /// How many records have been consumed or passed over.
    pub closed spec fn spec_cursor(&self) -> int {
        self.cursor as int
    }

    /// A stream serving `records`, which are expected in ascending time
    /// order as the monthly archive files store them.
    pub fn new(records: Vec<T>) -> (r: HistoryDataStream<T>)
        ensures
            r.spec_records() == records@,
            r.spec_cursor() == 0,
    {
        HistoryDataStream { records, cursor: 0 }
    }

    /// Advance to the first pending record at or after `at`; consume and
    /// return it when its timestamp is exactly `at`, else leave it
    /// pending.
    pub fn take(&mut self, at: i64) -> (r: Option<T>)
        ensures
            final(self).spec_records() == old(self).spec_records(),
            ({
                let rs = old(self).spec_records();
                let c0 = old(self).spec_cursor();
                let s = seek_from(rs, c0, at as int);
                if s < rs.len() && rs[s].time_of() == at as int {
                    r matches Some(x) && x == rs[s] && final(self).spec_cursor() == s + 1
                } else {
                    r is None && final(self).spec_cursor() == s
                }
            }),
    {
        proof {
            use_type_invariant(&*self);
        }
        let n = self.records.len();
        let ghost rs = self.records@;
        let ghost c0 = self.cursor as int;
        while self.cursor < n && self.records[self.cursor].datetime() < at
            invariant
                c0 <= self.cursor as int <= n as int,
                n == self.records@.len(),
                self.records@ == rs,
                seek_from(rs, c0, at as int) == seek_from(rs, self.cursor as int, at as int),
            decreases n - self.cursor,
        {
            self.cursor = self.cursor + 1;
        }
        if self.cursor < n && self.records[self.cursor].datetime() == at {
            let x = self.records[self.cursor].duplicate();
            self.cursor = self.cursor + 1;
            Some(x)
        } else {
            None
        }
    }
}

// ---------------------------------------------------------------------------
// Archive file naming
// ---------------------------------------------------------------------------
/// Base address of the public futures archive, one zip per month.
pub open spec fn download_prefix() -> Seq<char> {
    "https://data.binance.vision/data/futures/um/monthly"@
}

/// One monthly archive file of one kind for one symbol.
#[derive(Debug)]
pub enum SyncHistoryMeta {
    AggTrades { symbol: String, year: i64, month: i64 },
    BookTicker { symbol: String, year: i64, month: i64 },
    FundingRate { symbol: String, year: i64, month: i64 },
    IndexPriceKlines { symbol: String, interval: KlineInterval, year: i64, month: i64 },
    Klines { symbol: String, interval: KlineInterval, year: i64, month: i64 },
    MarkPriceKlines { symbol: String, interval: KlineInterval, year: i64, month: i64 },
    PremiumIndexKlines { symbol: String, interval: KlineInterval, year: i64, month: i64 },
    Trades { symbol: String, year: i64, month: i64 },
}

/// The pieces every naming function works from: the kind's archive name,
/// the symbol, the optional interval, and the month.
pub open spec fn meta_kind(m: &SyncHistoryMeta) -> Seq<char> {
    match m {
        SyncHistoryMeta::AggTrades { .. } => "aggTrades"@,
        SyncHistoryMeta::BookTicker { .. } => "bookTicker"@,
        SyncHistoryMeta::FundingRate { .. } => "fundingRate"@,
        SyncHistoryMeta::IndexPriceKlines { .. } => "indexPriceKlines"@,
        SyncHistoryMeta::Klines { .. } => "klines"@,
        SyncHistoryMeta::MarkPriceKlines { .. } => "markPriceKlines"@,
        SyncHistoryMeta::PremiumIndexKlines { .. } => "premiumIndexKlines"@,
        SyncHistoryMeta::Trades { .. } => "trades"@,
    }
}

pub open spec fn meta_symbol(m: &SyncHistoryMeta) -> Seq<char> {
    match m {
        SyncHistoryMeta::AggTrades { symbol, .. } => symbol@,
        SyncHistoryMeta::BookTicker { symbol, .. } => symbol@,
        SyncHistoryMeta::FundingRate { symbol, .. } => symbol@,
        SyncHistoryMeta::IndexPriceKlines { symbol, .. } => symbol@,
        SyncHistoryMeta::Klines { symbol, .. } => symbol@,
        SyncHistoryMeta::MarkPriceKlines { symbol, .. } => symbol@,
        SyncHistoryMeta::PremiumIndexKlines { symbol, .. } => symbol@,
        SyncHistoryMeta::Trades { symbol, .. } => symbol@,
    }
}

pub open spec fn meta_interval(m: &SyncHistoryMeta) -> Option<Seq<char>> {
    match m {
        SyncHistoryMeta::IndexPriceKlines { interval, .. } => Some(interval.spec_str()),
        SyncHistoryMeta::Klines { interval, .. } => Some(interval.spec_str()),
        SyncHistoryMeta::MarkPriceKlines { interval, .. } => Some(interval.spec_str()),
        SyncHistoryMeta::PremiumIndexKlines { interval, .. } => Some(interval.spec_str()),
        _ => None,
    }
}

pub open spec fn meta_year(m: &SyncHistoryMeta) -> int {
    match m {
        SyncHistoryMeta::AggTrades { year, .. } => *year as int,
        SyncHistoryMeta::BookTicker { year, .. } => *year as int,
        SyncHistoryMeta::FundingRate { year, .. } => *year as int,
        SyncHistoryMeta::IndexPriceKlines { year, .. } => *year as int,
        SyncHistoryMeta::Klines { year, .. } => *year as int,
        SyncHistoryMeta::MarkPriceKlines { year, .. } => *year as int,
        SyncHistoryMeta::PremiumIndexKlines { year, .. } => *year as int,
        SyncHistoryMeta::Trades { year, .. } => *year as int,
    }
}

pub open spec fn meta_month(m: &SyncHistoryMeta) -> int {
    match m {
        SyncHistoryMeta::AggTrades { month, .. } => *month as int,
        SyncHistoryMeta::BookTicker { month, .. } => *month as int,
        SyncHistoryMeta::FundingRate { month, .. } => *month as int,
        SyncHistoryMeta::IndexPriceKlines { month, .. } => *month as int,
        SyncHistoryMeta::Klines { month, .. } => *month as int,
        SyncHistoryMeta::MarkPriceKlines { month, .. } => *month as int,
        SyncHistoryMeta::PremiumIndexKlines { month, .. } => *month as int,
        SyncHistoryMeta::Trades { month, .. } => *month as int,
    }
}

/// The download address of a monthly archive.
pub open spec fn url_v(m: &SyncHistoryMeta) -> Seq<char> {
    let stem = int_text(meta_year(m)) + seq!['-'] + two_wide(meta_month(m)) + ".zip"@;
    match meta_interval(m) {
        None => download_prefix() + seq!['/'] + meta_kind(m) + seq!['/'] + meta_symbol(m) + seq![
            '/',
        ] + meta_symbol(m) + seq!['-'] + meta_kind(m) + seq!['-'] + stem,
        Some(iv) => download_prefix() + seq!['/'] + meta_kind(m) + seq!['/'] + meta_symbol(m)
            + seq!['/'] + iv + seq!['/'] + meta_symbol(m) + seq!['-'] + iv + seq!['-'] + stem,
    }
}

/// The cache directory of a monthly archive, relative to the history
/// root, with `/` separators.
pub open spec fn save_path_v(m: &SyncHistoryMeta) -> Seq<char> {
    match meta_interval(m) {
        None => meta_symbol(m) + seq!['/'] + meta_kind(m),
        Some(iv) => meta_symbol(m) + seq!['/'] + meta_kind(m) + seq!['/'] + iv,
    }
}

/// The cache file name of a monthly archive.
pub open spec fn save_file_name_v(m: &SyncHistoryMeta) -> Seq<char> {
    int_text(meta_year(m)) + two_wide(meta_month(m)) + ".csv"@
}

/// A human-readable description of a monthly archive.
pub open spec fn desc_v(m: &SyncHistoryMeta) -> Seq<char> {
    let head = "date("@ + int_text(meta_year(m)) + seq!['-'] + two_wide(meta_month(m))
        + "), symbol("@ + meta_symbol(m) + "), kind("@ + meta_kind(m) + seq![')'];
    match meta_interval(m) {
        None => head,
        Some(iv) => head + ", interval("@ + iv + seq![')'],
    }
}

impl SyncHistoryMeta {
    /// The archive name of this kind of data.
    fn kind_str(&self) -> (r: &'static str)
        ensures
            r@ == meta_kind(self),
    {
        match self {
            SyncHistoryMeta::AggTrades { .. } => "aggTrades",
            SyncHistoryMeta::BookTicker { .. } => "bookTicker",
            SyncHistoryMeta::FundingRate { .. } => "fundingRate",
            SyncHistoryMeta::IndexPriceKlines { .. } => "indexPriceKlines",
            SyncHistoryMeta::Klines { .. } => "klines",
            SyncHistoryMeta::MarkPriceKlines { .. } => "markPriceKlines",
            SyncHistoryMeta::PremiumIndexKlines { .. } => "premiumIndexKlines",
            SyncHistoryMeta::Trades { .. } => "trades",
        }
    }

    /// The symbol the archive is about.
    fn symbol_str(&self) -> (r: &String)
        ensures
            r@ == meta_symbol(self),
    {
        match self {
            SyncHistoryMeta::AggTrades { symbol, .. } => symbol,
            SyncHistoryMeta::BookTicker { symbol, .. } => symbol,
            SyncHistoryMeta::FundingRate { symbol, .. } => symbol,
            SyncHistoryMeta::IndexPriceKlines { symbol, .. } => symbol,
            SyncHistoryMeta::Klines { symbol, .. } => symbol,
            SyncHistoryMeta::MarkPriceKlines { symbol, .. } => symbol,
            SyncHistoryMeta::PremiumIndexKlines { symbol, .. } => symbol,
            SyncHistoryMeta::Trades { symbol, .. } => symbol,
        }
    }

    /// The interval piece of the name, for the kline kinds.
    fn interval_str(&self) -> (r: Option<&'static str>)
        ensures
            match r {
                Some(s) => meta_interval(self) matches Some(iv) && s@ == iv,
                None => meta_interval(self) is None,
            },
    {
        match self {
            SyncHistoryMeta::IndexPriceKlines { interval, .. } => Some(interval.as_str()),
            SyncHistoryMeta::Klines { interval, .. } => Some(interval.as_str()),
            SyncHistoryMeta::MarkPriceKlines { interval, .. } => Some(interval.as_str()),
            SyncHistoryMeta::PremiumIndexKlines { interval, .. } => Some(interval.as_str()),
            _ => None,
        }
    }

    /// The year of the archived month.
    fn year_val(&self) -> (r: i64)
        ensures
            r as int == meta_year(self),
    {
        match self {
            SyncHistoryMeta::AggTrades { year, .. } => *year,
            SyncHistoryMeta::BookTicker { year, .. } => *year,
            SyncHistoryMeta::FundingRate { year, .. } => *year,
            SyncHistoryMeta::IndexPriceKlines { year, .. } => *year,
            SyncHistoryMeta::Klines { year, .. } => *year,
            SyncHistoryMeta::MarkPriceKlines { year, .. } => *year,
            SyncHistoryMeta::PremiumIndexKlines { year, .. } => *year,
            SyncHistoryMeta::Trades { year, .. } => *year,
        }
    }

    /// The month of the archived month.
    fn month_val(&self) -> (r: i64)
        ensures
            r as int == meta_month(self),
    {
        match self {
            SyncHistoryMeta::AggTrades { month, .. } => *month,
            SyncHistoryMeta::BookTicker { month, .. } => *month,
            SyncHistoryMeta::FundingRate { month, .. } => *month,
            SyncHistoryMeta::IndexPriceKlines { month, .. } => *month,
            SyncHistoryMeta::Klines { month, .. } => *month,
            SyncHistoryMeta::MarkPriceKlines { month, .. } => *month,
            SyncHistoryMeta::PremiumIndexKlines { month, .. } => *month,
            SyncHistoryMeta::Trades { month, .. } => *month,
        }
    }

    /// The download address of this monthly archive.
    pub fn url(&self) -> (r: String)
        ensures
            r@ == url_v(self),
    {
        let mut out = String::new();
        out.append("https://data.binance.vision/data/futures/um/monthly");
        out.append("/");
        out.append(self.kind_str());
        out.append("/");
        out.append(self.symbol_str().as_str());
        out.append("/");
        match self.interval_str() {
            Some(iv) => {
                out.append(iv);
                out.append("/");
            },
            None => {
            },
        }
        out.append(self.symbol_str().as_str());
        out.append("-");
        match self.interval_str() {
            Some(iv) => {
                out.append(iv);
            },
            None => {
                out.append(self.kind_str());
            },
        }
        out.append("-");
        push_int(&mut out, self.year_val());
        out.append("-");
        push_pad2(&mut out, self.month_val());
        out.append(".zip");
        proof {
            reveal_strlit("/");
            reveal_strlit("-");
            assert(out@ =~= url_v(self));
        }
        out
    }

    /// The cache directory of this archive, relative to the history root.
    pub fn save_path(&self) -> (r: String)
        ensures
            r@ == save_path_v(self),
    {
        let mut out = String::new();
        out.append(self.symbol_str().as_str());
        out.append("/");
        out.append(self.kind_str());
        match self.interval_str() {
            Some(iv) => {
                out.append("/");
                out.append(iv);
            },
            None => {
            },
        }
        proof {
            reveal_strlit("/");
            assert(out@ =~= save_path_v(self));
        }
        out
    }

    /// The cache file name of this archive.
    pub fn save_file_name(&self) -> (r: String)
        ensures
            r@ == save_file_name_v(self),
    {
        let mut out = String::new();
        push_int(&mut out, self.year_val());
        push_pad2(&mut out, self.month_val());
        out.append(".csv");
        proof {
            assert(out@ =~= save_file_name_v(self));
        }
        out
    }

    /// A human-readable description of this archive.
    pub fn desc(&self) -> (r: String)
        ensures
            r@ == desc_v(self),
    {
        let mut out = String::new();
        out.append("date(");
        push_int(&mut out, self.year_val());
        out.append("-");
        push_pad2(&mut out, self.month_val());
        out.append("), symbol(");
        out.append(self.symbol_str().as_str());
        out.append("), kind(");
        out.append(self.kind_str());
        out.append(")");
        match self.interval_str() {
            Some(iv) => {
                out.append(", interval(");
                out.append(iv);
                out.append(")");
            },
            None => {
            },
        }
        proof {
            reveal_strlit("-");
            reveal_strlit(")");
            assert(out@ =~= desc_v(self));
        }
        out
    }

    pub fn agg_trades(symbol: &str, year: i64, month: i64) -> (r: Self)
        ensures
            r matches SyncHistoryMeta::AggTrades { symbol: sy, year: y, month: m } && sy@ == symbol@
                && y == year && m == month,
    {
        Self::AggTrades { symbol: symbol.to_owned(), year, month }
    }

    pub fn book_ticker(symbol: &str, year: i64, month: i64) -> (r: Self)
        ensures
            r matches SyncHistoryMeta::BookTicker { symbol: sy, year: y, month: m } && sy@
                == symbol@ && y == year && m == month,
    {
        Self::BookTicker { symbol: symbol.to_owned(), year, month }
    }

    pub fn funding_rate(symbol: &str, year: i64, month: i64) -> (r: Self)
        ensures
            r matches SyncHistoryMeta::FundingRate { symbol: sy, year: y, month: m } && sy@
                == symbol@ && y == year && m == month,
    {
        Self::FundingRate { symbol: symbol.to_owned(), year, month }
    }

    pub fn index_price_klines(symbol: &str, interval: KlineInterval, year: i64, month: i64) -> (r:
        Self)
        ensures
            r matches SyncHistoryMeta::IndexPriceKlines {
                symbol: sy,
                interval: iv,
                year: y,
                month: m,
            } && sy@ == symbol@ && iv == interval && y == year && m == month,
    {
        Self::IndexPriceKlines { symbol: symbol.to_owned(), interval, year, month }
    }

    pub fn klines(symbol: &str, interval: KlineInterval, year: i64, month: i64) -> (r: Self)
        ensures
            r matches SyncHistoryMeta::Klines { symbol: sy, interval: iv, year: y, month: m }
                && sy@ == symbol@ && iv == interval && y == year && m == month,
    {
        Self::Klines { symbol: symbol.to_owned(), interval, year, month }
    }

    pub fn mark_price_klines(symbol: &str, interval: KlineInterval, year: i64, month: i64) -> (r:
        Self)
        ensures
            r matches SyncHistoryMeta::MarkPriceKlines {
                symbol: sy,
                interval: iv,
                year: y,
                month: m,
            } && sy@ == symbol@ && iv == interval && y == year && m == month,
    {
        Self::MarkPriceKlines { symbol: symbol.to_owned(), interval, year, month }
    }

    pub fn premium_index_klines(symbol: &str, interval: KlineInterval, year: i64, month: i64) -> (r:
        Self)
        ensures
            r matches SyncHistoryMeta::PremiumIndexKlines {
                symbol: sy,
                interval: iv,
                year: y,
                month: m,
            } && sy@ == symbol@ && iv == interval && y == year && m == month,
    {
        Self::PremiumIndexKlines { symbol: symbol.to_owned(), interval, year, month }
    }

    pub fn trades(symbol: &str, year: i64, month: i64) -> (r: Self)
        ensures
            r matches SyncHistoryMeta::Trades { symbol: sy, year: y, month: m } && sy@ == symbol@
                && y == year && m == month,
    {
        Self::Trades { symbol: symbol.to_owned(), year, month }
    }
}

} // verus!
