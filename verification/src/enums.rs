//! Closed vocabularies of the engine: run modes, trade types and sides,
//! kline intervals, order statuses.

use vstd::prelude::*;

verus! {

/// How an engine is driven.
#[derive(Clone, Copy, PartialEq, Eq, Structural, Debug, Hash)]
pub enum RunMode {
    Backtest,
    Testnet,
    Mainnet,
}

/// Price behaviour of an order.
#[derive(Clone, Copy, PartialEq, Eq, Structural, Debug, Hash)]
pub enum TradeType {
    /// Rests until the reference price crosses its limit price.
    Limit,
    /// Crosses at the next reference price.
    Market,
}

/// Side of a position or order.
#[derive(Clone, Copy, PartialEq, Eq, Structural, Debug, Hash)]
pub enum TradeSide {
    Long,
    Short,
}

/// Bar length of a kline series.
#[derive(Clone, Copy, PartialEq, Eq, Structural, Debug, Hash)]
pub enum KlineInterval {
    M1,
    M3,
    M5,
    M15,
    M30,
    H1,
    H2,
    H4,
    H6,
    H8,
    H12,
    D1,
    D3,
    W1,
    Mo1,
}

impl KlineInterval {
    /// The conventional short name of the interval.
    pub open spec fn spec_str(self) -> Seq<char> {
        match self {
            KlineInterval::M1 => "1m"@,
            KlineInterval::M3 => "3m"@,
            KlineInterval::M5 => "5m"@,
            KlineInterval::M15 => "15m"@,
            KlineInterval::M30 => "30m"@,
            KlineInterval::H1 => "1h"@,
            KlineInterval::H2 => "2h"@,
            KlineInterval::H4 => "4h"@,
            KlineInterval::H6 => "6h"@,
            KlineInterval::H8 => "8h"@,
            KlineInterval::H12 => "12h"@,
            KlineInterval::D1 => "1d"@,
            KlineInterval::D3 => "3d"@,
            KlineInterval::W1 => "1w"@,
            KlineInterval::Mo1 => "1mo"@,
        }
    }

    /// The conventional short name of the interval.
    pub fn as_str(&self) -> (r: &'static str)
        ensures
            r@ == self.spec_str(),
    {
        match self {
            KlineInterval::M1 => "1m",
            KlineInterval::M3 => "3m",
            KlineInterval::M5 => "5m",
            KlineInterval::M15 => "15m",
            KlineInterval::M30 => "30m",
            KlineInterval::H1 => "1h",
            KlineInterval::H2 => "2h",
            KlineInterval::H4 => "4h",
            KlineInterval::H6 => "6h",
            KlineInterval::H8 => "8h",
            KlineInterval::H12 => "12h",
            KlineInterval::D1 => "1d",
            KlineInterval::D3 => "3d",
            KlineInterval::W1 => "1w",
            KlineInterval::Mo1 => "1mo",
        }
    }
}

/// Lifecycle state of an order. Orders resting in the book are `Created`
/// (never seen by the matcher) or `Submitted` (seen at least once).
#[derive(Clone, Copy, PartialEq, Eq, Structural, Debug, Hash)]
pub enum OrderStatus {
    Created,
    Submitted,
    PartialFilled,
    Filled,
    Canceling,
    Canceled,
    Rejected,
}

} // verus!
