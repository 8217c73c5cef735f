//! Errors the engine reports to its callers.

use vstd::prelude::*;
use vstd::string::StringExecFns;

verus! {

/// Everything that can go wrong in the simulation kernel.
///
/// Validation errors leave the store untouched; `Overflow` reports a value
/// that left the representable fixed-point range.
#[derive(Clone, Copy, PartialEq, Eq, Structural, Debug)]
pub enum EngineError {
    /// A symbol was initialized twice.
    DuplicateSymbol,
    /// An operation named a symbol that was never initialized.
    UnknownSymbol,
    /// Quantized order size below the symbol's minimum.
    SizeBelowMin,
    /// Quantized order size above the symbol's maximum.
    SizeAboveMax,
    /// Quantized limit price below the symbol's minimum.
    PriceBelowMin,
    /// Quantized limit price above the symbol's maximum.
    PriceAboveMax,
    /// Opening notional below the symbol's minimum amount.
    AmountBelowMin,
    /// Available cash cannot cover the margin of the new order.
    InsufficientCash,
    /// Available position size cannot cover the reduce-only order.
    InsufficientPosition,
    /// Leverage below one.
    InvalidLeverage,
    /// Begin not strictly before end, or a timestamp out of range.
    InvalidTimeRange,
    /// Initial cash below zero.
    NegativeCash,
    /// A fee or slippage rate below zero.
    NegativeRate,
    /// No symbol was initialized before the run started.
    NoSymbols,
    /// A historical record could not be decoded.
    BadHistoryData,
    /// A strategy returned an error from a fatal callback.
    StrategyFailed,
    /// A computed value left the representable fixed-point range.
    Overflow,
}

impl EngineError {
    /// A human-readable description of the error.
    pub fn message(&self) -> String {
        let text: &str = match self {
            EngineError::DuplicateSymbol => "symbol already initialized",
            EngineError::UnknownSymbol => "symbol not initialized",
            EngineError::SizeBelowMin => "size below the symbol minimum",
            EngineError::SizeAboveMax => "size above the symbol maximum",
            EngineError::PriceBelowMin => "price below the symbol minimum",
            EngineError::PriceAboveMax => "price above the symbol maximum",
            EngineError::AmountBelowMin => "amount below the symbol minimum",
            EngineError::InsufficientCash => "insufficient available cash",
            EngineError::InsufficientPosition => "insufficient available position",
            EngineError::InvalidLeverage => "leverage must be at least 1",
            EngineError::InvalidTimeRange => "begin must be before end",
            EngineError::NegativeCash => "cash must be at least 0",
            EngineError::NegativeRate => "rates must be at least 0",
            EngineError::NoSymbols => "no symbols initialized",
            EngineError::BadHistoryData => "malformed history record",
            EngineError::StrategyFailed => "strategy callback failed",
            EngineError::Overflow => "value out of range",
        };
        String::from_str(text)
    }
}

} // verus!
