//! Deterministic event-driven backtesting engine for leveraged
//! perpetual-futures strategies.
//!
//! The simulation kernel — fixed-point money arithmetic, the market-state
//! store with its accounting invariants, the order lifecycle and matching
//! engine, the chronological history streams, and the minute-tick event
//! loop — is verified. File and network I/O stay outside the library.

pub mod decimal;
pub mod text;
pub mod time;
pub mod enums;
pub mod models;
pub mod errors;
pub mod ids;
pub mod exchange;
pub mod csv;
pub mod history;
pub mod backtest;
pub mod laws;
