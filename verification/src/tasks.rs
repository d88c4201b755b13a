//! Task orchestration: the registry and lifecycle state machine, the
//! resumable candle-fetch worker and the backtest worker.

pub mod backtest;
pub mod fetch_candles;
pub mod manager;
pub mod types;
