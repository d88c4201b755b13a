//! A market-data acquisition and strategy backtesting service: a
//! task orchestrator that tracks long-running jobs and streams their
//! lifecycle events, a resumable candle-ingestion worker, and a
//! deterministic backtest engine that replays stored candles through
//! a trading strategy against a simulated account with exchange fee
//! and precision rules.

pub mod config;
pub mod decimal;
pub mod errors;
pub mod handlers;
pub mod models;
pub mod services;
pub mod strategy;
pub mod tasks;
pub mod timeframe;
pub mod utils;
