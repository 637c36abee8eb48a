//! A deterministic backtesting and parameter-optimisation engine for futures
//! trading strategies, with every computation verified.
//!
//! Prices, quantities, money and ratios are fixed-point values with eight
//! decimals (`fixed`). Bars (`types`) run through a strategy (`strategy`,
//! `ma_crossover`, `supertrend`, `prob_reversion`, with their kernels in
//! `indicators` and `reversion_indicators`), the risk rules (`risk`) and the
//! simulated executor (`execution`), driven bar by bar by `backtester`;
//! `analytics` scores a run, `optimizer` expands parameter grids, `factory`
//! builds strategies and runs one grid point, and `ranker` orders finished
//! runs. `bot` holds the live bot's per-bar decision, `decimal` and
//! `exchange` read the exchange's bar records, and `config` and `web` hold
//! configuration and pagination records.

pub mod fixed;
pub mod types;
pub mod execution;
pub mod risk;
pub mod indicators;
pub mod strategy;
pub mod ma_crossover;
pub mod supertrend;
pub mod reversion_indicators;
pub mod prob_reversion;
pub mod factory;
pub mod decimal;
pub mod backtester;
pub mod analytics;
pub mod ranker;
pub mod optimizer;
pub mod config;
pub mod web;
pub mod exchange;
pub mod bot;
