//! Simulation core of a bar-replay backtester.
//!
//! Ordered price bars are replayed through a strategy while capital,
//! position and trade records are kept per item. Amounts are fixed-point
//! decimals, so every figure of a fill is exact integer arithmetic.
//!
//! - [`amount`]: fixed-point amounts and their checked arithmetic.
//! - [`decimal`]: reading an amount from decimal text.
//! - [`item_map`]: the map from item keys to values that the context is made of.
//! - [`model`]: bars, positions, orders, equity snapshots, trade records,
//!   events, the context and the configuration.
//! - [`engine`]: the rules of order execution.
//! - [`strategy`]: a run, its orders and its dispatch state machine.
//! - [`broker`], [`db`], [`feed`]: the decisions of the producers of the bus.
//! - [`common`]: indicators and calendar time.
//! - [`price_channel`]: a channel-breakout policy.
//! - [`laws`]: what holds of the whole, proved.

pub mod amount;
pub mod broker;
pub mod common;
pub mod db;
pub mod decimal;
pub mod engine;
pub mod feed;
pub mod item_map;
pub mod laws;
pub mod model;
pub mod price_channel;
pub mod strategy;
