//! Research pipeline for paired up/down prediction markets: market discovery,
//! price-to-beat capture, order-book tracking, top-of-book and depth evaluation,
//! and signal filtering.
pub mod decimal;
pub mod text;
pub mod types;
pub mod num;
pub mod depth_engine;
pub mod config;
pub mod book_store;
pub mod ptb_store;
pub mod tick_store;
pub mod keyed;
pub mod registry;
pub mod relation_engine;
pub mod evaluator;
pub mod signal_engine;
pub mod rtds;
pub mod runtime;
pub mod telemetry;
pub mod clob;
pub mod market_scanner;
pub mod persistence;
