//! The real-time price feed: symbols of the tracked assets, its messages, and their
//! normalization into ticks.
pub mod message;
pub mod normalizer;
pub mod symbols;
pub mod ingest;

pub use message::{RtdsMessage, RtdsPayload, RtdsValue};
pub use normalizer::{normalize_rtds_payload, NormalizedRtdsTick};
pub use symbols::{asset_to_rtds_symbol, configured_rtds_symbols, is_supported_rtds_symbol, rtds_symbol_to_asset};
pub use ingest::handle_rtds_message;
