//! The markets known to the pipeline, looked up by slug, token, asset, timeframe and end.
pub mod lifecycle;

pub use lifecycle::{is_expired_market, is_live_market, is_upcoming_market, seconds_to_end, seconds_to_start};
pub mod indexes;
pub use indexes::MarketIndexes;
pub mod market_registry;
pub use market_registry::MarketRegistry;
