//! Relations between markets that settle together: grouping, pairing by timeframe,
//! and the two-leg package each pair calls for.
pub mod deterministic;
pub mod grouping;

pub use deterministic::{decide_package_name, PackageName};
pub use grouping::{group_by_asset_and_end_ms, live_markets_only, GroupKey, MarketGroup, RelationMarket};
pub mod pair_generator;
pub use pair_generator::{all_timeframe_pairs, timeframe_seconds, MarketPair};
pub mod package_builder;
pub use package_builder::{build_package_candidate, PackageCandidate};
