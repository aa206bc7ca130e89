//! Market discovery: reading raw market records and keeping the markets of interest.
pub mod filters;
pub mod parser;
pub mod response;

pub use filters::{filter_market, filter_markets};
pub use parser::{parse_market, parse_markets, RawMarket, RawOutcomeToken};
pub mod scheduler;
pub use scheduler::{ingest_raw_markets, ScanStats};
