//! Prices to beat: matching each market's opening tick, checking plausibility, and
//! keeping the result per market.
pub mod status;

pub use status::{PtbSource, PtbStatus};
pub mod sanity;
pub use sanity::{check_ptb_plausibility, PtbSanityResult};
pub mod matcher;
pub use matcher::{apply_ptb_to_market, expected_rtds_symbol_for_market, match_market_to_tick, PtbMatchResult};
pub mod store;
pub use store::PtbStore;
