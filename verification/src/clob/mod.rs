//! The order-book feed: which tokens to stream, and turning its messages into books.
pub mod ordering;
pub mod subscription;

pub use subscription::{desired_tokens_from_markets, desired_tokens_from_registry, ClobSubscription, SubscriptionDiff};
pub mod parser;
pub mod json;

pub use parser::{ClobBookLevel, ClobPriceChange, ClobRawMessage, ClobValue};
pub use json::{handle_clob_value, parse_clob_value, ClobJson};
