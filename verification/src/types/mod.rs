//! Domain types shared by every stage of the pipeline.
pub mod asset;
pub mod book;
pub mod ids;
pub mod timeframe;

pub use asset::Asset;
pub use ids::{ConditionId, MarketSlug, TokenId};
pub use timeframe::Timeframe;
pub use book::{Book, BookSide, Level};
pub mod market;
pub use market::Market;
pub mod ptb;
pub mod tick;
pub use ptb::PriceToBeat;
pub use tick::{RtdsSymbol, Tick};
pub mod evaluation;
pub use evaluation::{EvaluationClassification, EvaluationRow};
pub mod signal;
pub use signal::Signal;
pub use crate::relation_engine::deterministic::PackageName;
pub use crate::relation_engine::package_builder::PackageCandidate;
