//! Depth confirmation: how much of a two-leg package the ask books can fill below
//! the execution threshold.
pub mod result;
pub mod walker;

pub use result::{DepthLeg, DepthResult, DepthStatus};
pub use walker::{try_walk_ask_book, walk_ask_book, WalkResult};
pub mod sizing;
pub use sizing::{
    calculate_depth_for_size, find_max_size_under_threshold, try_calculate_depth_for_size,
    try_find_max_size_under_threshold, DepthSizingConfig,
};
