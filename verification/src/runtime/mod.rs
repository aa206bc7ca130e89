//! Bookkeeping of the pipeline's runtime.
pub mod supervisor;

pub use supervisor::{RestartPolicy, SupervisorState};
pub mod tasks;
pub use tasks::ptb_matcher_round;
