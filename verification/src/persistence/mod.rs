//! Records written to the research logs.
pub mod opportunity;

pub use opportunity::OpportunityRecord;
