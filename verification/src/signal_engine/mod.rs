//! Turning evaluated packages into signals: the checks, the signal itself, and where
//! signals go.
pub mod filters;

pub use filters::{filter_signal_candidate, SignalFilterOutcome, SignalFilterRejection};
pub mod publisher;
pub mod signal_builder;

pub use publisher::SignalPublisher;
pub use signal_builder::{build_signal, build_signal_unchecked};
