//! Counters, snapshots and health checks of the running pipeline.
pub mod alerts;
pub mod counts;

pub use alerts::{AlertLevel, HealthAlert};
pub mod metrics;

pub use metrics::{collect_telemetry_snapshot, TelemetryCounters, TelemetrySnapshot};
pub mod health;

pub use health::{run_health_checks, HealthCheckInput};
