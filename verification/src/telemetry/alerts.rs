//! Health alerts.
use vstd::prelude::*;

verus! {

#[derive(Debug, Clone, Copy, PartialEq, Eq, Hash, Structural)]
pub enum AlertLevel {
    Info,
    Warning,
    Critical,
}

#[derive(Debug, Clone)]
pub struct HealthAlert {
    pub level: AlertLevel,
    pub code: String,
    pub message: String,
}

impl HealthAlert {
    pub fn info(code: String, message: String) -> (r: HealthAlert)
        ensures
            r == (HealthAlert { level: AlertLevel::Info, code, message }),
    {
        HealthAlert { level: AlertLevel::Info, code, message }
    }

    pub fn warning(code: String, message: String) -> (r: HealthAlert)
        ensures
            r == (HealthAlert { level: AlertLevel::Warning, code, message }),
    {
        HealthAlert { level: AlertLevel::Warning, code, message }
    }

    pub fn critical(code: String, message: String) -> (r: HealthAlert)
        ensures
            r == (HealthAlert { level: AlertLevel::Critical, code, message }),
    {
        HealthAlert { level: AlertLevel::Critical, code, message }
    }
}

} // verus!
