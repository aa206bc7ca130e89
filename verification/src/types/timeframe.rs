//! Market durations.
use vstd::prelude::*;

verus! {

#[derive(Debug, Clone, Copy, PartialEq, Eq, Hash, PartialOrd, Ord, Structural)]
pub enum Timeframe {
    FiveMin,
    FifteenMin,
    OneHour,
    FourHour,
    OneDay,
}

/// Length of the timeframe in seconds.
pub open spec fn timeframe_secs(t: Timeframe) -> nat {
    match t {
        Timeframe::FiveMin => 300,
        Timeframe::FifteenMin => 900,
        Timeframe::OneHour => 3600,
        Timeframe::FourHour => 14400,
        Timeframe::OneDay => 86400,
    }
}

/// Short label of the timeframe, as it appears in configuration and in keys.
pub open spec fn timeframe_label(t: Timeframe) -> Seq<char> {
    match t {
        Timeframe::FiveMin => "5m"@,
        Timeframe::FifteenMin => "15m"@,
        Timeframe::OneHour => "1h"@,
        Timeframe::FourHour => "4h"@,
        Timeframe::OneDay => "1d"@,
    }
}

impl Timeframe {
    pub fn label(&self) -> (r: &'static str)
        ensures
            r@ == timeframe_label(*self),
    {
        match self {
            Timeframe::FiveMin => "5m",
            Timeframe::FifteenMin => "15m",
            Timeframe::OneHour => "1h",
            Timeframe::FourHour => "4h",
            Timeframe::OneDay => "1d",
        }
    }

    pub fn seconds(&self) -> (r: u64)
        ensures
            r as nat == timeframe_secs(*self),
    {
        match self {
            Timeframe::FiveMin => 300,
            Timeframe::FifteenMin => 900,
            Timeframe::OneHour => 3600,
            Timeframe::FourHour => 14400,
            Timeframe::OneDay => 86400,
        }
    }
}

} // verus!
