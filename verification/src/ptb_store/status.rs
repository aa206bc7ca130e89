//! Where a price to beat stands, and where it came from.
use vstd::prelude::*;

verus! {

#[derive(Debug, Clone, Copy, PartialEq, Eq, Hash, Structural)]
pub enum PtbStatus {
    PendingPtb,
    MissingPtb,
    InvalidPtb,
    CapturedExact,
}

#[derive(Debug, Clone, Copy, PartialEq, Eq, Hash, Structural)]
pub enum PtbSource {
    RtdsOpenTick,
}

pub open spec fn ptb_status_text(s: PtbStatus) -> Seq<char> {
    match s {
        PtbStatus::PendingPtb => "pending_ptb"@,
        PtbStatus::MissingPtb => "missing_ptb"@,
        PtbStatus::InvalidPtb => "invalid_ptb"@,
        PtbStatus::CapturedExact => "captured_exact"@,
    }
}

impl PtbStatus {
    pub fn as_str(&self) -> (r: &'static str)
        ensures
            r@ == ptb_status_text(*self),
    {
        match self {
            PtbStatus::PendingPtb => "pending_ptb",
            PtbStatus::MissingPtb => "missing_ptb",
            PtbStatus::InvalidPtb => "invalid_ptb",
            PtbStatus::CapturedExact => "captured_exact",
        }
    }
}

impl PtbSource {
    pub fn as_str(&self) -> (r: &'static str)
        ensures
            r@ == "rtds_open_tick"@,
    {
        "rtds_open_tick"
    }
}

} // verus!
