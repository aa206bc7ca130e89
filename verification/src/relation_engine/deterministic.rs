//! Which two-leg package a pair of prices to beat calls for.
use vstd::prelude::*;

use crate::decimal::{value_lt, DecView, Decimal};

verus! {

/// The package to hold: the longer market's up side with the shorter market's down
/// side, or the reverse.
#[derive(Debug, Clone, Copy, PartialEq, Eq, Hash, Structural)]
pub enum PackageName {
    LongUpPlusShortDown,
    LongDownPlusShortUp,
}

pub open spec fn package_name_text(p: PackageName) -> Seq<char> {
    match p {
        PackageName::LongUpPlusShortDown => "LONG_UP_PLUS_SHORT_DOWN"@,
        PackageName::LongDownPlusShortUp => "LONG_DOWN_PLUS_SHORT_UP"@,
    }
}

/// The package for the two prices to beat: long up and short down when the shorter
/// market's price is the higher, the reverse when it is the lower, none when equal.
pub open spec fn package_name_spec(short_ptb: DecView, long_ptb: DecView) -> Option<PackageName> {
    if value_lt(long_ptb, short_ptb) {
        Some(PackageName::LongUpPlusShortDown)
    } else if value_lt(short_ptb, long_ptb) {
        Some(PackageName::LongDownPlusShortUp)
    } else {
        None
    }
}

/// The other package.
pub open spec fn opposite_package(p: PackageName) -> PackageName {
    match p {
        PackageName::LongUpPlusShortDown => PackageName::LongDownPlusShortUp,
        PackageName::LongDownPlusShortUp => PackageName::LongUpPlusShortDown,
    }
}

impl PackageName {
    pub fn as_str(&self) -> (r: &'static str)
        ensures
            r@ == package_name_text(*self),
    {
        match self {
            PackageName::LongUpPlusShortDown => "LONG_UP_PLUS_SHORT_DOWN",
            PackageName::LongDownPlusShortUp => "LONG_DOWN_PLUS_SHORT_UP",
        }
    }
}

/// The package the two prices to beat call for, if they differ.
pub fn decide_package_name(short_ptb: Decimal, long_ptb: Decimal) -> (r: Option<PackageName>)
    ensures
        r == package_name_spec(short_ptb@, long_ptb@),
{
    if short_ptb.gt(&long_ptb) {
        Some(PackageName::LongUpPlusShortDown)
    } else if short_ptb.lt(&long_ptb) {
        Some(PackageName::LongDownPlusShortUp)
    } else {
        None
    }
}

/// Swapping the two prices swaps the package; equal prices call for none either way.
pub proof fn lemma_package_name_swap(a: DecView, b: DecView)
    ensures
        package_name_spec(a, b) is None <==> package_name_spec(b, a) is None,
        package_name_spec(a, b) is Some ==> package_name_spec(b, a) == Some(
            opposite_package(package_name_spec(a, b)->0),
        ),
{
}

} // verus!
