//! Where a market stands in its life at a given time.
use vstd::prelude::*;

use crate::num::{div_i64, div_toward_zero, sat_sub, sat_sub_spec};
use crate::types::market::Market;

verus! {

/// Open for trading now: active, not closed, opened and not yet ended.
pub open spec fn live_spec(m: Market, now_ms: i64) -> bool {
    m.active && !m.closed && m.open_ms <= now_ms && now_ms < m.end_ms
}

/// Active and not closed, and not yet open.
pub open spec fn upcoming_spec(m: Market, now_ms: i64) -> bool {
    m.active && !m.closed && now_ms < m.open_ms
}

/// Closed, or past its end.
pub open spec fn expired_spec(m: Market, now_ms: i64) -> bool {
    m.closed || now_ms >= m.end_ms
}

/// Whole seconds from `now_ms` to `t_ms`, rounded toward zero; negative once passed.
pub open spec fn seconds_until(t_ms: i64, now_ms: i64) -> int {
    div_toward_zero(sat_sub_spec(t_ms, now_ms), 1000)
}

pub fn is_live_market(market: &Market, now_ms: i64) -> (r: bool)
    ensures
        r == live_spec(*market, now_ms),
{
    market.active && !market.closed && market.open_ms <= now_ms && now_ms < market.end_ms
}

pub fn is_upcoming_market(market: &Market, now_ms: i64) -> (r: bool)
    ensures
        r == upcoming_spec(*market, now_ms),
{
    market.active && !market.closed && now_ms < market.open_ms
}

pub fn is_expired_market(market: &Market, now_ms: i64) -> (r: bool)
    ensures
        r == expired_spec(*market, now_ms),
{
    market.closed || now_ms >= market.end_ms
}

/// Whole seconds until the market opens.
pub fn seconds_to_start(market: &Market, now_ms: i64) -> (r: i64)
    ensures
        r as int == seconds_until(market.open_ms, now_ms),
{
    div_i64(sat_sub(market.open_ms, now_ms), 1000)
}

/// Whole seconds until the market ends.
pub fn seconds_to_end(market: &Market, now_ms: i64) -> (r: i64)
    ensures
        r as int == seconds_until(market.end_ms, now_ms),
{
    div_i64(sat_sub(market.end_ms, now_ms), 1000)
}

/// A live market is neither upcoming nor expired; an upcoming market is not expired
/// while it opens before it ends.
pub proof fn lemma_lifecycle_exclusive(m: Market, now_ms: i64)
    ensures
        live_spec(m, now_ms) ==> !upcoming_spec(m, now_ms) && !expired_spec(m, now_ms),
        upcoming_spec(m, now_ms) && m.open_ms < m.end_ms ==> !expired_spec(m, now_ms),
{
}

} // verus!
