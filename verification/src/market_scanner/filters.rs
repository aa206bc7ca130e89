//! Which parsed markets the pipeline keeps.
use vstd::prelude::*;

use crate::config::Config;
use crate::text::all_white;
use crate::types::market::Market;

verus! {

/// The market's asset and timeframe are enabled, it has both tokens, and it opens
/// before it ends.
pub open spec fn market_accepted(m: Market, config: Config) -> bool {
    config.assets.enabled@.contains(m.asset) && config.timeframes.enabled@.contains(m.timeframe) && !all_white(
        m.up_token_id@,
    ) && !all_white(m.down_token_id@) && m.open_ms < m.end_ms
}

pub fn filter_market(market: &Market, config: &Config) -> (r: bool)
    ensures
        r == market_accepted(*market, *config),
{
    config.assets.is_enabled(&market.asset) && config.timeframes.is_enabled(&market.timeframe) && market.has_tokens()
        && market.has_valid_time_window()
}

/// The accepted markets, in order.
pub fn filter_markets(markets: Vec<Market>, config: &Config) -> (r: Vec<Market>)
    ensures
        r@ == markets@.filter(|m: Market| market_accepted(m, *config)),
{
    let ghost all = markets@;
    let ghost pred = |m: Market| market_accepted(m, *config);
    let n = markets.len();
    let mut source = markets;
    let mut kept: Vec<Market> = Vec::new();
    let mut i: usize = 0;
    assert(all.take(0).filter(pred) =~= Seq::<Market>::empty()) by {
        reveal_with_fuel(Seq::filter, 1);
    }
    while source.len() > 0
        invariant
            i + source@.len() == n,
            n == all.len(),
            source@ == all.skip(i as int),
            pred == (|m: Market| market_accepted(m, *config)),
            kept@ == all.take(i as int).filter(pred),
        decreases source@.len(),
    {
        let m = source.remove(0);
        proof {
            assert(all.take(i + 1) =~= all.take(i as int).push(m));
            assert(all.skip(i + 1) =~= all.skip(i as int).drop_first());
            all.take(i as int).lemma_filter_push(m, pred);
        }
        if filter_market(&m, config) {
            kept.push(m);
        }
        i = i + 1;
    }
    assert(all.take(i as int) =~= all);
    kept
}

} // verus!
