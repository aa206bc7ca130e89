//! One scan's worth of markets into the registry.
use vstd::prelude::*;

use crate::config::Config;
use crate::keyed::lookup_key;
use crate::registry::market_registry::MarketRegistry;
use crate::types::market::Market;

use super::filters::{filter_markets, market_accepted};
use super::parser::{
    first_bad, market_from_raw, parse_markets, parse_safe, parsed_raws, window_error_text, MarketParseError, RawMarket,
};

verus! {

/// How many markets each step of a scan saw.
#[derive(Debug, Clone, Copy, PartialEq, Eq, Default)]
pub struct ScanStats {
    pub raw_markets: usize,
    pub parsed_markets: usize,
    pub accepted_markets: usize,
    pub inserted_or_updated_markets: usize,
}

/// `parsed` holds the markets the raw markets make, in order.
pub open spec fn parsed_from(parsed: Seq<Market>, raws: Seq<RawMarket>, seen_ms: i64) -> bool {
    &&& parsed.len() == parsed_raws(raws).len()
    &&& forall|k: int| 0 <= k < parsed.len() ==> market_from_raw(#[trigger] parsed[k], parsed_raws(raws)[k], seen_ms)
}

/// The last market of `ms` with slug `k`, if any.
pub open spec fn last_with_slug(ms: Seq<Market>, k: Seq<char>) -> Option<Market>
    decreases ms.len(),
{
    if ms.len() == 0 {
        None
    } else if ms.last().slug@ == k {
        Some(ms.last())
    } else {
        last_with_slug(ms.drop_last(), k)
    }
}

/// The registry's market for `k` after storing `ms` in order over `before`.
pub open spec fn after_inserts(before: Seq<Market>, ms: Seq<Market>, k: Seq<char>) -> Option<Market> {
    match last_with_slug(ms, k) {
        Some(m) => Some(m),
        None => lookup_key(before, k),
    }
}

/// Parses the raw markets, keeps the accepted ones and stores each in the registry;
/// the first bad time window is an error and leaves the registry as it was.
pub fn ingest_raw_markets(
    raw_markets: &Vec<RawMarket>,
    registry: &mut MarketRegistry,
    config: &Config,
    now_ms: i64,
) -> (r: Result<ScanStats, MarketParseError>)
    requires
        forall|i: int| 0 <= i < raw_markets@.len() ==> parse_safe(#[trigger] raw_markets@[i]),
    ensures
        first_bad(raw_markets@) is Some ==> r is Err && r->Err_0.message@ == window_error_text(
            raw_markets@[first_bad(raw_markets@)->0],
        ) && final(registry)@ == old(registry)@,
        first_bad(raw_markets@) is None ==> r is Ok && exists|parsed: Seq<Market>|
            {
                let accepted = parsed.filter(|m: Market| market_accepted(m, *config));
                &&& #[trigger] parsed_from(parsed, raw_markets@, now_ms)
                &&& r->Ok_0.raw_markets == raw_markets@.len()
                &&& r->Ok_0.parsed_markets == parsed.len()
                &&& r->Ok_0.accepted_markets == accepted.len()
                &&& r->Ok_0.inserted_or_updated_markets == accepted.len()
                &&& forall|k: Seq<char>| #[trigger] lookup_key(final(registry)@, k) == after_inserts(
                    old(registry)@,
                    accepted,
                    k,
                )
            },
{
    let raw_count = raw_markets.len();
    let parsed = match parse_markets(raw_markets, now_ms) {
        Ok(p) => p,
        Err(e) => return Err(e),
    };
    let parsed_count = parsed.len();
    let ghost parsed_view = parsed@;
    let accepted = filter_markets(parsed, config);
    let accepted_count = accepted.len();
    let ghost acc = accepted@;
    let ghost start = registry@;
    let mut inserted: usize = 0;
    let mut source = accepted;
    proof {
        assert(acc.take(0) =~= Seq::<Market>::empty());
    }
    while source.len() > 0
        invariant
            inserted + source@.len() == acc.len(),
            acc.len() == accepted_count,
            source@ == acc.skip(inserted as int),
            start == old(registry)@,
            forall|k: Seq<char>| #[trigger] lookup_key(registry@, k) == after_inserts(start, acc.take(inserted as int), k),
        decreases source@.len(),
    {
        let m = source.remove(0);
        proof {
            assert(acc.take(inserted + 1) =~= acc.take(inserted as int).push(m));
            assert(acc.take(inserted + 1).drop_last() =~= acc.take(inserted as int));
            assert(acc.skip(inserted + 1) =~= acc.skip(inserted as int).drop_first());
        }
        let ghost before = registry@;
        registry.insert_market(m);
        proof {
            assert forall|k: Seq<char>| #[trigger] lookup_key(registry@, k) == after_inserts(
                start,
                acc.take(inserted + 1),
                k,
            ) by {
                if k != m.slug@ {
                    assert(lookup_key(registry@, k) == lookup_key(before, k));
                }
            }
        }
        inserted = inserted + 1;
    }
    proof {
        assert(acc.take(inserted as int) =~= acc);
        assert(parsed_from(parsed_view, raw_markets@, now_ms));
    }
    Ok(
        ScanStats {
            raw_markets: raw_count,
            parsed_markets: parsed_count,
            accepted_markets: accepted_count,
            inserted_or_updated_markets: inserted,
        },
    )
}

} // verus!
