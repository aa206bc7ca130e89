//! Counters and a point-in-time snapshot of the pipeline.
use vstd::prelude::*;

use crate::book_store::store::{stats_spec, BookStore, BookStoreStats};
use crate::decimal::{value_lt, DecView, Decimal};
use crate::ptb_store::status::PtbStatus;
use crate::ptb_store::store::PtbStore;
use crate::registry::lifecycle::live_spec;
use crate::registry::market_registry::{deref_all, MarketRegistry};
use crate::types::asset::Asset;
use crate::types::evaluation::{under_one_spec, EvaluationClassification, EvaluationRow};
use crate::types::market::Market;
use crate::types::ptb::{exact_open_tick_spec, PriceToBeat};

use super::counts::{count_keys, count_total, counts_of, AssetTimeframe, TimeframePair};

verus! {

/// Reconnections of the two listeners.
#[derive(Debug, Clone, Copy, PartialEq, Eq, Default)]
pub struct TelemetryCounters {
    pub clob_reconnect_count: usize,
    pub rtds_reconnect_count: usize,
}

impl TelemetryCounters {
    pub fn new() -> (r: TelemetryCounters)
        ensures
            r == (TelemetryCounters { clob_reconnect_count: 0, rtds_reconnect_count: 0 }),
    {
        TelemetryCounters { clob_reconnect_count: 0, rtds_reconnect_count: 0 }
    }

    pub fn increment_clob_reconnect(&mut self)
        requires
            old(self).clob_reconnect_count < usize::MAX,
        ensures
            final(self).clob_reconnect_count == old(self).clob_reconnect_count + 1,
            final(self).rtds_reconnect_count == old(self).rtds_reconnect_count,
    {
        self.clob_reconnect_count = self.clob_reconnect_count + 1;
    }

    pub fn increment_rtds_reconnect(&mut self)
        requires
            old(self).rtds_reconnect_count < usize::MAX,
        ensures
            final(self).rtds_reconnect_count == old(self).rtds_reconnect_count + 1,
            final(self).clob_reconnect_count == old(self).clob_reconnect_count,
    {
        self.rtds_reconnect_count = self.rtds_reconnect_count + 1;
    }
}

#[derive(Debug, Clone)]
pub struct TelemetrySnapshot {
    pub ts_ms: i64,
    pub markets_total: usize,
    pub markets_live_total: usize,
    pub markets_discovered_by_timeframe: Vec<(crate::types::timeframe::Timeframe, usize)>,
    pub markets_live_by_timeframe: Vec<(crate::types::timeframe::Timeframe, usize)>,
    pub markets_discovered_by_asset_timeframe: Vec<(AssetTimeframe, usize)>,
    pub ptbs_total: usize,
    pub ptbs_captured_exact: usize,
    pub ptbs_pending: usize,
    pub ptbs_missing: usize,
    pub ptbs_invalid: usize,
    pub ptbs_captured_by_timeframe_and_asset: Vec<(AssetTimeframe, usize)>,
    pub ptbs_missing_by_timeframe_and_asset: Vec<(AssetTimeframe, usize)>,
    pub priced_pairs_by_timeframe_pair: Vec<(TimeframePair, usize)>,
    pub under_1_candidates_by_pair_type: Vec<(TimeframePair, usize)>,
    pub no_usable_asks_count: usize,
    pub max_gross_edge_by_asset: Vec<(Asset, Decimal)>,
    pub book_store_stats: BookStoreStats,
    pub clob_reconnect_count: usize,
    pub rtds_reconnect_count: usize,
}

pub open spec fn market_timeframes(ms: Seq<Market>) -> Seq<crate::types::timeframe::Timeframe> {
    ms.map_values(|m: Market| m.timeframe)
}

pub open spec fn market_asset_timeframes(ms: Seq<Market>) -> Seq<AssetTimeframe> {
    ms.map_values(|m: Market| AssetTimeframe { asset: m.asset, timeframe: m.timeframe })
}

pub open spec fn ptb_asset_timeframes(ps: Seq<PriceToBeat>) -> Seq<AssetTimeframe> {
    ps.map_values(|p: PriceToBeat| AssetTimeframe { asset: p.asset, timeframe: p.timeframe })
}

pub open spec fn row_pair(r: EvaluationRow) -> TimeframePair {
    TimeframePair { short: r.short_tf, long: r.long_tf }
}

/// The largest edge among the rows of `asset` that carry one; the first of equal
/// maxima.
pub open spec fn max_edge_spec(rows: Seq<EvaluationRow>, asset: Asset) -> Option<DecView>
    decreases rows.len(),
{
    if rows.len() == 0 {
        None
    } else {
        let prev = max_edge_spec(rows.drop_last(), asset);
        let r = rows.last();
        if r.asset == asset && r.edge is Some {
            let e = r.edge->0@;
            match prev {
                None => Some(e),
                Some(c) => if value_lt(c, e) {
                    Some(e)
                } else {
                    Some(c)
                },
            }
        } else {
            prev
        }
    }
}

/// One entry per asset with an edge, holding its largest edge.
pub open spec fn max_edges_of(entries: Seq<(Asset, Decimal)>, rows: Seq<EvaluationRow>) -> bool {
    &&& forall|i: int, j: int| 0 <= i < j < entries.len() ==> entries[i].0 != entries[j].0
    &&& forall|i: int| 0 <= i < entries.len() ==> max_edge_spec(rows, #[trigger] entries[i].0) == Some(entries[i].1@)
    &&& forall|a: Asset|
        max_edge_spec(rows, a) is Some ==> exists|i: int| 0 <= i < entries.len() && #[trigger] entries[i].0 == a
}

fn timeframes_of(ms: &Vec<&Market>) -> (r: Vec<crate::types::timeframe::Timeframe>)
    ensures
        r@ == market_timeframes(deref_all(ms@)),
{
    let mut out = Vec::new();
    let mut i: usize = 0;
    while i < ms.len()
        invariant
            i <= ms@.len(),
            out@ == market_timeframes(deref_all(ms@).take(i as int)),
        decreases ms@.len() - i,
    {
        proof {
            assert(deref_all(ms@).take(i + 1) =~= deref_all(ms@).take(i as int).push(*ms@[i as int]));
        }
        out.push(ms[i].timeframe);
        proof {
            assert(out@ =~= market_timeframes(deref_all(ms@).take(i + 1)));
        }
        i = i + 1;
    }
    assert(deref_all(ms@).take(i as int) =~= deref_all(ms@));
    out
}

fn asset_timeframes_of(ms: &Vec<&Market>) -> (r: Vec<AssetTimeframe>)
    ensures
        r@ == market_asset_timeframes(deref_all(ms@)),
{
    let mut out = Vec::new();
    let mut i: usize = 0;
    while i < ms.len()
        invariant
            i <= ms@.len(),
            out@ == market_asset_timeframes(deref_all(ms@).take(i as int)),
        decreases ms@.len() - i,
    {
        proof {
            assert(deref_all(ms@).take(i + 1) =~= deref_all(ms@).take(i as int).push(*ms@[i as int]));
        }
        out.push(AssetTimeframe { asset: ms[i].asset, timeframe: ms[i].timeframe });
        proof {
            assert(out@ =~= market_asset_timeframes(deref_all(ms@).take(i + 1)));
        }
        i = i + 1;
    }
    assert(deref_all(ms@).take(i as int) =~= deref_all(ms@));
    out
}

fn ptb_keys(ps: &Vec<PriceToBeat>) -> (r: Vec<AssetTimeframe>)
    ensures
        r@ == ptb_asset_timeframes(ps@),
{
    let mut out = Vec::new();
    let mut i: usize = 0;
    while i < ps.len()
        invariant
            i <= ps@.len(),
            out@ == ptb_asset_timeframes(ps@.take(i as int)),
        decreases ps@.len() - i,
    {
        proof {
            assert(ps@.take(i + 1) =~= ps@.take(i as int).push(ps@[i as int]));
        }
        out.push(AssetTimeframe { asset: ps[i].asset, timeframe: ps[i].timeframe });
        proof {
            assert(out@ =~= ptb_asset_timeframes(ps@.take(i + 1)));
        }
        i = i + 1;
    }
    assert(ps@.take(i as int) =~= ps@);
    out
}

/// The rows priced at the top of the book.
pub open spec fn priced(r: EvaluationRow) -> bool {
    r.top_cost is Some
}

/// The timeframe pairs of the rows that satisfy `priced_rows` (priced rows) or not
/// (under-one rows).
pub open spec fn row_pairs_where(rows: Seq<EvaluationRow>, priced_rows: bool) -> Seq<TimeframePair> {
    rows.filter(|r: EvaluationRow| if priced_rows { priced(r) } else { under_one_spec(r.classification) }).map_values(
        |r: EvaluationRow| row_pair(r),
    )
}

fn pair_keys(rows: &Vec<EvaluationRow>, priced_rows: bool) -> (r: Vec<TimeframePair>)
    ensures
        r@ == row_pairs_where(rows@, priced_rows),
{
    let ghost pred = |r: EvaluationRow| if priced_rows { priced(r) } else { under_one_spec(r.classification) };
    let mut out = Vec::new();
    let mut i: usize = 0;
    assert(rows@.take(0).filter(pred) =~= Seq::<EvaluationRow>::empty()) by {
        reveal_with_fuel(Seq::filter, 1);
    }
    while i < rows.len()
        invariant
            i <= rows@.len(),
            pred == (|r: EvaluationRow| if priced_rows { priced(r) } else { under_one_spec(r.classification) }),
            out@ == rows@.take(i as int).filter(pred).map_values(|r: EvaluationRow| row_pair(r)),
        decreases rows@.len() - i,
    {
        let row = &rows[i];
        proof {
            assert(rows@.take(i + 1) =~= rows@.take(i as int).push(*row));
            rows@.take(i as int).lemma_filter_push(*row, pred);
        }
        let keep = if priced_rows {
            row.top_cost.is_some()
        } else {
            row.is_under_one_candidate()
        };
        if keep {
            out.push(TimeframePair { short: row.short_tf, long: row.long_tf });
            proof {
                let f = rows@.take(i as int).filter(pred);
                assert(f.push(*row).map_values(|r: EvaluationRow| row_pair(r)) =~= f.map_values(
                    |r: EvaluationRow| row_pair(r),
                ).push(row_pair(*row)));
            }
        }
        i = i + 1;
    }
    assert(rows@.take(i as int) =~= rows@);
    out
}

fn count_no_usable_asks(rows: &Vec<EvaluationRow>) -> (r: usize)
    ensures
        r == rows@.filter(|r: EvaluationRow| r.classification == EvaluationClassification::NoUsableAsks).len(),
{
    let ghost pred = |r: EvaluationRow| r.classification == EvaluationClassification::NoUsableAsks;
    let mut n: usize = 0;
    let mut i: usize = 0;
    assert(rows@.take(0).filter(pred) =~= Seq::<EvaluationRow>::empty()) by {
        reveal_with_fuel(Seq::filter, 1);
    }
    while i < rows.len()
        invariant
            i <= rows@.len(),
            pred == (|r: EvaluationRow| r.classification == EvaluationClassification::NoUsableAsks),
            n == rows@.take(i as int).filter(pred).len(),
            n <= i,
        decreases rows@.len() - i,
    {
        proof {
            assert(rows@.take(i + 1) =~= rows@.take(i as int).push(rows@[i as int]));
            rows@.take(i as int).lemma_filter_push(rows@[i as int], pred);
        }
        if rows[i].classification == EvaluationClassification::NoUsableAsks {
            n = n + 1;
        }
        i = i + 1;
    }
    assert(rows@.take(i as int) =~= rows@);
    n
}

fn find_asset(entries: &Vec<(Asset, Decimal)>, asset: Asset) -> (r: Option<usize>)
    ensures
        match r {
            Some(j) => j < entries@.len() && entries@[j as int].0 == asset,
            None => forall|k: int| 0 <= k < entries@.len() ==> #[trigger] entries@[k].0 != asset,
        },
{
    let mut j: usize = 0;
    while j < entries.len()
        invariant
            j <= entries@.len(),
            forall|k: int| 0 <= k < j ==> #[trigger] entries@[k].0 != asset,
        decreases entries@.len() - j,
    {
        if entries[j].0 == asset {
            return Some(j);
        }
        j = j + 1;
    }
    None
}

fn max_edges(rows: &Vec<EvaluationRow>) -> (r: Vec<(Asset, Decimal)>)
    ensures
        max_edges_of(r@, rows@),
{
    let mut entries: Vec<(Asset, Decimal)> = Vec::new();
    let mut i: usize = 0;
    while i < rows.len()
        invariant
            i <= rows@.len(),
            max_edges_of(entries@, rows@.take(i as int)),
        decreases rows@.len() - i,
    {
        let row = &rows[i];
        let ghost prev = rows@.take(i as int);
        let ghost next = rows@.take(i + 1);
        let ghost before = entries@;
        proof {
            assert(next.drop_last() =~= prev);
            assert(next.last() == *row);
        }
        match row.edge {
            Some(edge) => {
                let found = find_asset(&entries, row.asset);
                if found.is_some() {
                    let j = found.unwrap();
                    let current = entries[j].1;
                    if edge.gt(&current) {
                        entries.set(j, (row.asset, edge));
                    }
                    proof {
                        assert forall|a: int, b: int| 0 <= a < b < entries@.len() implies entries@[a].0 != entries@[b].0 by {
                            assert(before[a].0 != before[b].0);
                        }
                        assert forall|a: int| 0 <= a < entries@.len() implies max_edge_spec(next, #[trigger] entries@[a].0)
                            == Some(entries@[a].1@) by {
                            if a != j {
                                assert(entries@[a] == before[a]);
                                assert(before[a].0 != before[j as int].0 || a == j);
                            }
                        }
                        assert forall|x: Asset| max_edge_spec(next, x) is Some implies exists|a: int|
                            0 <= a < entries@.len() && #[trigger] entries@[a].0 == x by {
                            if x == row.asset {
                                assert(entries@[j as int].0 == x);
                            } else {
                                assert(max_edge_spec(next, x) == max_edge_spec(prev, x));
                                let a = choose|a: int| 0 <= a < before.len() && #[trigger] before[a].0 == x;
                                assert(entries@[a].0 == x);
                            }
                        }
                    }
                } else {
                    proof {
                        if max_edge_spec(prev, row.asset) is Some {
                            let a = choose|a: int| 0 <= a < before.len() && #[trigger] before[a].0 == row.asset;
                            assert(false);
                        }
                    }
                    entries.push((row.asset, edge));
                    proof {
                        assert forall|a: int, b: int| 0 <= a < b < entries@.len() implies entries@[a].0 != entries@[b].0 by {
                            if b < before.len() {
                                assert(before[a].0 != before[b].0);
                            } else {
                                assert(entries@[a] == before[a]);
                            }
                        }
                        assert forall|a: int| 0 <= a < entries@.len() implies max_edge_spec(next, #[trigger] entries@[a].0)
                            == Some(entries@[a].1@) by {
                            if a < before.len() {
                                assert(entries@[a] == before[a]);
                            }
                        }
                        assert forall|x: Asset| max_edge_spec(next, x) is Some implies exists|a: int|
                            0 <= a < entries@.len() && #[trigger] entries@[a].0 == x by {
                            if x == row.asset {
                                assert(entries@[before.len() as int].0 == x);
                            } else {
                                assert(max_edge_spec(next, x) == max_edge_spec(prev, x));
                                let a = choose|a: int| 0 <= a < before.len() && #[trigger] before[a].0 == x;
                                assert(entries@[a].0 == x);
                            }
                        }
                    }
                }
            },
            None => {
                proof {
                    assert forall|a: int| 0 <= a < entries@.len() implies max_edge_spec(next, #[trigger] entries@[a].0)
                        == Some(entries@[a].1@) by {
                        assert(max_edge_spec(next, entries@[a].0) == max_edge_spec(prev, entries@[a].0));
                    }
                    assert forall|x: Asset| max_edge_spec(next, x) is Some implies exists|a: int|
                        0 <= a < entries@.len() && #[trigger] entries@[a].0 == x by {
                        assert(max_edge_spec(next, x) == max_edge_spec(prev, x));
                    }
                }
            },
        }
        i = i + 1;
    }
    assert(rows@.take(i as int) =~= rows@);
    entries
}

/// `s` is the snapshot of the registry, the price-to-beat store, the book store and
/// the evaluation rows at `now_ms`.
pub open spec fn snapshot_spec(
    s: TelemetrySnapshot,
    markets: Seq<Market>,
    ptbs: Seq<PriceToBeat>,
    books: Seq<crate::types::book::Book>,
    rows: Seq<EvaluationRow>,
    counters: TelemetryCounters,
    now_ms: i64,
    max_book_age_ms: i64,
) -> bool {
    let live = markets.filter(|m: Market| live_spec(m, now_ms));
    let stats = stats_spec(books, now_ms, max_book_age_ms);
    &&& s.ts_ms == now_ms
    &&& s.markets_total == markets.len()
    &&& s.markets_live_total == live.len()
    &&& counts_of(s.markets_discovered_by_timeframe@, market_timeframes(markets))
    &&& counts_of(s.markets_live_by_timeframe@, market_timeframes(live))
    &&& counts_of(s.markets_discovered_by_asset_timeframe@, market_asset_timeframes(markets))
    &&& count_total(s.markets_discovered_by_timeframe@) == markets.len()
    &&& count_total(s.markets_live_by_timeframe@) == live.len()
    &&& count_total(s.markets_discovered_by_asset_timeframe@) == markets.len()
    &&& s.ptbs_total == ptbs.len()
    &&& s.ptbs_captured_exact == ptbs.filter(|p: PriceToBeat| exact_open_tick_spec(p)).len()
    &&& s.ptbs_pending == ptbs.filter(|p: PriceToBeat| p.status == PtbStatus::PendingPtb).len()
    &&& s.ptbs_missing == ptbs.filter(|p: PriceToBeat| p.status == PtbStatus::MissingPtb).len()
    &&& s.ptbs_invalid == ptbs.filter(|p: PriceToBeat| p.status == PtbStatus::InvalidPtb).len()
    &&& counts_of(
        s.ptbs_captured_by_timeframe_and_asset@,
        ptb_asset_timeframes(ptbs.filter(|p: PriceToBeat| exact_open_tick_spec(p))),
    )
    &&& counts_of(
        s.ptbs_missing_by_timeframe_and_asset@,
        ptb_asset_timeframes(ptbs.filter(|p: PriceToBeat| p.status == PtbStatus::MissingPtb)),
    )
    &&& count_total(s.ptbs_captured_by_timeframe_and_asset@) == s.ptbs_captured_exact
    &&& count_total(s.ptbs_missing_by_timeframe_and_asset@) == s.ptbs_missing
    &&& counts_of(s.priced_pairs_by_timeframe_pair@, row_pairs_where(rows, true))
    &&& counts_of(s.under_1_candidates_by_pair_type@, row_pairs_where(rows, false))
    &&& count_total(s.priced_pairs_by_timeframe_pair@) == row_pairs_where(rows, true).len()
    &&& count_total(s.under_1_candidates_by_pair_type@) == row_pairs_where(rows, false).len()
    &&& s.no_usable_asks_count == rows.filter(
        |r: EvaluationRow| r.classification == EvaluationClassification::NoUsableAsks,
    ).len()
    &&& max_edges_of(s.max_gross_edge_by_asset@, rows)
    &&& s.book_store_stats.total_books == books.len()
    &&& s.book_store_stats.usable_books == stats.0
    &&& s.book_store_stats.stale_books == stats.1
    &&& s.book_store_stats.books_without_usable_asks == stats.2
    &&& s.clob_reconnect_count == counters.clob_reconnect_count
    &&& s.rtds_reconnect_count == counters.rtds_reconnect_count
}

/// Counts markets, prices to beat, evaluation rows and books as of `now_ms`.
pub fn collect_telemetry_snapshot(
    registry: &MarketRegistry,
    ptb_store: &PtbStore,
    book_store: &BookStore,
    evaluation_rows: &Vec<EvaluationRow>,
    counters: TelemetryCounters,
    now_ms: i64,
    max_book_age_ms: i64,
) -> (r: TelemetrySnapshot)
    ensures
        snapshot_spec(r, registry@, ptb_store@, book_store@, evaluation_rows@, counters, now_ms, max_book_age_ms),
{
    let all_markets = registry.all_markets();
    let live_markets = registry.live_markets(now_ms);
    let markets_discovered_by_timeframe = count_keys(&timeframes_of(&all_markets));
    let markets_live_by_timeframe = count_keys(&timeframes_of(&live_markets));
    let markets_discovered_by_asset_timeframe = count_keys(&asset_timeframes_of(&all_markets));
    let captured = ptb_store.captured_exact();
    let pending = ptb_store.pending();
    let missing = ptb_store.missing();
    let invalid = ptb_store.invalid();
    let ptbs_captured_by_timeframe_and_asset = count_keys(&ptb_keys(&captured));
    let ptbs_missing_by_timeframe_and_asset = count_keys(&ptb_keys(&missing));
    let priced_pairs_by_timeframe_pair = count_keys(&pair_keys(evaluation_rows, true));
    let under_1_candidates_by_pair_type = count_keys(&pair_keys(evaluation_rows, false));
    let no_usable_asks_count = count_no_usable_asks(evaluation_rows);
    let max_gross_edge_by_asset = max_edges(evaluation_rows);
    let book_store_stats = book_store.stats(now_ms, max_book_age_ms);
    proof {
        assert(deref_all(all_markets@).len() == all_markets@.len());
        assert(deref_all(live_markets@).len() == live_markets@.len());
    }
    TelemetrySnapshot {
        ts_ms: now_ms,
        markets_total: all_markets.len(),
        markets_live_total: live_markets.len(),
        markets_discovered_by_timeframe,
        markets_live_by_timeframe,
        markets_discovered_by_asset_timeframe,
        ptbs_total: ptb_store.len(),
        ptbs_captured_exact: captured.len(),
        ptbs_pending: pending.len(),
        ptbs_missing: missing.len(),
        ptbs_invalid: invalid.len(),
        ptbs_captured_by_timeframe_and_asset,
        ptbs_missing_by_timeframe_and_asset,
        priced_pairs_by_timeframe_pair,
        under_1_candidates_by_pair_type,
        no_usable_asks_count,
        max_gross_edge_by_asset,
        book_store_stats,
        clob_reconnect_count: counters.clob_reconnect_count,
        rtds_reconnect_count: counters.rtds_reconnect_count,
    }
}

} // verus!
