//! The price-to-beat record of each market, keyed by market slug.
use vstd::prelude::*;

use crate::decimal::{DecView, Decimal};
use crate::ptb_store::status::PtbStatus;
use crate::types::ids::MarketSlug;
use crate::types::market::Market;
use crate::types::ptb::{bare_ptb, exact_open_tick_spec, ptb_value_spec, PriceToBeat};

verus! {

/// The records, one per market slug, in the order they were first inserted.
#[derive(Debug)]
pub struct PtbStore {
    records: Vec<PriceToBeat>,
}

/// No two records share a market slug.
pub open spec fn unique_slugs(s: Seq<PriceToBeat>) -> bool {
    forall|i: int, j: int| 0 <= i < j < s.len() ==> s[i].market_slug@ != s[j].market_slug@
}

/// Some record is keyed by `key`.
pub open spec fn has_slug(s: Seq<PriceToBeat>, key: Seq<char>) -> bool {
    exists|i: int| 0 <= i < s.len() && #[trigger] s[i].market_slug@ == key
}

/// The record for `key`, if any.
pub open spec fn lookup_ptb(s: Seq<PriceToBeat>, key: Seq<char>) -> Option<PriceToBeat> {
    if has_slug(s, key) {
        Some(s[choose|i: int| 0 <= i < s.len() && #[trigger] s[i].market_slug@ == key])
    } else {
        None
    }
}

/// A reference taken by the value it points to.
pub open spec fn deref_ptb(r: Option<&PriceToBeat>) -> Option<PriceToBeat> {
    match r {
        Some(p) => Some(*p),
        None => None,
    }
}

proof fn lemma_lookup_at(s: Seq<PriceToBeat>, i: int)
    requires
        unique_slugs(s),
        0 <= i < s.len(),
    ensures
        lookup_ptb(s, s[i].market_slug@) == Some(s[i]),
{
    let k = s[i].market_slug@;
    assert(s[i].market_slug@ == k);
    let c = choose|c: int| 0 <= c < s.len() && #[trigger] s[c].market_slug@ == k;
    if c < i {
    } else if c > i {
    }
}

/// Two sequences that hold, for every key other than `key`, the same records at the
/// same or shifted places agree on every lookup but that of `key`.
proof fn lemma_lookup_other(s: Seq<PriceToBeat>, t: Seq<PriceToBeat>, key: Seq<char>, k: Seq<char>)
    requires
        unique_slugs(s),
        unique_slugs(t),
        k != key,
        forall|j: int| 0 <= j < s.len() && #[trigger] s[j].market_slug@ != key ==> exists|m: int|
            0 <= m < t.len() && #[trigger] t[m] == s[j],
        forall|m: int| 0 <= m < t.len() && #[trigger] t[m].market_slug@ != key ==> exists|j: int|
            0 <= j < s.len() && #[trigger] s[j] == t[m],
    ensures
        lookup_ptb(t, k) == lookup_ptb(s, k),
{
    if has_slug(s, k) {
        let j = choose|j: int| 0 <= j < s.len() && #[trigger] s[j].market_slug@ == k;
        lemma_lookup_at(s, j);
        assert(s[j].market_slug@ != key);
        let m = choose|m: int| 0 <= m < t.len() && #[trigger] t[m] == s[j];
        lemma_lookup_at(t, m);
    } else if has_slug(t, k) {
        let m = choose|m: int| 0 <= m < t.len() && #[trigger] t[m].market_slug@ == k;
        assert(t[m].market_slug@ != key);
        let j = choose|j: int| 0 <= j < s.len() && #[trigger] s[j] == t[m];
        assert(s[j].market_slug@ == k);
        assert(false);
    }
}

fn find_slug(records: &Vec<PriceToBeat>, key: &MarketSlug) -> (r: Option<usize>)
    requires
        unique_slugs(records@),
    ensures
        match r {
            Some(i) => i < records@.len() && records@[i as int].market_slug@ == key@,
            None => !has_slug(records@, key@),
        },
{
    let mut i: usize = 0;
    while i < records.len()
        invariant
            i <= records.len(),
            forall|j: int| 0 <= j < i ==> #[trigger] records@[j].market_slug@ != key@,
        decreases records.len() - i,
    {
        if records[i].market_slug.same_as(key) {
            return Some(i);
        }
        i = i + 1;
    }
    None
}

impl View for PtbStore {
    type V = Seq<PriceToBeat>;

    closed spec fn view(&self) -> Seq<PriceToBeat> {
        self.records@
    }
}

impl PtbStore {
    #[verifier::type_invariant]
    closed spec fn inv(self) -> bool {
        unique_slugs(self.records@)
    }

    pub fn new() -> (r: PtbStore)
        ensures
            r@ == Seq::<PriceToBeat>::empty(),
    {
        PtbStore { records: Vec::new() }
    }

    /// No two records share a market slug.
    pub fn check_unique(&self)
        ensures
            unique_slugs(self@),
    {
        proof {
            use_type_invariant(self);
        }
    }

    /// Stores `ptb` under its market slug, in place of the record that slug had; returns
    /// that record.
    pub fn insert_ptb(&mut self, ptb: PriceToBeat) -> (r: Option<PriceToBeat>)
        ensures
            unique_slugs(final(self)@),
            r == lookup_ptb(old(self)@, ptb.market_slug@),
            lookup_ptb(final(self)@, ptb.market_slug@) == Some(ptb),
            forall|k: Seq<char>| k != ptb.market_slug@ ==> #[trigger] lookup_ptb(final(self)@, k)
                == lookup_ptb(old(self)@, k),
            final(self)@.len() == old(self)@.len() + (if r is None { 1int } else { 0int }),
    {
        proof {
            use_type_invariant(&*self);
        }
        let ghost key = ptb.market_slug@;
        let mut records = Vec::new();
        std::mem::swap(&mut records, &mut self.records);
        let ghost before = records@;
        let r = match find_slug(&records, &ptb.market_slug) {
            Some(i) => {
                let previous = records.remove(i);
                records.insert(i, ptb);
                proof {
                    assert(records@ =~= before.update(i as int, ptb));
                    assert forall|x: int, y: int| 0 <= x < y < records@.len() implies records@[x].market_slug@
                        != records@[y].market_slug@ by {
                        if x != i && y != i {
                            assert(records@[x] == before[x] && records@[y] == before[y]);
                        } else if x == i {
                            assert(records@[y] == before[y]);
                        } else {
                            assert(records@[x] == before[x]);
                        }
                    }
                    lemma_lookup_at(before, i as int);
                    lemma_lookup_at(records@, i as int);
                    assert forall|k: Seq<char>| k != key implies #[trigger] lookup_ptb(records@, k)
                        == lookup_ptb(before, k) by {
                        assert forall|j: int| 0 <= j < before.len() && #[trigger] before[j].market_slug@
                            != key implies exists|m: int| 0 <= m < records@.len() && #[trigger] records@[m]
                            == before[j] by {
                            assert(records@[j] == before[j]);
                        }
                        assert forall|m: int| 0 <= m < records@.len() && #[trigger] records@[m].market_slug@
                            != key implies exists|j: int| 0 <= j < before.len() && #[trigger] before[j]
                            == records@[m] by {
                            assert(records@[m] == before[m]);
                        }
                        lemma_lookup_other(before, records@, key, k);
                    }
                }
                Some(previous)
            },
            None => {
                records.push(ptb);
                proof {
                    let n = before.len();
                    assert(records@ =~= before.push(ptb));
                    assert forall|x: int, y: int| 0 <= x < y < records@.len() implies records@[x].market_slug@
                        != records@[y].market_slug@ by {
                        if y == n {
                            assert(records@[x] == before[x]);
                        } else {
                            assert(records@[x] == before[x] && records@[y] == before[y]);
                        }
                    }
                    lemma_lookup_at(records@, n as int);
                    assert forall|k: Seq<char>| k != key implies #[trigger] lookup_ptb(records@, k)
                        == lookup_ptb(before, k) by {
                        assert forall|j: int| 0 <= j < before.len() && #[trigger] before[j].market_slug@
                            != key implies exists|m: int| 0 <= m < records@.len() && #[trigger] records@[m]
                            == before[j] by {
                            assert(records@[j] == before[j]);
                        }
                        assert forall|m: int| 0 <= m < records@.len() && #[trigger] records@[m].market_slug@
                            != key implies exists|j: int| 0 <= j < before.len() && #[trigger] before[j]
                            == records@[m] by {
                            assert(records@[m] == before[m]);
                        }
                        lemma_lookup_other(before, records@, key, k);
                    }
                }
                None
            },
        };
        self.records = records;
        r
    }

    /// Stores a pending record for the market.
    pub fn insert_pending_for_market(&mut self, market: &Market) -> (r: Option<PriceToBeat>)
        ensures
            unique_slugs(final(self)@),
            r == lookup_ptb(old(self)@, market.slug@),
            lookup_ptb(final(self)@, market.slug@) == Some(
                bare_ptb(market.slug, market.asset, market.timeframe, market.open_ms, PtbStatus::PendingPtb),
            ),
            forall|k: Seq<char>| k != market.slug@ ==> #[trigger] lookup_ptb(final(self)@, k)
                == lookup_ptb(old(self)@, k),
    {
        self.insert_ptb(PriceToBeat::pending(market.slug.duplicate(), market.asset, market.timeframe, market.open_ms))
    }

    /// Stores a missing record for the market, checked at `checked_at_ms`.
    pub fn insert_missing_for_market(&mut self, market: &Market, checked_at_ms: i64) -> (r: Option<PriceToBeat>)
        ensures
            unique_slugs(final(self)@),
            r == lookup_ptb(old(self)@, market.slug@),
            lookup_ptb(final(self)@, market.slug@) == Some(
                PriceToBeat {
                    checked_at_ms: Some(checked_at_ms),
                    ..bare_ptb(market.slug, market.asset, market.timeframe, market.open_ms, PtbStatus::MissingPtb)
                },
            ),
            forall|k: Seq<char>| k != market.slug@ ==> #[trigger] lookup_ptb(final(self)@, k)
                == lookup_ptb(old(self)@, k),
    {
        self.insert_ptb(
            PriceToBeat::missing(market.slug.duplicate(), market.asset, market.timeframe, market.open_ms, checked_at_ms),
        )
    }

    pub fn get_ptb_for_market(&self, market_slug: &MarketSlug) -> (r: Option<&PriceToBeat>)
        ensures
            deref_ptb(r) == lookup_ptb(self@, market_slug@),
    {
        proof {
            use_type_invariant(self);
        }
        match find_slug(&self.records, market_slug) {
            Some(i) => {
                proof {
                    lemma_lookup_at(self.records@, i as int);
                }
                Some(&self.records[i])
            },
            None => None,
        }
    }

    pub fn get_status_for_market(&self, market_slug: &MarketSlug) -> (r: Option<PtbStatus>)
        ensures
            r == match lookup_ptb(self@, market_slug@) {
                Some(p) => Some(p.status),
                None => None,
            },
    {
        match self.get_ptb_for_market(market_slug) {
            Some(p) => Some(p.status),
            None => None,
        }
    }

    pub fn has_ptb_for_market(&self, market_slug: &MarketSlug) -> (r: bool)
        ensures
            r == (lookup_ptb(self@, market_slug@) is Some),
    {
        self.get_ptb_for_market(market_slug).is_some()
    }

    /// The market has an exact price from its opening tick.
    pub fn has_exact_ptb_for_market(&self, market_slug: &MarketSlug) -> (r: bool)
        ensures
            r == match lookup_ptb(self@, market_slug@) {
                Some(p) => exact_open_tick_spec(p),
                None => false,
            },
    {
        match self.get_ptb_for_market(market_slug) {
            Some(p) => p.is_exact_rtds_open_tick(),
            None => false,
        }
    }

    /// The market's exact price, where it has one.
    pub fn value_for_market(&self, market_slug: &MarketSlug) -> (r: Option<Decimal>)
        ensures
            match r {
                Some(d) => lookup_ptb(self@, market_slug@) is Some && ptb_value_spec(
                    lookup_ptb(self@, market_slug@)->0,
                ) == Some(d@),
                None => lookup_ptb(self@, market_slug@) is None || ptb_value_spec(
                    lookup_ptb(self@, market_slug@)->0,
                ) is None,
            },
    {
        match self.get_ptb_for_market(market_slug) {
            Some(p) => p.value(),
            None => None,
        }
    }

    /// Removes the record of the market and returns it.
    pub fn remove_market(&mut self, market_slug: &MarketSlug) -> (r: Option<PriceToBeat>)
        ensures
            unique_slugs(final(self)@),
            r == lookup_ptb(old(self)@, market_slug@),
            lookup_ptb(final(self)@, market_slug@) is None,
            forall|k: Seq<char>| k != market_slug@ ==> #[trigger] lookup_ptb(final(self)@, k)
                == lookup_ptb(old(self)@, k),
            final(self)@.len() == old(self)@.len() - (if r is None { 0int } else { 1int }),
    {
        proof {
            use_type_invariant(&*self);
        }
        let ghost key = market_slug@;
        match find_slug(&self.records, market_slug) {
            Some(i) => {
                let mut records = Vec::new();
                std::mem::swap(&mut records, &mut self.records);
                let ghost before = records@;
                let removed = records.remove(i);
                proof {
                    assert forall|x: int, y: int| 0 <= x < y < records@.len() implies records@[x].market_slug@
                        != records@[y].market_slug@ by {
                        if x < i && y < i {
                            assert(records@[x] == before[x] && records@[y] == before[y]);
                        } else if x < i {
                            assert(records@[x] == before[x] && records@[y] == before[y + 1]);
                        } else {
                            assert(records@[x] == before[x + 1] && records@[y] == before[y + 1]);
                        }
                    }
                    lemma_lookup_at(before, i as int);
                    assert(!has_slug(records@, key)) by {
                        if has_slug(records@, key) {
                            let m = choose|m: int| 0 <= m < records@.len() && #[trigger] records@[m].market_slug@
                                == key;
                            if m < i {
                                assert(records@[m] == before[m]);
                            } else {
                                assert(records@[m] == before[m + 1]);
                            }
                        }
                    }
                    assert forall|k: Seq<char>| k != key implies #[trigger] lookup_ptb(records@, k)
                        == lookup_ptb(before, k) by {
                        assert forall|j: int| 0 <= j < before.len() && #[trigger] before[j].market_slug@
                            != key implies exists|m: int| 0 <= m < records@.len() && #[trigger] records@[m]
                            == before[j] by {
                            if j < i {
                                assert(records@[j] == before[j]);
                            } else {
                                assert(j != i);
                                assert(records@[j - 1] == before[j]);
                            }
                        }
                        assert forall|m: int| 0 <= m < records@.len() && #[trigger] records@[m].market_slug@
                            != key implies exists|j: int| 0 <= j < before.len() && #[trigger] before[j]
                            == records@[m] by {
                            if m < i {
                                assert(records@[m] == before[m]);
                            } else {
                                assert(records@[m] == before[m + 1]);
                            }
                        }
                        lemma_lookup_other(before, records@, key, k);
                    }
                }
                self.records = records;
                Some(removed)
            },
            None => None,
        }
    }

    pub fn len(&self) -> (r: usize)
        ensures
            r == self@.len(),
    {
        self.records.len()
    }

    pub fn is_empty(&self) -> (r: bool)
        ensures
            r == (self@.len() == 0),
    {
        self.records.len() == 0
    }

    /// All records, in store order.
    pub fn all(&self) -> (r: &Vec<PriceToBeat>)
        ensures
            r@ == self@,
    {
        &self.records
    }

    /// The records holding an exact price from the opening tick, in store order.
    pub fn captured_exact(&self) -> (r: Vec<PriceToBeat>)
        ensures
            r@ == self@.filter(|p: PriceToBeat| exact_open_tick_spec(p)),
    {
        let r = self.select(PtbSelection::CapturedExact);
        assert((|p: PriceToBeat| selected_spec(PtbSelection::CapturedExact, p)) =~= (|p: PriceToBeat| exact_open_tick_spec(p)));
        r
    }

    /// The pending records, in store order.
    pub fn pending(&self) -> (r: Vec<PriceToBeat>)
        ensures
            r@ == self@.filter(|p: PriceToBeat| p.status == PtbStatus::PendingPtb),
    {
        let r = self.select(PtbSelection::Pending);
        assert((|p: PriceToBeat| selected_spec(PtbSelection::Pending, p)) =~= (|p: PriceToBeat| p.status == PtbStatus::PendingPtb));
        r
    }

    /// The missing records, in store order.
    pub fn missing(&self) -> (r: Vec<PriceToBeat>)
        ensures
            r@ == self@.filter(|p: PriceToBeat| p.status == PtbStatus::MissingPtb),
    {
        let r = self.select(PtbSelection::Missing);
        assert((|p: PriceToBeat| selected_spec(PtbSelection::Missing, p)) =~= (|p: PriceToBeat| p.status == PtbStatus::MissingPtb));
        r
    }

    /// The invalid records, in store order.
    pub fn invalid(&self) -> (r: Vec<PriceToBeat>)
        ensures
            r@ == self@.filter(|p: PriceToBeat| p.status == PtbStatus::InvalidPtb),
    {
        let r = self.select(PtbSelection::Invalid);
        assert((|p: PriceToBeat| selected_spec(PtbSelection::Invalid, p)) =~= (|p: PriceToBeat| p.status == PtbStatus::InvalidPtb));
        r
    }

    fn select(&self, which: PtbSelection) -> (r: Vec<PriceToBeat>)
        ensures
            r@ == self@.filter(|p: PriceToBeat| selected_spec(which, p)),
    {
        let ghost pred = |p: PriceToBeat| selected_spec(which, p);
        let mut out: Vec<PriceToBeat> = Vec::new();
        let mut i: usize = 0;
        assert(self.records@.take(0) =~= Seq::<PriceToBeat>::empty());
        while i < self.records.len()
            invariant
                i <= self.records.len(),
                pred == (|p: PriceToBeat| selected_spec(which, p)),
                out@ == self.records@.take(i as int).filter(pred),
            decreases self.records.len() - i,
        {
            let p = &self.records[i];
            proof {
                assert(self.records@.take(i + 1) =~= self.records@.take(i as int).push(*p));
                self.records@.take(i as int).lemma_filter_push(*p, pred);
            }
            if is_selected(which, p) {
                out.push(p.duplicate());
            }
            i = i + 1;
        }
        assert(self.records@.take(i as int) =~= self.records@);
        out
    }
}

/// Which records a selection keeps.
#[derive(Debug, Clone, Copy, PartialEq, Eq)]
enum PtbSelection {
    CapturedExact,
    Pending,
    Missing,
    Invalid,
}

spec fn selected_spec(which: PtbSelection, p: PriceToBeat) -> bool {
    match which {
        PtbSelection::CapturedExact => exact_open_tick_spec(p),
        PtbSelection::Pending => p.status == PtbStatus::PendingPtb,
        PtbSelection::Missing => p.status == PtbStatus::MissingPtb,
        PtbSelection::Invalid => p.status == PtbStatus::InvalidPtb,
    }
}

fn is_selected(which: PtbSelection, p: &PriceToBeat) -> (r: bool)
    ensures
        r == selected_spec(which, *p),
{
    match which {
        PtbSelection::CapturedExact => p.is_exact_rtds_open_tick(),
        PtbSelection::Pending => p.is_pending(),
        PtbSelection::Missing => p.is_missing(),
        PtbSelection::Invalid => p.is_invalid(),
    }
}

} // verus!
