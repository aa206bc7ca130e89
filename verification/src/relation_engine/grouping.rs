//! Grouping markets that settle together: same asset, same end time.
use vstd::prelude::*;

use crate::types::asset::{asset_rank, Asset};
use crate::types::market::Market;
use crate::types::timeframe::Timeframe;

verus! {

/// The asset and end time shared by the markets of a group.
#[derive(Debug, Clone, Copy, PartialEq, Eq, Hash, Structural)]
pub struct GroupKey {
    pub asset: Asset,
    pub end_ms: i64,
}

/// Markets sharing one key, in the order they were given.
#[derive(Debug, Clone)]
pub struct MarketGroup<M> {
    pub key: GroupKey,
    pub markets: Vec<M>,
}

/// What the relation engine reads of a market.
pub trait RelationMarket: Sized {
    spec fn asset_spec(&self) -> Asset;

    spec fn timeframe_spec(&self) -> Timeframe;

    spec fn slug_spec(&self) -> Seq<char>;

    spec fn up_token_spec(&self) -> Seq<char>;

    spec fn down_token_spec(&self) -> Seq<char>;

    spec fn open_ms_spec(&self) -> i64;

    spec fn end_ms_spec(&self) -> i64;

    spec fn active_spec(&self) -> bool;

    spec fn closed_spec(&self) -> bool;

    fn asset(&self) -> (r: Asset)
        ensures
            r == self.asset_spec(),
    ;

    fn timeframe(&self) -> (r: Timeframe)
        ensures
            r == self.timeframe_spec(),
    ;

    fn slug(&self) -> (r: &str)
        ensures
            r@ == self.slug_spec(),
    ;

    fn up_token_id(&self) -> (r: &str)
        ensures
            r@ == self.up_token_spec(),
    ;

    fn down_token_id(&self) -> (r: &str)
        ensures
            r@ == self.down_token_spec(),
    ;

    fn open_ms(&self) -> (r: i64)
        ensures
            r == self.open_ms_spec(),
    ;

    fn end_ms(&self) -> (r: i64)
        ensures
            r == self.end_ms_spec(),
    ;

    fn active(&self) -> (r: bool)
        ensures
            r == self.active_spec(),
    ;

    fn closed(&self) -> (r: bool)
        ensures
            r == self.closed_spec(),
    ;

    /// A copy equal to this market.
    fn copy_market(&self) -> (r: Self)
        ensures
            r == *self,
    ;

    /// Live at `now_ms`: active, not closed, opened and not yet ended.
    fn is_live_at(&self, now_ms: i64) -> (r: bool)
        ensures
            r == (self.active_spec() && !self.closed_spec() && self.open_ms_spec() <= now_ms && now_ms
                < self.end_ms_spec()),
    {
        self.active() && !self.closed() && self.open_ms() <= now_ms && now_ms < self.end_ms()
    }
}

/// Live at `now_ms`, as the relation engine reads it.
pub open spec fn relation_live<M: RelationMarket>(m: M, now_ms: i64) -> bool {
    m.active_spec() && !m.closed_spec() && m.open_ms_spec() <= now_ms && now_ms < m.end_ms_spec()
}

impl RelationMarket for Market {
    open spec fn asset_spec(&self) -> Asset {
        self.asset
    }

    open spec fn timeframe_spec(&self) -> Timeframe {
        self.timeframe
    }

    open spec fn slug_spec(&self) -> Seq<char> {
        self.slug@
    }

    open spec fn up_token_spec(&self) -> Seq<char> {
        self.up_token_id@
    }

    open spec fn down_token_spec(&self) -> Seq<char> {
        self.down_token_id@
    }

    open spec fn open_ms_spec(&self) -> i64 {
        self.open_ms
    }

    open spec fn end_ms_spec(&self) -> i64 {
        self.end_ms
    }

    open spec fn active_spec(&self) -> bool {
        self.active
    }

    open spec fn closed_spec(&self) -> bool {
        self.closed
    }

    fn asset(&self) -> (r: Asset) {
        self.asset
    }

    fn timeframe(&self) -> (r: Timeframe) {
        self.timeframe
    }

    fn slug(&self) -> (r: &str) {
        self.slug.as_str()
    }

    fn up_token_id(&self) -> (r: &str) {
        self.up_token_id.as_str()
    }

    fn down_token_id(&self) -> (r: &str) {
        self.down_token_id.as_str()
    }

    fn open_ms(&self) -> (r: i64) {
        self.open_ms
    }

    fn end_ms(&self) -> (r: i64) {
        self.end_ms
    }

    fn active(&self) -> (r: bool) {
        self.active
    }

    fn closed(&self) -> (r: bool) {
        self.closed
    }

    fn copy_market(&self) -> (r: Market) {
        self.duplicate()
    }
}

/// The group key of a market.
pub open spec fn key_of_market<M: RelationMarket>(m: M) -> GroupKey {
    GroupKey { asset: m.asset_spec(), end_ms: m.end_ms_spec() }
}

/// Keys ordered by asset, then by end time.
pub open spec fn key_before(a: GroupKey, b: GroupKey) -> bool {
    asset_rank(a.asset) < asset_rank(b.asset) || (a.asset == b.asset && a.end_ms < b.end_ms)
}

/// The markets of `input` with key `key`, in input order.
pub open spec fn with_key<M: RelationMarket>(input: Seq<M>, key: GroupKey) -> Seq<M> {
    input.filter(|m: M| key_of_market(m) == key)
}

/// `groups` is `input` grouped by key: one non-empty group per key that occurs, in
/// increasing key order, each holding its markets in input order.
pub open spec fn grouped<M: RelationMarket>(input: Seq<M>, groups: Seq<MarketGroup<M>>) -> bool {
    &&& forall|i: int, j: int| 0 <= i < j < groups.len() ==> key_before(groups[i].key, groups[j].key)
    &&& forall|i: int| 0 <= i < groups.len() ==> #[trigger] groups[i].markets@ == with_key(input, groups[i].key)
        && groups[i].markets@.len() > 0
    &&& forall|k: int| 0 <= k < input.len() ==> exists|i: int| 0 <= i < groups.len() && #[trigger] groups[i].key
        == key_of_market(#[trigger] input[k])
}

fn key_less(a: GroupKey, b: GroupKey) -> (r: bool)
    ensures
        r == key_before(a, b),
{
    let ra = a.asset.rank();
    let rb = b.asset.rank();
    ra < rb || (ra == rb && a.end_ms < b.end_ms)
}

proof fn lemma_rank_injective(a: Asset, b: Asset)
    ensures
        asset_rank(a) == asset_rank(b) ==> a == b,
{
}

/// Groups the markets by asset and end time, ordered by asset then end time; each
/// group keeps its markets in input order.
pub fn group_by_asset_and_end_ms<M: RelationMarket>(markets: Vec<M>) -> (r: Vec<MarketGroup<M>>)
    ensures
        grouped(markets@, r@),
{
    let ghost all = markets@;
    let n = markets.len();
    let mut source = markets;
    let mut groups: Vec<MarketGroup<M>> = Vec::new();
    let mut i: usize = 0;
    proof {
        assert(all.take(0) =~= Seq::<M>::empty());
    }
    while source.len() > 0
        invariant
            i + source@.len() == n,
            n == all.len(),
            source@ == all.skip(i as int),
            grouped(all.take(i as int), groups@),
        decreases source@.len(),
    {
        let m = source.remove(0);
        let ghost prefix = all.take(i as int);
        let ghost next = all.take(i + 1);
        proof {
            assert(next =~= prefix.push(m));
            assert(all.skip(i + 1) =~= all.skip(i as int).drop_first());
        }
        let key = GroupKey { asset: m.asset(), end_ms: m.end_ms() };
        let mut p: usize = 0;
        while p < groups.len() && key_less(groups[p].key, key)
            invariant
                p <= groups@.len(),
                forall|q: int| 0 <= q < p ==> key_before(#[trigger] groups@[q].key, key),
            decreases groups@.len() - p,
        {
            p = p + 1;
        }
        let ghost before = groups@;
        proof {
            assert forall|g: int| 0 <= g < before.len() && before[g].key != key implies #[trigger] with_key(
                next,
                before[g].key,
            ) == with_key(prefix, before[g].key) by {
                prefix.lemma_filter_push(m, |x: M| key_of_market(x) == before[g].key);
            }
            prefix.lemma_filter_push(m, |x: M| key_of_market(x) == key);
        }
        if p < groups.len() && groups[p].key == key {
            let mut g = groups.remove(p);
            g.markets.push(m);
            groups.insert(p, g);
            proof {
                assert(groups@ == before.update(p as int, g));
                assert forall|x: int, y: int| 0 <= x < y < groups@.len() implies key_before(
                    groups@[x].key,
                    groups@[y].key,
                ) by {
                    assert(key_before(before[x].key, before[y].key));
                }
                assert forall|x: int| 0 <= x < groups@.len() implies #[trigger] groups@[x].markets@ == with_key(
                    next,
                    groups@[x].key,
                ) && groups@[x].markets@.len() > 0 by {
                    if x != p {
                        assert(groups@[x] == before[x]);
                        if x < p {
                            assert(key_before(before[x].key, before[p as int].key));
                        } else {
                            assert(key_before(before[p as int].key, before[x].key));
                        }
                        assert(before[x].key != key);
                    }
                }
                assert forall|k: int| 0 <= k < next.len() implies exists|x: int| 0 <= x < groups@.len()
                    && #[trigger] groups@[x].key == key_of_market(#[trigger] next[k]) by {
                    if k < prefix.len() {
                        assert(next[k] == prefix[k]);
                        let x = choose|x: int| 0 <= x < before.len() && #[trigger] before[x].key == key_of_market(
                            prefix[k],
                        );
                        assert(groups@[x].key == before[x].key);
                    } else {
                        assert(groups@[p as int].key == key);
                    }
                }
            }
        } else {
            let mut ms: Vec<M> = Vec::new();
            ms.push(m);
            let g = MarketGroup { key, markets: ms };
            proof {
                assert forall|x: int| 0 <= x < before.len() implies #[trigger] before[x].key != key by {
                    if x < p {
                        assert(key_before(before[x].key, key));
                    } else if x == p {
                    } else {
                        assert(key_before(before[p as int].key, before[x].key));
                        lemma_rank_injective(before[p as int].key.asset, key.asset);
                    }
                }
                assert(with_key(prefix, key) =~= Seq::<M>::empty()) by {
                    let f = with_key(prefix, key);
                    if f.len() > 0 {
                        prefix.filter_lemma(|x: M| key_of_market(x) == key);
                        assert(f.contains(f[0]));
                        prefix.lemma_filter_contains_rev(|x: M| key_of_market(x) == key, f[0]);
                        assert(prefix.contains(f[0]));
                        let k = choose|k: int| 0 <= k < prefix.len() && prefix[k] == f[0];
                        assert(key_of_market(prefix[k]) == key);
                        let x = choose|x: int| 0 <= x < before.len() && #[trigger] before[x].key == key_of_market(
                            prefix[k],
                        );
                    }
                }
                assert(g.markets@ =~= with_key(next, key));
            }
            groups.insert(p, g);
            proof {
                assert(groups@ == before.insert(p as int, g));
                assert forall|x: int, y: int| 0 <= x < y < groups@.len() implies key_before(
                    groups@[x].key,
                    groups@[y].key,
                ) by {
                    if y < p {
                        assert(key_before(before[x].key, before[y].key));
                    } else if y == p {
                        assert(key_before(before[x].key, key));
                    } else if x < p {
                        assert(key_before(before[x].key, before[y - 1].key));
                    } else if x == p {
                        assert(groups@[y] == before[y - 1]);
                        if p < before.len() {
                            assert(!key_before(before[p as int].key, key));
                            assert(before[p as int].key != key);
                            lemma_rank_injective(before[p as int].key.asset, key.asset);
                            if y - 1 > p {
                                assert(key_before(before[p as int].key, before[y - 1].key));
                            }
                        }
                    } else {
                        assert(key_before(before[x - 1].key, before[y - 1].key));
                    }
                }
                assert forall|x: int| 0 <= x < groups@.len() implies #[trigger] groups@[x].markets@ == with_key(
                    next,
                    groups@[x].key,
                ) && groups@[x].markets@.len() > 0 by {
                    if x < p {
                        assert(groups@[x] == before[x]);
                    } else if x > p {
                        assert(groups@[x] == before[x - 1]);
                    }
                }
                assert forall|k: int| 0 <= k < next.len() implies exists|x: int| 0 <= x < groups@.len()
                    && #[trigger] groups@[x].key == key_of_market(#[trigger] next[k]) by {
                    if k < prefix.len() {
                        assert(next[k] == prefix[k]);
                        let x = choose|x: int| 0 <= x < before.len() && #[trigger] before[x].key == key_of_market(
                            prefix[k],
                        );
                        if x < p {
                            assert(groups@[x] == before[x]);
                        } else {
                            assert(groups@[x + 1] == before[x]);
                        }
                    } else {
                        assert(groups@[p as int].key == key);
                    }
                }
            }
        }
        i = i + 1;
    }
    proof {
        assert(all.take(i as int) =~= all);
    }
    groups
}

/// The live markets, in input order.
pub fn live_markets_only<M: RelationMarket>(markets: Vec<M>, now_ms: i64) -> (r: Vec<M>)
    ensures
        r@ == markets@.filter(|m: M| relation_live(m, now_ms)),
{
    let ghost all = markets@;
    let ghost pred = |m: M| relation_live(m, now_ms);
    let n = markets.len();
    let mut source = markets;
    let mut kept: Vec<M> = Vec::new();
    let mut i: usize = 0;
    proof {
        assert(all.take(0) =~= Seq::<M>::empty());
    }
    while source.len() > 0
        invariant
            i + source@.len() == n,
            n == all.len(),
            source@ == all.skip(i as int),
            pred == (|m: M| relation_live(m, now_ms)),
            kept@ == all.take(i as int).filter(pred),
        decreases source@.len(),
    {
        let m = source.remove(0);
        proof {
            assert(all.take(i + 1) =~= all.take(i as int).push(m));
            assert(all.skip(i + 1) =~= all.skip(i as int).drop_first());
            all.take(i as int).lemma_filter_push(m, pred);
        }
        if m.is_live_at(now_ms) {
            kept.push(m);
        }
        i = i + 1;
    }
    proof {
        assert(all.take(i as int) =~= all);
    }
    kept
}

} // verus!
