//! Secondary indexes of the markets: by asset, by timeframe, by asset and end time, and
//! by outcome token.
use vstd::prelude::*;

use crate::keyed::{has_key, lookup_key, Keyed, KeyedList};
use crate::types::asset::Asset;
use crate::types::ids::{MarketSlug, TokenId};
use crate::types::market::Market;
use crate::types::timeframe::Timeframe;

verus! {

/// What a market is indexed under.
#[derive(Debug, Clone, Copy, PartialEq, Eq, Hash, Structural)]
pub enum IndexKey {
    ByAsset(Asset),
    ByTimeframe(Timeframe),
    ByAssetAndEnd(Asset, i64),
}

/// A market slug filed under a key.
#[derive(Debug)]
pub struct IndexEntry {
    pub key: IndexKey,
    pub slug: MarketSlug,
}

/// The market that holds an outcome token.
#[derive(Debug)]
pub struct TokenEntry {
    pub token: TokenId,
    pub slug: MarketSlug,
}

impl Keyed for TokenEntry {
    open spec fn key_of(&self) -> Seq<char> {
        self.token@
    }

    fn key_text(&self) -> (r: &str) {
        self.token.as_str()
    }
}

/// The (key, slug) pairs the entries hold.
pub open spec fn entry_pairs(s: Seq<IndexEntry>) -> Set<(IndexKey, Seq<char>)> {
    Set::new(
        |p: (IndexKey, Seq<char>)|
            exists|i: int| 0 <= i < s.len() && #[trigger] s[i].key == p.0 && s[i].slug@ == p.1,
    )
}

/// No pair is filed twice.
pub open spec fn distinct_entries(s: Seq<IndexEntry>) -> bool {
    forall|i: int, j: int|
        0 <= i < j < s.len() ==> !(s[i].key == s[j].key && s[i].slug@ == s[j].slug@)
}

/// The pairs filed for a market.
pub open spec fn market_pairs(m: Market) -> Set<(IndexKey, Seq<char>)> {
    set![
        (IndexKey::ByAsset(m.asset), m.slug@),
        (IndexKey::ByTimeframe(m.timeframe), m.slug@),
        (IndexKey::ByAssetAndEnd(m.asset, m.end_ms), m.slug@),
    ]
}

proof fn lemma_pairs_push(s: Seq<IndexEntry>, e: IndexEntry)
    ensures
        entry_pairs(s.push(e)) == entry_pairs(s).insert((e.key, e.slug@)),
{
    let t = s.push(e);
    assert forall|p: (IndexKey, Seq<char>)| #[trigger] entry_pairs(t).contains(p) == entry_pairs(s).insert(
        (e.key, e.slug@),
    ).contains(p) by {
        if entry_pairs(s).contains(p) {
            let i = choose|i: int| 0 <= i < s.len() && #[trigger] s[i].key == p.0 && s[i].slug@ == p.1;
            assert(t[i] == s[i]);
        }
        if p == (e.key, e.slug@) {
            assert(t[s.len() as int] == e);
        }
        if entry_pairs(t).contains(p) {
            let i = choose|i: int| 0 <= i < t.len() && #[trigger] t[i].key == p.0 && t[i].slug@ == p.1;
            if i < s.len() {
                assert(t[i] == s[i]);
            }
        }
    }
    assert(entry_pairs(t) =~= entry_pairs(s).insert((e.key, e.slug@)));
}

fn same_key(a: IndexKey, b: IndexKey) -> (r: bool)
    ensures
        r == (a == b),
{
    match (a, b) {
        (IndexKey::ByAsset(x), IndexKey::ByAsset(y)) => x == y,
        (IndexKey::ByTimeframe(x), IndexKey::ByTimeframe(y)) => x == y,
        (IndexKey::ByAssetAndEnd(x, e), IndexKey::ByAssetAndEnd(y, f)) => x == y && e == f,
        _ => false,
    }
}

fn entry_matches(e: &IndexEntry, key: IndexKey, slug: &MarketSlug) -> (r: bool)
    ensures
        r == (e.key == key && e.slug@ == slug@),
{
    same_key(e.key, key) && e.slug.same_as(slug)
}

/// Files `slug` under `key` unless it already is.
fn add_entry(entries: &mut Vec<IndexEntry>, key: IndexKey, slug: &MarketSlug)
    requires
        distinct_entries(old(entries)@),
    ensures
        distinct_entries(final(entries)@),
        entry_pairs(final(entries)@) == entry_pairs(old(entries)@).insert((key, slug@)),
{
    let mut i: usize = 0;
    while i < entries.len()
        invariant
            i <= entries.len(),
            distinct_entries(entries@),
            forall|j: int| 0 <= j < i ==> !(#[trigger] entries@[j].key == key && entries@[j].slug@ == slug@),
        decreases entries.len() - i,
    {
        if entry_matches(&entries[i], key, slug) {
            proof {
                assert(entry_pairs(entries@).contains((key, slug@))) by {
                    assert(entries@[i as int].key == key && entries@[i as int].slug@ == slug@);
                }
                assert(entry_pairs(entries@) =~= entry_pairs(entries@).insert((key, slug@)));
            }
            return;
        }
        i = i + 1;
    }
    let ghost before = entries@;
    let e = IndexEntry { key, slug: slug.duplicate() };
    proof {
        lemma_pairs_push(before, e);
    }
    entries.push(e);
    proof {
        assert(entries@ == before.push(e));
        assert forall|x: int, y: int| 0 <= x < y < entries@.len() implies !(entries@[x].key == entries@[y].key
            && entries@[x].slug@ == entries@[y].slug@) by {
            assert(entries@[x] == before[x]);
            if y < before.len() {
                assert(entries@[y] == before[y]);
            }
        }
    }
}

/// Takes `slug` out of `key`'s entries.
fn remove_entry(entries: &mut Vec<IndexEntry>, key: IndexKey, slug: &MarketSlug)
    requires
        distinct_entries(old(entries)@),
    ensures
        distinct_entries(final(entries)@),
        entry_pairs(final(entries)@) == entry_pairs(old(entries)@).remove((key, slug@)),
{
    let ghost target = (key, slug@);
    let mut source = Vec::new();
    std::mem::swap(&mut source, entries);
    let ghost all = source@;
    let n = source.len();
    let mut kept: Vec<IndexEntry> = Vec::new();
    let mut i: usize = 0;
    proof {
        assert(all.take(0) =~= Seq::<IndexEntry>::empty());
        assert(entry_pairs(kept@) =~= entry_pairs(all.take(0)).remove(target));
    }
    while source.len() > 0
        invariant
            i + source@.len() == n,
            n == all.len(),
            source@ == all.skip(i as int),
            distinct_entries(all),
            distinct_entries(kept@),
            target == (key, slug@),
            entry_pairs(kept@) == entry_pairs(all.take(i as int)).remove(target),
        decreases source@.len(),
    {
        let e = source.remove(0);
        proof {
            assert(all.take(i + 1) =~= all.take(i as int).push(e));
            assert(all.skip(i + 1) =~= all.skip(i as int).drop_first());
            assert(e == all[i as int]);
            lemma_pairs_push(all.take(i as int), e);
        }
        if entry_matches(&e, key, slug) {
            proof {
                assert(entry_pairs(kept@) =~= entry_pairs(all.take(i + 1)).remove(target));
            }
        } else {
            let ghost before = kept@;
            proof {
                assert(!entry_pairs(before).contains((e.key, e.slug@))) by {
                    if entry_pairs(before).contains((e.key, e.slug@)) {
                        let j = choose|j: int| 0 <= j < all.take(i as int).len() && #[trigger] all.take(
                            i as int,
                        )[j].key == e.key && all.take(i as int)[j].slug@ == e.slug@;
                        assert(all[j] == all.take(i as int)[j]);
                    }
                }
                lemma_pairs_push(before, e);
            }
            kept.push(e);
            proof {
                assert(kept@ == before.push(e));
                assert(entry_pairs(kept@) =~= entry_pairs(all.take(i + 1)).remove(target));
                assert forall|x: int, y: int| 0 <= x < y < kept@.len() implies !(kept@[x].key == kept@[y].key
                    && kept@[x].slug@ == kept@[y].slug@) by {
                    assert(kept@[x] == before[x]);
                    if y < before.len() {
                        assert(kept@[y] == before[y]);
                    } else {
                        if kept@[x].key == kept@[y].key && kept@[x].slug@ == kept@[y].slug@ {
                            assert(entry_pairs(before).contains((e.key, e.slug@)));
                        }
                    }
                }
            }
        }
        i = i + 1;
    }
    proof {
        assert(all.take(i as int) =~= all);
    }
    *entries = kept;
}

/// The slugs filed under `key`.
pub open spec fn slugs_under(pairs: Set<(IndexKey, Seq<char>)>, key: IndexKey) -> Set<Seq<char>> {
    Set::new(|s: Seq<char>| pairs.contains((key, s)))
}

/// `slug` is one of the slugs of `v`.
pub open spec fn listed(v: Seq<MarketSlug>, slug: Seq<char>) -> bool {
    exists|m: int| 0 <= m < v.len() && #[trigger] v[m]@ == slug
}

/// One of the first `n` entries files `slug` under `key`.
spec fn filed_among(s: Seq<IndexEntry>, n: int, key: IndexKey, slug: Seq<char>) -> bool {
    exists|j: int| 0 <= j < n && #[trigger] s[j].key == key && s[j].slug@ == slug
}

/// The slugs of `v` are distinct, and they are exactly the members of `set`.
pub open spec fn lists_exactly(v: Seq<MarketSlug>, set: Set<Seq<char>>) -> bool {
    &&& forall|i: int, j: int| 0 <= i < j < v.len() ==> v[i]@ != v[j]@
    &&& forall|s: Seq<char>| set.contains(s) <==> #[trigger] listed(v, s)
}

/// Lookup structures over the markets; each slug is filed at most once under a key,
/// and each token names one market.
#[derive(Debug)]
pub struct MarketIndexes {
    entries: Vec<IndexEntry>,
    tokens: KeyedList<TokenEntry>,
}

impl MarketIndexes {
    #[verifier::type_invariant]
    closed spec fn inv(self) -> bool {
        distinct_entries(self.entries@)
    }

    /// The (key, slug) pairs filed.
    pub closed spec fn pairs(&self) -> Set<(IndexKey, Seq<char>)> {
        entry_pairs(self.entries@)
    }

    /// The slug of the market the token is filed for.
    pub closed spec fn token_slug(&self, token: Seq<char>) -> Option<Seq<char>> {
        match lookup_key(self.tokens@, token) {
            Some(e) => Some(e.slug@),
            None => None,
        }
    }

    pub fn new() -> (r: MarketIndexes)
        ensures
            r.pairs() == Set::<(IndexKey, Seq<char>)>::empty(),
            forall|t: Seq<char>| #[trigger] r.token_slug(t) is None,
    {
        let r = MarketIndexes { entries: Vec::new(), tokens: KeyedList::new() };
        assert(r.pairs() =~= Set::<(IndexKey, Seq<char>)>::empty());
        r
    }

    fn set_token(&mut self, token: &TokenId, slug: &MarketSlug)
        ensures
            final(self).pairs() == old(self).pairs(),
            final(self).token_slug(token@) == Some(slug@),
            forall|t: Seq<char>| t != token@ ==> #[trigger] final(self).token_slug(t) == old(self).token_slug(t),
    {
        let e = TokenEntry { token: token.duplicate(), slug: slug.duplicate() };
        proof {
            use_type_invariant(&*self);
        }
        let mut tokens = KeyedList::new();
        std::mem::swap(&mut tokens, &mut self.tokens);
        tokens.insert(e);
        self.tokens = tokens;
    }

    fn clear_token(&mut self, token: &TokenId)
        ensures
            final(self).pairs() == old(self).pairs(),
            final(self).token_slug(token@) is None,
            forall|t: Seq<char>| t != token@ ==> #[trigger] final(self).token_slug(t) == old(self).token_slug(t),
    {
        proof {
            use_type_invariant(&*self);
        }
        let mut tokens = KeyedList::new();
        std::mem::swap(&mut tokens, &mut self.tokens);
        tokens.remove(token.as_str());
        self.tokens = tokens;
    }

    fn file(&mut self, key: IndexKey, slug: &MarketSlug)
        ensures
            final(self).pairs() == old(self).pairs().insert((key, slug@)),
            forall|t: Seq<char>| #[trigger] final(self).token_slug(t) == old(self).token_slug(t),
    {
        proof {
            use_type_invariant(&*self);
        }
        let mut entries = Vec::new();
        std::mem::swap(&mut entries, &mut self.entries);
        add_entry(&mut entries, key, slug);
        self.entries = entries;
    }

    fn unfile(&mut self, key: IndexKey, slug: &MarketSlug)
        ensures
            final(self).pairs() == old(self).pairs().remove((key, slug@)),
            forall|t: Seq<char>| #[trigger] final(self).token_slug(t) == old(self).token_slug(t),
    {
        proof {
            use_type_invariant(&*self);
        }
        let mut entries = Vec::new();
        std::mem::swap(&mut entries, &mut self.entries);
        remove_entry(&mut entries, key, slug);
        self.entries = entries;
    }

    /// Files the market under its asset, its timeframe, and its asset and end, and
    /// points both its tokens at it.
    pub fn insert(&mut self, market: &Market)
        ensures
            final(self).pairs() == old(self).pairs() + market_pairs(*market),
            final(self).token_slug(market.up_token_id@) == Some(market.slug@),
            final(self).token_slug(market.down_token_id@) == Some(market.slug@),
            forall|t: Seq<char>| t != market.up_token_id@ && t != market.down_token_id@
                ==> #[trigger] final(self).token_slug(t) == old(self).token_slug(t),
            inserted_into(*old(self), *final(self), *market),
    {
        let ghost p0 = self.pairs();
        self.file(IndexKey::ByAsset(market.asset), &market.slug);
        self.file(IndexKey::ByTimeframe(market.timeframe), &market.slug);
        self.file(IndexKey::ByAssetAndEnd(market.asset, market.end_ms), &market.slug);
        assert(self.pairs() =~= p0 + market_pairs(*market));
        self.set_token(&market.up_token_id, &market.slug);
        self.set_token(&market.down_token_id, &market.slug);
    }

    /// Takes the market out of its three keys and drops its two tokens.
    pub fn remove(&mut self, market: &Market)
        ensures
            final(self).pairs() == old(self).pairs() - market_pairs(*market),
            final(self).token_slug(market.up_token_id@) is None,
            final(self).token_slug(market.down_token_id@) is None,
            forall|t: Seq<char>| t != market.up_token_id@ && t != market.down_token_id@
                ==> #[trigger] final(self).token_slug(t) == old(self).token_slug(t),
            removed_from(*old(self), *final(self), *market),
    {
        let ghost p0 = self.pairs();
        self.unfile(IndexKey::ByAsset(market.asset), &market.slug);
        self.unfile(IndexKey::ByTimeframe(market.timeframe), &market.slug);
        self.unfile(IndexKey::ByAssetAndEnd(market.asset, market.end_ms), &market.slug);
        assert(self.pairs() =~= p0 - market_pairs(*market));
        self.clear_token(&market.up_token_id);
        self.clear_token(&market.down_token_id);
    }

    /// Re-files a market whose fields changed.
    pub fn update(&mut self, old_market: &Market, new_market: &Market)
        ensures
            final(self).pairs() == (old(self).pairs() - market_pairs(*old_market)) + market_pairs(*new_market),
            final(self).token_slug(new_market.up_token_id@) == Some(new_market.slug@),
            final(self).token_slug(new_market.down_token_id@) == Some(new_market.slug@),
            forall|t: Seq<char>|
                t != new_market.up_token_id@ && t != new_market.down_token_id@ && (t == old_market.up_token_id@
                    || t == old_market.down_token_id@) ==> #[trigger] final(self).token_slug(t) is None,
            forall|t: Seq<char>|
                t != new_market.up_token_id@ && t != new_market.down_token_id@ && t != old_market.up_token_id@
                    && t != old_market.down_token_id@ ==> #[trigger] final(self).token_slug(t) == old(self).token_slug(t),
    {
        self.remove(old_market);
        self.insert(new_market);
    }

    fn slugs_for(&self, key: IndexKey) -> (r: Vec<MarketSlug>)
        ensures
            lists_exactly(r@, slugs_under(self.pairs(), key)),
    {
        proof {
            use_type_invariant(self);
        }
        let mut out: Vec<MarketSlug> = Vec::new();
        let mut i: usize = 0;
        while i < self.entries.len()
            invariant
                i <= self.entries.len(),
                distinct_entries(self.entries@),
                forall|a: int, b: int| 0 <= a < b < out@.len() ==> out@[a]@ != out@[b]@,
                forall|s: Seq<char>| filed_among(self.entries@, i as int, key, s) <==> #[trigger] listed(out@, s),
            decreases self.entries.len() - i,
        {
            let e = &self.entries[i];
            let ghost before = out@;
            if same_key(e.key, key) {
                proof {
                    assert forall|m: int| 0 <= m < before.len() implies before[m]@ != e.slug@ by {
                        let s = before[m]@;
                        assert(listed(before, s));
                        assert(filed_among(self.entries@, i as int, key, s));
                        let j = choose|j: int| 0 <= j < i && #[trigger] self.entries@[j].key == key
                            && self.entries@[j].slug@ == s;
                        assert(j < i);
                    }
                }
                out.push(e.slug.duplicate());
                proof {
                    assert forall|s: Seq<char>| filed_among(self.entries@, i + 1, key, s) <==> #[trigger] listed(
                        out@,
                        s,
                    ) by {
                        if filed_among(self.entries@, i + 1, key, s) {
                            let j = choose|j: int| 0 <= j < i + 1 && #[trigger] self.entries@[j].key == key
                                && self.entries@[j].slug@ == s;
                            if j < i {
                                assert(filed_among(self.entries@, i as int, key, s));
                                assert(listed(before, s));
                                let m = choose|m: int| 0 <= m < before.len() && #[trigger] before[m]@ == s;
                                assert(out@[m] == before[m]);
                            } else {
                                assert(out@[before.len() as int]@ == s);
                            }
                        }
                        if listed(out@, s) {
                            let m = choose|m: int| 0 <= m < out@.len() && #[trigger] out@[m]@ == s;
                            if m < before.len() {
                                assert(out@[m] == before[m]);
                                assert(listed(before, s));
                                assert(filed_among(self.entries@, i as int, key, s));
                                let j = choose|j: int| 0 <= j < i && #[trigger] self.entries@[j].key == key
                                    && self.entries@[j].slug@ == s;
                                assert(j < i + 1);
                            } else {
                                assert(self.entries@[i as int].key == key && self.entries@[i as int].slug@ == s);
                            }
                        }
                    }
                }
            } else {
                proof {
                    assert forall|s: Seq<char>| filed_among(self.entries@, i + 1, key, s) <==> #[trigger] listed(
                        out@,
                        s,
                    ) by {
                        if filed_among(self.entries@, i + 1, key, s) {
                            let j = choose|j: int| 0 <= j < i + 1 && #[trigger] self.entries@[j].key == key
                                && self.entries@[j].slug@ == s;
                            assert(j < i);
                            assert(filed_among(self.entries@, i as int, key, s));
                        }
                        if listed(out@, s) {
                            assert(filed_among(self.entries@, i as int, key, s));
                            let j = choose|j: int| 0 <= j < i && #[trigger] self.entries@[j].key == key
                                && self.entries@[j].slug@ == s;
                            assert(j < i + 1);
                        }
                    }
                }
            }
            i = i + 1;
        }
        proof {
            assert forall|s: Seq<char>| slugs_under(self.pairs(), key).contains(s) <==> #[trigger] listed(out@, s) by {
                if slugs_under(self.pairs(), key).contains(s) {
                    assert(entry_pairs(self.entries@).contains((key, s)));
                    let j = choose|j: int| 0 <= j < self.entries@.len() && #[trigger] self.entries@[j].key == key
                        && self.entries@[j].slug@ == s;
                    assert(filed_among(self.entries@, i as int, key, s));
                }
                if listed(out@, s) {
                    assert(filed_among(self.entries@, i as int, key, s));
                    let j = choose|j: int| 0 <= j < i && #[trigger] self.entries@[j].key == key
                        && self.entries@[j].slug@ == s;
                    assert(entry_pairs(self.entries@).contains((key, s)));
                }
            }
        }
        out
    }

    /// The slugs of the markets of `asset`.
    pub fn slugs_by_asset(&self, asset: Asset) -> (r: Vec<MarketSlug>)
        ensures
            lists_exactly(r@, slugs_under(self.pairs(), IndexKey::ByAsset(asset))),
    {
        self.slugs_for(IndexKey::ByAsset(asset))
    }

    /// The slugs of the markets of `timeframe`.
    pub fn slugs_by_timeframe(&self, timeframe: Timeframe) -> (r: Vec<MarketSlug>)
        ensures
            lists_exactly(r@, slugs_under(self.pairs(), IndexKey::ByTimeframe(timeframe))),
    {
        self.slugs_for(IndexKey::ByTimeframe(timeframe))
    }

    /// The slugs of the markets of `asset` that end at `end_ms`.
    pub fn slugs_by_asset_and_end_ms(&self, asset: Asset, end_ms: i64) -> (r: Vec<MarketSlug>)
        ensures
            lists_exactly(r@, slugs_under(self.pairs(), IndexKey::ByAssetAndEnd(asset, end_ms))),
    {
        self.slugs_for(IndexKey::ByAssetAndEnd(asset, end_ms))
    }

    /// The slug of the market that holds the token.
    pub fn slug_by_token_id(&self, token_id: &TokenId) -> (r: Option<&MarketSlug>)
        ensures
            match r {
                Some(s) => self.token_slug(token_id@) == Some(s@),
                None => self.token_slug(token_id@) is None,
            },
    {
        match self.tokens.get(token_id.as_str()) {
            Some(e) => Some(&e.slug),
            None => None,
        }
    }

    pub fn clear(&mut self)
        ensures
            final(self).pairs() == Set::<(IndexKey, Seq<char>)>::empty(),
            forall|t: Seq<char>| #[trigger] final(self).token_slug(t) is None,
    {
        self.entries = Vec::new();
        self.tokens = KeyedList::new();
        assert(self.pairs() =~= Set::<(IndexKey, Seq<char>)>::empty());
    }
}

/// `after` is `before` with the market filed: its three pairs added and its two tokens
/// pointing at its slug, every other token as it was.
pub open spec fn inserted_into(before: MarketIndexes, after: MarketIndexes, m: Market) -> bool {
    &&& after.pairs() == before.pairs() + market_pairs(m)
    &&& after.token_slug(m.up_token_id@) == Some(m.slug@)
    &&& after.token_slug(m.down_token_id@) == Some(m.slug@)
    &&& forall|t: Seq<char>|
        t != m.up_token_id@ && t != m.down_token_id@ ==> #[trigger] after.token_slug(t) == before.token_slug(t)
}

/// `after` is `before` with the market taken out: its three pairs removed and its two
/// tokens dropped, every other token as it was.
pub open spec fn removed_from(before: MarketIndexes, after: MarketIndexes, m: Market) -> bool {
    &&& after.pairs() == before.pairs() - market_pairs(m)
    &&& after.token_slug(m.up_token_id@) is None
    &&& after.token_slug(m.down_token_id@) is None
    &&& forall|t: Seq<char>|
        t != m.up_token_id@ && t != m.down_token_id@ ==> #[trigger] after.token_slug(t) == before.token_slug(t)
}

/// Filing a market whose slug and tokens the indexes do not know, then taking it out
/// again, gives back the indexes as they were: the same slugs under every key and the
/// same slug for every token.
pub proof fn lemma_remove_undoes_insert(idx0: MarketIndexes, idx1: MarketIndexes, idx2: MarketIndexes, m: Market)
    requires
        forall|k: IndexKey| !idx0.pairs().contains((k, m.slug@)),
        idx0.token_slug(m.up_token_id@) is None,
        idx0.token_slug(m.down_token_id@) is None,
        inserted_into(idx0, idx1, m),
        removed_from(idx1, idx2, m),
    ensures
        idx2.pairs() == idx0.pairs(),
        forall|k: IndexKey| #[trigger] slugs_under(idx2.pairs(), k) == slugs_under(idx0.pairs(), k),
        forall|t: Seq<char>| #[trigger] idx2.token_slug(t) == idx0.token_slug(t),
{
    assert(idx2.pairs() =~= idx0.pairs()) by {
        assert forall|p: (IndexKey, Seq<char>)| market_pairs(m).contains(p) implies !idx0.pairs().contains(p) by {
            assert(p.1 == m.slug@);
        }
    }
    assert forall|t: Seq<char>| #[trigger] idx2.token_slug(t) == idx0.token_slug(t) by {
        if t != m.up_token_id@ && t != m.down_token_id@ {
            assert(idx1.token_slug(t) == idx0.token_slug(t));
        }
    }
}

} // verus!
