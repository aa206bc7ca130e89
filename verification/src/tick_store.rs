//! Price ticks received from the feed, keyed by symbol and timestamp.
use vstd::prelude::*;

use crate::types::tick::{RtdsSymbol, Tick};

verus! {

/// The latest tick for each (symbol, timestamp), in the order first received.
#[derive(Debug)]
pub struct TickStore {
    ticks: Vec<Tick>,
}

/// Position of the tick for `symbol` at `ts`, if any.
pub open spec fn tick_index(s: Seq<Tick>, symbol: Seq<char>, ts: i64) -> Option<int> {
    if exists|i: int| 0 <= i < s.len() && #[trigger] s[i].symbol@ == symbol && s[i].timestamp_ms == ts {
        Some(
            choose|i: int| 0 <= i < s.len() && #[trigger] s[i].symbol@ == symbol && s[i].timestamp_ms == ts,
        )
    } else {
        None
    }
}

/// No two ticks share symbol and timestamp.
pub open spec fn unique_ticks(s: Seq<Tick>) -> bool {
    forall|i: int, j: int|
        0 <= i < j < s.len() ==> !(s[i].symbol@ == s[j].symbol@ && s[i].timestamp_ms == s[j].timestamp_ms)
}

/// The tick for `symbol` at `ts`, if any.
pub open spec fn lookup_tick(s: Seq<Tick>, symbol: Seq<char>, ts: i64) -> Option<Tick> {
    match tick_index(s, symbol, ts) {
        Some(i) => Some(s[i]),
        None => None,
    }
}

proof fn lemma_tick_index_unique(s: Seq<Tick>, i: int)
    requires
        unique_ticks(s),
        0 <= i < s.len(),
    ensures
        tick_index(s, s[i].symbol@, s[i].timestamp_ms) == Some(i),
{
    let sym = s[i].symbol@;
    let ts = s[i].timestamp_ms;
    assert(s[i].symbol@ == sym && s[i].timestamp_ms == ts);
    let c = choose|c: int| 0 <= c < s.len() && #[trigger] s[c].symbol@ == sym && s[c].timestamp_ms == ts;
    if c < i {
    } else if c > i {
    }
}

/// Where `after` differs from `before` only at ticks keyed (`sym`, `ts`), or by one
/// such tick added at the end, lookups under any other key agree.
proof fn lemma_lookup_tick_other(before: Seq<Tick>, after: Seq<Tick>, sym: Seq<char>, ts: i64, k: Seq<char>, kts: i64)
    requires
        unique_ticks(before),
        unique_ticks(after),
        !(k == sym && kts == ts),
        after.len() == before.len() || after.len() == before.len() + 1,
        forall|j: int|
            0 <= j < after.len() && !(after[j].symbol@ == sym && after[j].timestamp_ms == ts) ==> j < before.len()
                && after[j] == before[j],
        forall|j: int|
            0 <= j < before.len() && !(before[j].symbol@ == sym && before[j].timestamp_ms == ts) ==> after[j]
                == before[j],
    ensures
        lookup_tick(after, k, kts) == lookup_tick(before, k, kts),
{
    if exists|i: int| 0 <= i < before.len() && #[trigger] before[i].symbol@ == k && before[i].timestamp_ms == kts {
        let i = choose|i: int| 0 <= i < before.len() && #[trigger] before[i].symbol@ == k && before[i].timestamp_ms == kts;
        lemma_tick_index_unique(before, i);
        assert(after[i] == before[i]);
        lemma_tick_index_unique(after, i);
    } else {
        assert forall|j: int| 0 <= j < after.len() implies !(#[trigger] after[j].symbol@ == k && after[j].timestamp_ms
            == kts) by {
            if after[j].symbol@ == k && after[j].timestamp_ms == kts {
                assert(after[j] == before[j]);
            }
        }
    }
}

impl View for TickStore {
    type V = Seq<Tick>;

    closed spec fn view(&self) -> Seq<Tick> {
        self.ticks@
    }
}

fn find_tick(ticks: &Vec<Tick>, symbol: &RtdsSymbol, ts: i64) -> (r: Option<usize>)
    requires
        unique_ticks(ticks@),
    ensures
        match r {
            Some(i) => i < ticks@.len() && tick_index(ticks@, symbol@, ts) == Some(i as int),
            None => tick_index(ticks@, symbol@, ts) is None,
        },
{
    let mut i: usize = 0;
    while i < ticks.len()
        invariant
            i <= ticks.len(),
            unique_ticks(ticks@),
            forall|j: int|
                0 <= j < i ==> !(#[trigger] ticks@[j].symbol@ == symbol@ && ticks@[j].timestamp_ms == ts),
        decreases ticks.len() - i,
    {
        if ticks[i].matches_symbol_and_timestamp(symbol, ts) {
            proof {
                let c = choose|c: int|
                    0 <= c < ticks@.len() && #[trigger] ticks@[c].symbol@ == symbol@ && ticks@[c].timestamp_ms == ts;
                assert(ticks@[i as int].symbol@ == symbol@);
                if c != i {
                    assert(c > i);
                }
            }
            return Some(i);
        }
        i = i + 1;
    }
    None
}

impl TickStore {
    #[verifier::type_invariant]
    closed spec fn inv(self) -> bool {
        unique_ticks(self.ticks@)
    }

    pub fn new() -> (r: TickStore)
        ensures
            r@ == Seq::<Tick>::empty(),
    {
        TickStore { ticks: Vec::new() }
    }

    /// Stores `tick` in place of the tick with the same symbol and timestamp.
    pub fn insert_tick(&mut self, tick: Tick)
        ensures
            match tick_index(old(self)@, tick.symbol@, tick.timestamp_ms) {
                Some(i) => final(self)@ == old(self)@.update(i, tick),
                None => final(self)@ == old(self)@.push(tick),
            },
            lookup_tick(final(self)@, tick.symbol@, tick.timestamp_ms) == Some(tick),
            forall|symbol: Seq<char>, ts: i64|
                !(symbol == tick.symbol@ && ts == tick.timestamp_ms) ==> #[trigger] lookup_tick(final(self)@, symbol, ts)
                    == lookup_tick(old(self)@, symbol, ts),
    {
        proof {
            use_type_invariant(&*self);
        }
        let mut ticks = Vec::new();
        std::mem::swap(&mut ticks, &mut self.ticks);
        let ghost before = ticks@;
        match find_tick(&ticks, &tick.symbol, tick.timestamp_ms) {
            Some(i) => {
                ticks.remove(i);
                ticks.insert(i, tick);
                assert(ticks@ =~= before.update(i as int, tick));
                assert forall|x: int, y: int| 0 <= x < y < ticks@.len() implies !(ticks@[x].symbol@
                    == ticks@[y].symbol@ && ticks@[x].timestamp_ms == ticks@[y].timestamp_ms) by {
                    if x != i && y != i {
                        assert(ticks@[x] == before[x] && ticks@[y] == before[y]);
                    } else if x == i {
                        assert(ticks@[y] == before[y]);
                    } else {
                        assert(ticks@[x] == before[x]);
                    }
                }
            },
            None => {
                ticks.push(tick);
                assert forall|x: int, y: int| 0 <= x < y < ticks@.len() implies !(ticks@[x].symbol@
                    == ticks@[y].symbol@ && ticks@[x].timestamp_ms == ticks@[y].timestamp_ms) by {
                    if y == ticks@.len() - 1 {
                        assert(ticks@[x] == before[x]);
                    } else {
                        assert(ticks@[x] == before[x] && ticks@[y] == before[y]);
                    }
                }
            },
        }
        proof {
            let after = ticks@;
            match tick_index(before, tick.symbol@, tick.timestamp_ms) {
                Some(i) => {
                    assert(after[i] == tick);
                    lemma_tick_index_unique(after, i);
                },
                None => {
                    assert(after[after.len() - 1] == tick);
                    lemma_tick_index_unique(after, after.len() - 1);
                },
            }
            assert forall|symbol: Seq<char>, ts: i64| !(symbol == tick.symbol@ && ts == tick.timestamp_ms) implies #[trigger] lookup_tick(
                after,
                symbol,
                ts,
            ) == lookup_tick(before, symbol, ts) by {
                lemma_lookup_tick_other(before, after, tick.symbol@, tick.timestamp_ms, symbol, ts);
            }
        }
        self.ticks = ticks;
    }

    /// The tick for `symbol` at `timestamp_ms`, if any.
    pub fn get_tick(&self, symbol: &RtdsSymbol, timestamp_ms: i64) -> (r: Option<&Tick>)
        ensures
            match tick_index(self@, symbol@, timestamp_ms) {
                Some(i) => r is Some && *r->0 == self@[i],
                None => r is None,
            },
            match r {
                Some(t) => lookup_tick(self@, symbol@, timestamp_ms) == Some(*t),
                None => lookup_tick(self@, symbol@, timestamp_ms) is None,
            },
    {
        proof {
            use_type_invariant(self);
        }
        match find_tick(&self.ticks, symbol, timestamp_ms) {
            Some(i) => Some(&self.ticks[i]),
            None => None,
        }
    }

    pub fn len(&self) -> (r: usize)
        ensures
            r == self@.len(),
    {
        self.ticks.len()
    }
}

} // verus!
