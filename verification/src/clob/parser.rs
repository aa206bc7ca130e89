//! Books from the order-book feed's messages.
use vstd::prelude::*;

use crate::decimal::{decimal_parse, is_pos, Decimal};
use crate::market_scanner::parser::{time_safe, RawTime};
use crate::text::{all_white, is_blank, parse_i64, signed_int_spec, trim, trim_spec};
use crate::types::book::{levels_view, Book, Level, LevelView};
use crate::types::ids::TokenId;

verus! {

/// A price or size field: a JSON string, a JSON number as JSON writes it, or any other
/// JSON value as JSON writes it.
#[derive(Debug, Clone)]
pub enum ClobValue {
    Text(String),
    Number(String),
    Other(String),
}

#[derive(Debug, Clone)]
pub struct ClobBookLevel {
    pub price: Option<ClobValue>,
    pub size: Option<ClobValue>,
}

#[derive(Debug, Clone)]
pub struct ClobPriceChange {
    pub token_id: Option<String>,
    pub side: Option<String>,
    pub price: Option<ClobValue>,
    pub size: Option<ClobValue>,
    pub timestamp: Option<RawTime>,
}

/// One decoded message of the feed.
#[derive(Debug, Clone)]
pub struct ClobRawMessage {
    pub event_type: Option<String>,
    pub token_id: Option<String>,
    pub market: Option<String>,
    pub bids: Option<Vec<ClobBookLevel>>,
    pub asks: Option<Vec<ClobBookLevel>>,
    pub buys: Option<Vec<ClobBookLevel>>,
    pub sells: Option<Vec<ClobBookLevel>>,
    pub changes: Option<Vec<ClobPriceChange>>,
    pub timestamp: Option<RawTime>,
}

/// Why a feed message could not be read.
#[derive(Debug, Clone)]
pub struct ClobParseError {
    pub message: String,
}

/// The decimal a field holds, or the error text.
pub open spec fn value_spec(v: ClobValue) -> Result<(int, nat), Seq<char>> {
    match v {
        ClobValue::Text(t) => match decimal_parse(trim_spec(t@)) {
            Some(d) => Ok(d),
            None => Err("failed to parse decimal string: "@ + t@),
        },
        ClobValue::Number(n) => match decimal_parse(n@) {
            Some(d) => Ok(d),
            None => Err("failed to parse decimal number: "@ + n@),
        },
        ClobValue::Other(o) => Err("unsupported decimal JSON value: "@ + o@),
    }
}

/// The level a raw level makes: none where a field is missing or a value is not
/// positive; an error where a value does not read.
pub open spec fn level_spec(l: ClobBookLevel) -> Result<Option<LevelView>, Seq<char>> {
    match (l.price, l.size) {
        (Some(p), Some(s)) => match value_spec(p) {
            Err(e) => Err(e),
            Ok(pv) => match value_spec(s) {
                Err(e) => Err(e),
                Ok(sv) => Ok(
                    if is_pos(pv) && is_pos(sv) {
                        Some((pv, sv))
                    } else {
                        None
                    },
                ),
            },
        },
        _ => Ok(None),
    }
}

/// The levels the raw levels make, in order, or the first error.
pub open spec fn levels_spec(ls: Seq<ClobBookLevel>) -> Result<Seq<LevelView>, Seq<char>>
    decreases ls.len(),
{
    if ls.len() == 0 {
        Ok(Seq::empty())
    } else {
        match levels_spec(ls.drop_last()) {
            Err(e) => Err(e),
            Ok(prev) => match level_spec(ls.last()) {
                Err(e) => Err(e),
                Ok(Some(l)) => Ok(prev.push(l)),
                Ok(None) => Ok(prev),
            },
        }
    }
}

pub open spec fn source_spec(src: Option<Vec<ClobBookLevel>>) -> Result<Seq<LevelView>, Seq<char>> {
    match src {
        Some(v) => levels_spec(v@),
        None => Ok(Seq::empty()),
    }
}

/// The raw levels of a source; none where the source is missing.
pub open spec fn raw_levels(src: Option<Vec<ClobBookLevel>>) -> Seq<ClobBookLevel> {
    match src {
        Some(v) => v@,
        None => Seq::empty(),
    }
}

/// A raw level with both fields, each reading as a positive decimal.
pub open spec fn level_kept(l: ClobBookLevel) -> bool {
    &&& l.price is Some && l.size is Some
    &&& value_spec(l.price->0) is Ok && value_spec(l.size->0) is Ok
    &&& is_pos(value_spec(l.price->0)->Ok_0) && is_pos(value_spec(l.size->0)->Ok_0)
}

/// The price and size that a raw level's fields read as.
pub open spec fn level_values(l: ClobBookLevel) -> LevelView {
    (value_spec(l.price->0)->Ok_0, value_spec(l.size->0)->Ok_0)
}

/// The positive levels among raw levels, in their order.
pub open spec fn kept_levels(ls: Seq<ClobBookLevel>) -> Seq<LevelView> {
    ls.filter(|l: ClobBookLevel| level_kept(l)).map_values(|l: ClobBookLevel| level_values(l))
}

/// Where every raw level reads, the levels they make are the positive ones among them.
proof fn lemma_levels_are_kept(ls: Seq<ClobBookLevel>)
    requires
        levels_spec(ls) is Ok,
    ensures
        levels_spec(ls)->Ok_0 == kept_levels(ls),
    decreases ls.len(),
{
    reveal_with_fuel(Seq::filter, 1);
    if ls.len() > 0 {
        let rest = ls.drop_last();
        let x = ls.last();
        lemma_levels_are_kept(rest);
        let f = rest.filter(|l: ClobBookLevel| level_kept(l));
        if level_kept(x) {
            assert(ls.filter(|l: ClobBookLevel| level_kept(l)) == f.push(x));
            assert(f.push(x).map_values(|l: ClobBookLevel| level_values(l)) =~= f.map_values(
                |l: ClobBookLevel| level_values(l),
            ).push(level_values(x)));
        } else {
            assert(ls.filter(|l: ClobBookLevel| level_kept(l)) == f);
        }
    }
}

/// Where both sources read, their levels are the positive levels of the first source
/// followed by those of the second.
proof fn lemma_two_sources_are_kept(a: Option<Vec<ClobBookLevel>>, b: Option<Vec<ClobBookLevel>>)
    requires
        two_sources_spec(a, b) is Ok,
    ensures
        two_sources_spec(a, b)->Ok_0 == kept_levels(raw_levels(a)) + kept_levels(raw_levels(b)),
{
    reveal_with_fuel(Seq::filter, 1);
    match a {
        Some(v) => lemma_levels_are_kept(v@),
        None => assert(kept_levels(raw_levels(a)) =~= Seq::<LevelView>::empty()),
    }
    match b {
        Some(v) => lemma_levels_are_kept(v@),
        None => assert(kept_levels(raw_levels(b)) =~= Seq::<LevelView>::empty()),
    }
    let x = source_spec(a)->Ok_0;
    if b is None {
        assert(x + Seq::<LevelView>::empty() =~= x);
    }
}

/// The levels of two sources, the first one's first.
pub open spec fn two_sources_spec(a: Option<Vec<ClobBookLevel>>, b: Option<Vec<ClobBookLevel>>) -> Result<
    Seq<LevelView>,
    Seq<char>,
> {
    match source_spec(a) {
        Err(e) => Err(e),
        Ok(x) => match source_spec(b) {
            Err(e) => Err(e),
            Ok(y) => Ok(x + y),
        },
    }
}

/// The token id of the message: its token id, or else its market, unless blank.
pub open spec fn message_token_spec(m: ClobRawMessage) -> Option<Seq<char>> {
    let t = match m.token_id {
        Some(t) => Some(t@),
        None => match m.market {
            Some(x) => Some(x@),
            None => None,
        },
    };
    match t {
        Some(x) => if all_white(x) {
            None
        } else {
            Some(x)
        },
        None => None,
    }
}

/// A timestamp in milliseconds.
pub open spec fn ts_spec(t: Option<RawTime>) -> Option<int> {
    match t {
        Some(RawTime::Int(n)) => Some(ts_ms_spec(n as int)),
        Some(RawTime::BigUint(u)) => if u <= i64::MAX {
            Some(ts_ms_spec(u as int))
        } else {
            None
        },
        Some(RawTime::Text(s)) => match signed_int_spec(s@) {
            Some(v) => if i64::MIN <= v <= i64::MAX {
                Some(ts_ms_spec(v))
            } else {
                None
            },
            None => None,
        },
        _ => None,
    }
}

pub open spec fn ts_ms_spec(v: int) -> int {
    if -10000000000 < v < 10000000000 {
        v * 1000
    } else {
        v
    }
}

/// Reading the timestamp takes no absolute value of `i64::MIN`.
pub open spec fn ts_safe(t: Option<RawTime>) -> bool {
    time_safe(t)
}

/// The book a message makes: none without a token or without levels; an error where a
/// level does not read.
pub open spec fn message_book_spec(m: ClobRawMessage) -> Result<
    Option<(Seq<char>, Seq<LevelView>, Seq<LevelView>, Option<int>)>,
    Seq<char>,
> {
    match message_token_spec(m) {
        None => Ok(None),
        Some(token) => match two_sources_spec(m.bids, m.buys) {
            Err(e) => Err(e),
            Ok(bids) => match two_sources_spec(m.asks, m.sells) {
                Err(e) => Err(e),
                Ok(asks) => Ok(
                    if bids.len() == 0 && asks.len() == 0 {
                        None
                    } else {
                        Some((token, bids, asks, ts_spec(m.timestamp)))
                    },
                ),
            },
        },
    }
}

/// `b` is the book made of `token`, the levels and the timestamp, received at
/// `received_at_ms`.
pub open spec fn book_matches(
    b: Book,
    f: (Seq<char>, Seq<LevelView>, Seq<LevelView>, Option<int>),
    received_at_ms: i64,
) -> bool {
    &&& b.token_id@ == f.0
    &&& levels_view(b.bids@) == f.1
    &&& levels_view(b.asks@) == f.2
    &&& match f.3 {
        Some(t) => b.exchange_ts_ms == Some(t as i64) && i64::MIN <= t <= i64::MAX,
        None => b.exchange_ts_ms is None,
    }
    &&& b.received_at_ms == received_at_ms
}

fn parse_decimal_value(value: &ClobValue) -> (r: Result<Decimal, ClobParseError>)
    ensures
        match value_spec(*value) {
            Ok(d) => r is Ok && r->Ok_0@ == d,
            Err(e) => r is Err && r->Err_0.message@ == e,
        },
{
    match value {
        ClobValue::Text(text) => {
            let t = trim(text.as_str());
            match Decimal::parse(t.as_str()) {
                Some(d) => Ok(d),
                None => {
                    let mut message = "failed to parse decimal string: ".to_owned();
                    message.append(text.as_str());
                    Err(ClobParseError { message })
                },
            }
        },
        ClobValue::Number(n) => {
            match Decimal::parse(n.as_str()) {
                Some(d) => Ok(d),
                None => {
                    let mut message = "failed to parse decimal number: ".to_owned();
                    message.append(n.as_str());
                    Err(ClobParseError { message })
                },
            }
        },
        ClobValue::Other(o) => {
            let mut message = "unsupported decimal JSON value: ".to_owned();
            message.append(o.as_str());
            Err(ClobParseError { message })
        },
    }
}

fn parse_level(level: &ClobBookLevel) -> (r: Result<Option<Level>, ClobParseError>)
    ensures
        match level_spec(*level) {
            Ok(Some(l)) => r is Ok && r->Ok_0 is Some && r->Ok_0->0@ == l,
            Ok(None) => r is Ok && r->Ok_0 is None,
            Err(e) => r is Err && r->Err_0.message@ == e,
        },
{
    let price_value = match &level.price {
        Some(p) => p,
        None => return Ok(None),
    };
    let size_value = match &level.size {
        Some(s) => s,
        None => return Ok(None),
    };
    let price = match parse_decimal_value(price_value) {
        Ok(p) => p,
        Err(e) => return Err(e),
    };
    let size = match parse_decimal_value(size_value) {
        Ok(s) => s,
        Err(e) => return Err(e),
    };
    let zero = Decimal::zero();
    if price.le(&zero) || size.le(&zero) {
        proof {
            crate::decimal::lemma_pow10_pos(0);
        }
        return Ok(None);
    }
    Ok(Some(Level::new(price, size)))
}

fn append_levels(levels: &mut Vec<Level>, source: &Vec<ClobBookLevel>) -> (r: Result<(), ClobParseError>)
    ensures
        match levels_spec(source@) {
            Ok(ls) => r is Ok && levels_view(final(levels)@) == levels_view(old(levels)@) + ls,
            Err(e) => r is Err && r->Err_0.message@ == e,
        },
{
    let ghost start = levels_view(levels@);
    let mut i: usize = 0;
    assert(source@.take(0) =~= Seq::<ClobBookLevel>::empty());
    assert(levels_view(levels@) =~= start + Seq::<LevelView>::empty());
    while i < source.len()
        invariant
            i <= source@.len(),
            start == levels_view(old(levels)@),
            levels_spec(source@.take(i as int)) is Ok,
            levels_view(levels@) == start + levels_spec(source@.take(i as int))->Ok_0,
        decreases source@.len() - i,
    {
        proof {
            assert(source@.take(i + 1).drop_last() =~= source@.take(i as int));
            assert(source@.take(i + 1).last() == source@[i as int]);
        }
        match parse_level(&source[i]) {
            Ok(Some(l)) => {
                let ghost before = levels@;
                levels.push(l);
                assert(levels_view(levels@) =~= levels_view(before).push(l@));
            },
            Ok(None) => {},
            Err(e) => {
                proof {
                    lemma_levels_error_persists(source@, i as int + 1);
                }
                return Err(e);
            },
        }
        i = i + 1;
    }
    assert(source@.take(i as int) =~= source@);
    Ok(())
}

proof fn lemma_levels_error_persists(ls: Seq<ClobBookLevel>, n: int)
    requires
        0 <= n <= ls.len(),
        levels_spec(ls.take(n)) is Err,
    ensures
        levels_spec(ls) == levels_spec(ls.take(n)),
    decreases ls.len() - n,
{
    if n < ls.len() {
        assert(ls.take(n + 1).drop_last() =~= ls.take(n));
        lemma_levels_error_persists(ls, n + 1);
    } else {
        assert(ls.take(n) =~= ls);
    }
}

fn parse_levels_from_sources(a: &Option<Vec<ClobBookLevel>>, b: &Option<Vec<ClobBookLevel>>) -> (r: Result<
    Vec<Level>,
    ClobParseError,
>)
    ensures
        match two_sources_spec(*a, *b) {
            Ok(ls) => r is Ok && levels_view(r->Ok_0@) == ls,
            Err(e) => r is Err && r->Err_0.message@ == e,
        },
{
    let mut levels: Vec<Level> = Vec::new();
    assert(levels_view(levels@) =~= Seq::<LevelView>::empty());
    match a {
        Some(src) => {
            match append_levels(&mut levels, src) {
                Ok(()) => {},
                Err(e) => return Err(e),
            }
        },
        None => {},
    }
    match b {
        Some(src) => {
            match append_levels(&mut levels, src) {
                Ok(()) => {},
                Err(e) => return Err(e),
            }
        },
        None => {},
    }
    proof {
        match source_spec(*b) {
            Ok(y) => {
                if b is None {
                    assert(levels_view(levels@) =~= levels_view(levels@) + Seq::<LevelView>::empty());
                }
            },
            Err(_) => {},
        }
    }
    Ok(levels)
}

fn normalize_ts(value: i64) -> (r: i64)
    requires
        value != i64::MIN,
    ensures
        r as int == ts_ms_spec(value as int),
{
    let abs = if value < 0 {
        -value
    } else {
        value
    };
    if abs < 10_000_000_000 {
        value * 1_000
    } else {
        value
    }
}

fn parse_timestamp_ms(value: &Option<RawTime>) -> (r: Option<i64>)
    requires
        ts_safe(*value),
    ensures
        match ts_spec(*value) {
            Some(t) => r == Some(t as i64) && i64::MIN <= t <= i64::MAX,
            None => r is None,
        },
{
    match value {
        Some(RawTime::Int(n)) => Some(normalize_ts(*n)),
        Some(RawTime::BigUint(u)) => {
            if *u <= i64::MAX as u64 {
                Some(normalize_ts(*u as i64))
            } else {
                None
            }
        },
        Some(RawTime::Text(s)) => {
            match parse_i64(s.as_str()) {
                Some(n) => Some(normalize_ts(n)),
                None => None,
            }
        },
        _ => None,
    }
}

fn extract_token_id(raw: &ClobRawMessage) -> (r: Option<String>)
    ensures
        match message_token_spec(*raw) {
            Some(t) => r is Some && r->0@ == t,
            None => r is None,
        },
{
    let candidate = match &raw.token_id {
        Some(t) => t,
        None => match &raw.market {
            Some(m) => m,
            None => return None,
        },
    };
    if is_blank(candidate.as_str()) {
        None
    } else {
        Some(candidate.clone())
    }
}

/// The book a message makes, if any.
pub fn parse_single_book(raw: &ClobRawMessage, received_at_ms: i64) -> (r: Result<Option<Book>, ClobParseError>)
    requires
        ts_safe(raw.timestamp),
    ensures
        match message_book_spec(*raw) {
            Ok(Some(f)) => r is Ok && r->Ok_0 is Some && book_matches(r->Ok_0->0, f, received_at_ms),
            Ok(None) => r is Ok && r->Ok_0 is None,
            Err(e) => r is Err && r->Err_0.message@ == e,
        },
        r is Ok && r->Ok_0 is Some ==> levels_view(r->Ok_0->0.bids@) == kept_levels(raw_levels(raw.bids))
            + kept_levels(raw_levels(raw.buys)) && levels_view(r->Ok_0->0.asks@) == kept_levels(
            raw_levels(raw.asks),
        ) + kept_levels(raw_levels(raw.sells)),
{
    proof {
        lemma_book_sides_from_both_sources(*raw);
    }
    let token_id = match extract_token_id(raw) {
        Some(t) => t,
        None => return Ok(None),
    };
    let bids = match parse_levels_from_sources(&raw.bids, &raw.buys) {
        Ok(l) => l,
        Err(e) => return Err(e),
    };
    let asks = match parse_levels_from_sources(&raw.asks, &raw.sells) {
        Ok(l) => l,
        Err(e) => return Err(e),
    };
    if bids.len() == 0 && asks.len() == 0 {
        return Ok(None);
    }
    let exchange_ts_ms = parse_timestamp_ms(&raw.timestamp);
    Ok(Some(Book::new(TokenId::new(token_id), bids, asks, exchange_ts_ms, received_at_ms)))
}

/// The bids of the book a message makes are the positive levels of its `bids` followed
/// by the positive levels of its `buys`, and its asks those of its `asks` followed by
/// those of its `sells`; no positive level of either source is left out. A message with
/// a token and no positive level on any side makes no book.
pub proof fn lemma_book_sides_from_both_sources(m: ClobRawMessage)
    ensures
        match message_book_spec(m) {
            Ok(Some(f)) => {
                &&& message_token_spec(m) == Some(f.0)
                &&& f.1 == kept_levels(raw_levels(m.bids)) + kept_levels(raw_levels(m.buys))
                &&& f.2 == kept_levels(raw_levels(m.asks)) + kept_levels(raw_levels(m.sells))
                &&& f.1.len() + f.2.len() > 0
            },
            Ok(None) => message_token_spec(m) is None || {
                &&& kept_levels(raw_levels(m.bids)).len() == 0
                &&& kept_levels(raw_levels(m.buys)).len() == 0
                &&& kept_levels(raw_levels(m.asks)).len() == 0
                &&& kept_levels(raw_levels(m.sells)).len() == 0
            },
            Err(_) => true,
        },
{
    if message_token_spec(m) is Some {
        if two_sources_spec(m.bids, m.buys) is Ok {
            lemma_two_sources_are_kept(m.bids, m.buys);
            if two_sources_spec(m.asks, m.sells) is Ok {
                lemma_two_sources_are_kept(m.asks, m.sells);
            }
        }
    }
}

} // verus!
