//! Turning raw market records from the market API into markets.
use vstd::prelude::*;

use crate::text::{
    before_char, contains, contains_spec, first_component, lower_spec, parse_i64, replace_char, replace_spec,
    signed_int_spec, to_ascii_lowercase,
};
use crate::types::asset::{asset_from_slug_prefix_spec, asset_name, asset_slug_prefix, Asset};
use crate::types::ids::{ConditionId, MarketSlug, TokenId};
use crate::types::market::{opt_text, Market};
use crate::types::timeframe::{timeframe_label, timeframe_secs, Timeframe};

verus! {

/// A time field as the API sends it: an integer, an integer too large for `i64`, a
/// text, or something else.
#[derive(Debug, Clone)]
pub enum RawTime {
    Int(i64),
    BigUint(u64),
    Text(String),
    Other,
}

/// The token-ids field: an array (each element a text or not), a text holding a JSON
/// array, or something else.
#[derive(Debug, Clone)]
pub enum RawTokenIds {
    Array(Vec<Option<String>>),
    Text(String),
    Other,
}

#[derive(Debug, Clone)]
pub struct RawOutcomeToken {
    pub token_id: Option<String>,
    pub outcome: Option<String>,
}

#[derive(Debug, Clone)]
pub struct RawMarket {
    pub slug: Option<String>,
    pub condition_id: Option<String>,
    pub question: Option<String>,
    pub title: Option<String>,
    pub active: Option<bool>,
    pub closed: Option<bool>,
    pub open_time: Option<RawTime>,
    pub end_time: Option<RawTime>,
    pub up_token_id: Option<String>,
    pub down_token_id: Option<String>,
    pub clob_token_ids: Option<RawTokenIds>,
    pub tokens: Option<Vec<RawOutcomeToken>>,
}

/// Why the raw markets could not be parsed.
#[derive(Debug, Clone)]
pub struct MarketParseError {
    pub message: String,
}

/// Milliseconds since the epoch of an RFC 3339 date-time, as `chrono` reads it.
pub uninterp spec fn rfc3339_millis(text: Seq<char>) -> Option<int>;

/// The elements of a JSON array written in `text`, each as its text where it is a
/// JSON string, as `serde_json` reads it; `None` where `text` is not a JSON array.
pub uninterp spec fn json_array_strings(text: Seq<char>) -> Option<Seq<Option<Seq<char>>>>;

/// `chrono::DateTime::parse_from_rfc3339`, as milliseconds since the epoch.
///
/// Claimed of the outside code: the result depends on the text alone.
#[verifier::external_body]
fn rfc3339_to_millis(text: &str) -> (r: Option<i64>)
    ensures
        match r {
            Some(v) => rfc3339_millis(text@) == Some(v as int),
            None => rfc3339_millis(text@) is None,
        },
{
    chrono::DateTime::parse_from_rfc3339(text).ok().map(|dt| dt.timestamp_millis())
}

/// `serde_json::from_str` read as an array whose elements are taken as text where they
/// are JSON strings.
///
/// Claimed of the outside code: the result depends on the text alone.
#[verifier::external_body]
fn json_text_array(text: &str) -> (r: Option<Vec<Option<String>>>)
    ensures
        match r {
            Some(v) => json_array_strings(text@) == Some(v@.map_values(|o: Option<String>| opt_text(o))),
            None => json_array_strings(text@) is None,
        },
{
    match serde_json::from_str::<serde_json::Value>(text) {
        Ok(serde_json::Value::Array(items)) => Some(items.iter().map(|v| v.as_str().map(|s| s.to_string())).collect()),
        _ => None,
    }
}

/// Seconds become milliseconds: values under ten billion in magnitude are scaled by
/// a thousand.
pub open spec fn normalize_ts_spec(v: int) -> int {
    if -10000000000 < v < 10000000000 {
        v * 1000
    } else {
        v
    }
}

/// The time a field gives, in milliseconds.
pub open spec fn time_spec(t: Option<RawTime>) -> Option<int> {
    match t {
        None => None,
        Some(RawTime::Int(n)) => Some(normalize_ts_spec(n as int)),
        Some(RawTime::BigUint(u)) => if u <= i64::MAX {
            Some(normalize_ts_spec(u as int))
        } else {
            None
        },
        Some(RawTime::Text(s)) => match signed_int_spec(s@) {
            Some(v) => if i64::MIN <= v <= i64::MAX {
                Some(normalize_ts_spec(v))
            } else {
                rfc3339_millis(s@)
            },
            None => rfc3339_millis(s@),
        },
        Some(RawTime::Other) => None,
    }
}

/// Reading the field takes no absolute value of `i64::MIN`.
pub open spec fn time_safe(t: Option<RawTime>) -> bool {
    match t {
        Some(RawTime::Int(n)) => n != i64::MIN,
        Some(RawTime::Text(s)) => signed_int_spec(s@) != Some(i64::MIN as int),
        _ => true,
    }
}

pub open spec fn text_or_empty(o: Option<String>) -> Seq<char> {
    match o {
        Some(s) => s@,
        None => Seq::empty(),
    }
}

/// Slug, question and title, separated by spaces, in lower case.
pub open spec fn searchable_spec(raw: RawMarket) -> Seq<char> {
    lower_spec(text_or_empty(raw.slug) + " "@ + text_or_empty(raw.question) + " "@ + text_or_empty(raw.title))
}

pub open spec fn mentions_asset(text: Seq<char>, a: Asset) -> bool {
    contains_spec(text, lower_spec(asset_slug_prefix(a))) || contains_spec(text, lower_spec(asset_name(a)))
}

/// The asset of the slug's first component, or else the first asset the text
/// mentions.
pub open spec fn asset_spec(raw: RawMarket) -> Option<Asset> {
    let by_prefix = match raw.slug {
        Some(s) => asset_from_slug_prefix_spec(before_char(s@, '-')),
        None => None,
    };
    if by_prefix is Some {
        by_prefix
    } else {
        let t = searchable_spec(raw);
        if mentions_asset(t, Asset::BTC) {
            Some(Asset::BTC)
        } else if mentions_asset(t, Asset::ETH) {
            Some(Asset::ETH)
        } else if mentions_asset(t, Asset::SOL) {
            Some(Asset::SOL)
        } else if mentions_asset(t, Asset::XRP) {
            Some(Asset::XRP)
        } else {
            None
        }
    }
}

/// The text mentions `token` itself or spelled out with `-minutes`, `-hour` or `-day`.
pub open spec fn mentions_token(text: Seq<char>, token: Seq<char>) -> bool {
    contains_spec(text, token) || contains_spec(text, replace_spec(token, 'm', "-minutes"@)) || contains_spec(
        text,
        replace_spec(token, 'h', "-hour"@),
    ) || contains_spec(text, replace_spec(token, 'd', "-day"@))
}

/// The first timeframe the text mentions, shortest first.
pub open spec fn timeframe_spec(raw: RawMarket) -> Option<Timeframe> {
    let t = searchable_spec(raw);
    if mentions_token(t, "5m"@) {
        Some(Timeframe::FiveMin)
    } else if mentions_token(t, "15m"@) {
        Some(Timeframe::FifteenMin)
    } else if mentions_token(t, "1h"@) {
        Some(Timeframe::OneHour)
    } else if mentions_token(t, "4h"@) {
        Some(Timeframe::FourHour)
    } else if mentions_token(t, "1d"@) {
        Some(Timeframe::OneDay)
    } else {
        None
    }
}

/// The last up and last down token ids named by the outcomes.
pub open spec fn outcome_scan(ts: Seq<RawOutcomeToken>) -> (Option<Seq<char>>, Option<Seq<char>>)
    decreases ts.len(),
{
    if ts.len() == 0 {
        (None, None)
    } else {
        let prev = outcome_scan(ts.drop_last());
        let t = ts.last();
        let o = lower_spec(text_or_empty(t.outcome));
        (
            if contains_spec(o, "up"@) {
                opt_text(t.token_id)
            } else {
                prev.0
            },
            if contains_spec(o, "down"@) {
                opt_text(t.token_id)
            } else {
                prev.1
            },
        )
    }
}

/// The first two elements, where both are texts.
pub open spec fn two_strings_spec(a: Seq<Option<Seq<char>>>) -> Option<(Seq<char>, Seq<char>)> {
    if a.len() >= 2 && a[0] is Some && a[1] is Some {
        Some((a[0]->0, a[1]->0))
    } else {
        None
    }
}

pub open spec fn clob_ids_spec(c: Option<RawTokenIds>) -> Option<(Seq<char>, Seq<char>)> {
    match c {
        Some(RawTokenIds::Array(v)) => two_strings_spec(v@.map_values(|o: Option<String>| opt_text(o))),
        Some(RawTokenIds::Text(s)) => match json_array_strings(s@) {
            Some(a) => two_strings_spec(a),
            None => None,
        },
        _ => None,
    }
}

/// The up and down token ids: the explicit pair, else the outcomes, else the token-ids
/// field.
pub open spec fn token_ids_spec(raw: RawMarket) -> Option<(Seq<char>, Seq<char>)> {
    if raw.up_token_id is Some && raw.down_token_id is Some {
        Some((raw.up_token_id->0@, raw.down_token_id->0@))
    } else {
        let scanned = match raw.tokens {
            Some(ts) => outcome_scan(ts@),
            None => (None, None),
        };
        if scanned.0 is Some && scanned.1 is Some {
            Some((scanned.0->0, scanned.1->0))
        } else {
            clob_ids_spec(raw.clob_token_ids)
        }
    }
}

/// Asset, timeframe, open and end, up and down tokens, where every piece is there.
pub open spec fn market_fields(raw: RawMarket) -> Option<(Asset, Timeframe, int, int, Seq<char>, Seq<char>)> {
    if raw.slug is None || raw.condition_id is None || asset_spec(raw) is None || timeframe_spec(raw) is None {
        None
    } else {
        match (time_spec(raw.open_time), time_spec(raw.end_time), token_ids_spec(raw)) {
            (Some(open), Some(end), Some(ids)) => Some(
                (asset_spec(raw)->0, timeframe_spec(raw)->0, open, end, ids.0, ids.1),
            ),
            _ => None,
        }
    }
}

/// Parsing the raw market reads no time field it cannot read without panicking.
pub open spec fn parse_safe(raw: RawMarket) -> bool {
    (raw.slug is Some && raw.condition_id is Some && asset_spec(raw) is Some && timeframe_spec(raw) is Some) ==> (
    time_safe(raw.open_time) && (time_spec(raw.open_time) is Some ==> time_safe(raw.end_time)))
}

/// The raw market has every piece but opens at or after it ends.
pub open spec fn bad_window(raw: RawMarket) -> bool {
    match market_fields(raw) {
        Some(f) => f.2 >= f.3,
        None => false,
    }
}

pub open spec fn window_error_text(raw: RawMarket) -> Seq<char> {
    "invalid market time window for slug "@ + raw.slug->0@
}

/// `m` is the market made of the raw market's pieces, seen at `seen_ms`.
pub open spec fn market_from_raw(m: Market, raw: RawMarket, seen_ms: i64) -> bool {
    let f = market_fields(raw)->0;
    &&& m.asset == f.0
    &&& m.timeframe == f.1
    &&& m.open_ms == f.2
    &&& m.end_ms == f.3
    &&& m.up_token_id@ == f.4
    &&& m.down_token_id@ == f.5
    &&& m.slug@ == raw.slug->0@
    &&& m.condition_id@ == raw.condition_id->0@
    &&& m.active == (match raw.active {
        Some(b) => b,
        None => true,
    })
    &&& m.closed == (match raw.closed {
        Some(b) => b,
        None => false,
    })
    &&& m.seen_ms == seen_ms
    &&& m.price_to_beat is None
    &&& m.price_to_beat_status is None
    &&& m.ptb_source is None
    &&& m.ptb_source_timestamp_ms is None
    &&& m.ptb_raw_value is None
    &&& m.ptb_full_accuracy_value is None
}

/// `r` holds the two texts of `p`.
pub open spec fn pair_matches(r: Option<(String, String)>, p: (Seq<char>, Seq<char>)) -> bool {
    match r {
        Some(q) => q.0@ == p.0 && q.1@ == p.1,
        None => false,
    }
}

fn normalize_timestamp_ms(value: i64) -> (r: i64)
    requires
        value != i64::MIN,
    ensures
        r as int == normalize_ts_spec(value as int),
{
    let abs = if value < 0 {
        -value
    } else {
        value
    };
    if abs < 10_000_000_000 {
        value * 1_000
    } else {
        value
    }
}

fn parse_time_ms(value: Option<&RawTime>) -> (r: Option<i64>)
    requires
        time_safe(match value {
            Some(v) => Some(*v),
            None => None,
        }),
    ensures
        match time_spec(match value {
            Some(v) => Some(*v),
            None => None,
        }) {
            Some(t) => r is Some && r->0 as int == t,
            None => r is None,
        },
{
    match value {
        None => None,
        Some(RawTime::Int(n)) => Some(normalize_timestamp_ms(*n)),
        Some(RawTime::BigUint(u)) => {
            if *u <= i64::MAX as u64 {
                Some(normalize_timestamp_ms(*u as i64))
            } else {
                None
            }
        },
        Some(RawTime::Text(s)) => {
            match parse_i64(s.as_str()) {
                Some(n) => Some(normalize_timestamp_ms(n)),
                None => rfc3339_to_millis(s.as_str()),
            }
        },
        Some(RawTime::Other) => None,
    }
}

fn copy_text(o: &Option<String>) -> (r: String)
    ensures
        r@ == text_or_empty(*o),
{
    match o {
        Some(s) => s.clone(),
        None => String::new(),
    }
}

fn searchable_text(raw: &RawMarket) -> (r: String)
    ensures
        r@ == searchable_spec(*raw),
{
    let mut s = copy_text(&raw.slug);
    s.append(" ");
    s.append(copy_text(&raw.question).as_str());
    s.append(" ");
    s.append(copy_text(&raw.title).as_str());
    to_ascii_lowercase(s.as_str())
}

fn mentions(text: &str, a: Asset) -> (r: bool)
    ensures
        r == mentions_asset(text@, a),
{
    contains(text, to_ascii_lowercase(a.slug_prefix()).as_str()) || contains(text, to_ascii_lowercase(a.as_str()).as_str())
}

fn parse_asset(raw: &RawMarket) -> (r: Option<Asset>)
    ensures
        r == asset_spec(*raw),
{
    match &raw.slug {
        Some(slug) => {
            let first = first_component(slug.as_str(), '-');
            match Asset::from_slug_prefix(first.as_str()) {
                Some(a) => {
                    return Some(a);
                },
                None => {},
            }
        },
        None => {},
    }
    let text = searchable_text(raw);
    if mentions(text.as_str(), Asset::BTC) {
        Some(Asset::BTC)
    } else if mentions(text.as_str(), Asset::ETH) {
        Some(Asset::ETH)
    } else if mentions(text.as_str(), Asset::SOL) {
        Some(Asset::SOL)
    } else if mentions(text.as_str(), Asset::XRP) {
        Some(Asset::XRP)
    } else {
        None
    }
}

fn contains_token(text: &str, token: &str) -> (r: bool)
    ensures
        r == mentions_token(text@, token@),
{
    contains(text, token) || contains(text, replace_char(token, 'm', "-minutes").as_str()) || contains(
        text,
        replace_char(token, 'h', "-hour").as_str(),
    ) || contains(text, replace_char(token, 'd', "-day").as_str())
}

fn parse_timeframe(raw: &RawMarket) -> (r: Option<Timeframe>)
    ensures
        r == timeframe_spec(*raw),
{
    let text = searchable_text(raw);
    if contains_token(text.as_str(), "5m") {
        Some(Timeframe::FiveMin)
    } else if contains_token(text.as_str(), "15m") {
        Some(Timeframe::FifteenMin)
    } else if contains_token(text.as_str(), "1h") {
        Some(Timeframe::OneHour)
    } else if contains_token(text.as_str(), "4h") {
        Some(Timeframe::FourHour)
    } else if contains_token(text.as_str(), "1d") {
        Some(Timeframe::OneDay)
    } else {
        None
    }
}

fn copy_opt(o: &Option<String>) -> (r: Option<String>)
    ensures
        opt_text(r) == opt_text(*o),
{
    match o {
        Some(s) => Some(s.clone()),
        None => None,
    }
}

fn scan_outcomes(tokens: &Vec<RawOutcomeToken>) -> (r: (Option<String>, Option<String>))
    ensures
        (opt_text(r.0), opt_text(r.1)) == outcome_scan(tokens@),
{
    let mut up: Option<String> = None;
    let mut down: Option<String> = None;
    let mut i: usize = 0;
    while i < tokens.len()
        invariant
            i <= tokens@.len(),
            (opt_text(up), opt_text(down)) == outcome_scan(tokens@.take(i as int)),
        decreases tokens@.len() - i,
    {
        let t = &tokens[i];
        proof {
            assert(tokens@.take(i + 1).drop_last() =~= tokens@.take(i as int));
            assert(tokens@.take(i + 1).last() == *t);
        }
        let outcome = to_ascii_lowercase(copy_text(&t.outcome).as_str());
        if contains(outcome.as_str(), "up") {
            up = copy_opt(&t.token_id);
        }
        if contains(outcome.as_str(), "down") {
            down = copy_opt(&t.token_id);
        }
        i = i + 1;
    }
    assert(tokens@.take(i as int) =~= tokens@);
    (up, down)
}

fn two_strings_from_array(array: &Vec<Option<String>>) -> (r: Option<(String, String)>)
    ensures
        match two_strings_spec(array@.map_values(|o: Option<String>| opt_text(o))) {
            Some(p) => pair_matches(r, p),
            None => r is None,
        },
{
    if array.len() < 2 {
        return None;
    }
    match (&array[0], &array[1]) {
        (Some(a), Some(b)) => Some((a.clone(), b.clone())),
        _ => None,
    }
}

fn parse_clob_token_ids(value: Option<&RawTokenIds>) -> (r: Option<(String, String)>)
    ensures
        match clob_ids_spec(match value {
            Some(v) => Some(*v),
            None => None,
        }) {
            Some(p) => pair_matches(r, p),
            None => r is None,
        },
{
    match value {
        Some(RawTokenIds::Array(items)) => two_strings_from_array(items),
        Some(RawTokenIds::Text(text)) => {
            match json_text_array(text.as_str()) {
                Some(items) => two_strings_from_array(&items),
                None => None,
            }
        },
        _ => None,
    }
}

fn parse_token_ids(raw: &RawMarket) -> (r: Option<(String, String)>)
    ensures
        match token_ids_spec(*raw) {
            Some(p) => pair_matches(r, p),
            None => r is None,
        },
{
    match (&raw.up_token_id, &raw.down_token_id) {
        (Some(up), Some(down)) => {
            return Some((up.clone(), down.clone()));
        },
        _ => {},
    }
    match &raw.tokens {
        Some(tokens) => {
            let (up, down) = scan_outcomes(tokens);
            match (up, down) {
                (Some(u), Some(d)) => {
                    return Some((u, d));
                },
                _ => {},
            }
        },
        None => {},
    }
    match &raw.clob_token_ids {
        Some(c) => parse_clob_token_ids(Some(c)),
        None => parse_clob_token_ids(None),
    }
}

/// Whether reading the time field takes no absolute value of `i64::MIN`.
pub fn raw_time_is_safe(t: &Option<RawTime>) -> (r: bool)
    ensures
        r == time_safe(*t),
{
    match t {
        Some(RawTime::Int(n)) => *n != i64::MIN,
        Some(RawTime::Text(s)) => match parse_i64(s.as_str()) {
            Some(n) => n != i64::MIN,
            None => true,
        },
        _ => true,
    }
}

/// Whether `parse_market` reads the raw market without overflow.
pub fn raw_market_is_safe(raw: &RawMarket) -> (r: bool)
    ensures
        r == parse_safe(*raw),
{
    if raw.slug.is_none() || raw.condition_id.is_none() || parse_asset(raw).is_none() || parse_timeframe(raw).is_none() {
        return true;
    }
    if !raw_time_is_safe(&raw.open_time) {
        return false;
    }
    let open = parse_time_ms(
        match &raw.open_time {
            Some(t) => Some(t),
            None => None,
        },
    );
    open.is_none() || raw_time_is_safe(&raw.end_time)
}

/// Parses one raw market: `Ok(None)` where a piece is missing or unreadable, an error
/// where it opens at or after it ends, the market otherwise.
pub fn parse_market(raw: &RawMarket, seen_ms: i64) -> (r: Result<Option<Market>, MarketParseError>)
    requires
        parse_safe(*raw),
    ensures
        market_fields(*raw) is None ==> r is Ok && r->Ok_0 is None,
        bad_window(*raw) ==> r is Err && r->Err_0.message@ == window_error_text(*raw),
        market_fields(*raw) is Some && !bad_window(*raw) ==> r is Ok && r->Ok_0 is Some && market_from_raw(
            r->Ok_0->0,
            *raw,
            seen_ms,
        ),
{
    let slug_text = match &raw.slug {
        Some(s) => s,
        None => return Ok(None),
    };
    let condition_id_text = match &raw.condition_id {
        Some(s) => s,
        None => return Ok(None),
    };
    let asset = match parse_asset(raw) {
        Some(a) => a,
        None => return Ok(None),
    };
    let timeframe = match parse_timeframe(raw) {
        Some(t) => t,
        None => return Ok(None),
    };
    let open_ms = match parse_time_ms(
        match &raw.open_time {
            Some(t) => Some(t),
            None => None,
        },
    ) {
        Some(t) => t,
        None => return Ok(None),
    };
    let end_ms = match parse_time_ms(
        match &raw.end_time {
            Some(t) => Some(t),
            None => None,
        },
    ) {
        Some(t) => t,
        None => return Ok(None),
    };
    let (up_token_id, down_token_id) = match parse_token_ids(raw) {
        Some(p) => p,
        None => return Ok(None),
    };
    if open_ms >= end_ms {
        let mut message = "invalid market time window for slug ".to_owned();
        message.append(slug_text.as_str());
        return Err(MarketParseError { message });
    }
    Ok(
        Some(
            Market::new(
                asset,
                timeframe,
                MarketSlug::new(slug_text.clone()),
                ConditionId::new(condition_id_text.clone()),
                TokenId::new(up_token_id),
                TokenId::new(down_token_id),
                open_ms,
                end_ms,
                match raw.active {
                    Some(b) => b,
                    None => true,
                },
                match raw.closed {
                    Some(b) => b,
                    None => false,
                },
                seen_ms,
            ),
        ),
    )
}

/// The raw markets that make markets.
pub open spec fn parsed_raws(raws: Seq<RawMarket>) -> Seq<RawMarket> {
    raws.filter(|r: RawMarket| market_fields(r) is Some)
}

/// Index of the first raw market with a bad time window, if any.
pub open spec fn first_bad(raws: Seq<RawMarket>) -> Option<int> {
    if exists|i: int| 0 <= i < raws.len() && bad_window(#[trigger] raws[i]) {
        Some(
            choose|i: int|
                0 <= i < raws.len() && bad_window(#[trigger] raws[i]) && forall|j: int| 0 <= j < i ==> !bad_window(#[trigger] raws[j]),
        )
    } else {
        None
    }
}

/// Parses the raw markets in order, keeping those that make markets; the first bad
/// time window is an error.
pub fn parse_markets(raw_markets: &Vec<RawMarket>, seen_ms: i64) -> (r: Result<Vec<Market>, MarketParseError>)
    requires
        forall|i: int| 0 <= i < raw_markets@.len() ==> parse_safe(#[trigger] raw_markets@[i]),
    ensures
        match first_bad(raw_markets@) {
            Some(i) => r is Err && r->Err_0.message@ == window_error_text(raw_markets@[i]),
            None => r is Ok && r->Ok_0@.len() == parsed_raws(raw_markets@).len() && forall|k: int|
                0 <= k < r->Ok_0@.len() ==> market_from_raw(
                    #[trigger] r->Ok_0@[k],
                    parsed_raws(raw_markets@)[k],
                    seen_ms,
                ),
        },
{
    let ghost pred = |r: RawMarket| market_fields(r) is Some;
    let mut parsed: Vec<Market> = Vec::new();
    let mut i: usize = 0;
    assert(raw_markets@.take(0).filter(pred) =~= Seq::<RawMarket>::empty()) by {
        reveal_with_fuel(Seq::filter, 1);
    }
    while i < raw_markets.len()
        invariant
            i <= raw_markets@.len(),
            pred == (|r: RawMarket| market_fields(r) is Some),
            forall|k: int| 0 <= k < raw_markets@.len() ==> parse_safe(#[trigger] raw_markets@[k]),
            forall|j: int| 0 <= j < i ==> !bad_window(#[trigger] raw_markets@[j]),
            parsed@.len() == raw_markets@.take(i as int).filter(pred).len(),
            forall|k: int|
                0 <= k < parsed@.len() ==> market_from_raw(
                    #[trigger] parsed@[k],
                    raw_markets@.take(i as int).filter(pred)[k],
                    seen_ms,
                ),
        decreases raw_markets@.len() - i,
    {
        let raw = &raw_markets[i];
        proof {
            assert(raw_markets@.take(i + 1) =~= raw_markets@.take(i as int).push(*raw));
            raw_markets@.take(i as int).lemma_filter_push(*raw, pred);
        }
        match parse_market(raw, seen_ms) {
            Err(e) => {
                proof {
                    let c = first_bad(raw_markets@)->0;
                    assert(bad_window(raw_markets@[i as int]));
                    if c < i {
                        assert(!bad_window(raw_markets@[c]));
                    } else if c > i {
                        assert(!bad_window(raw_markets@[i as int]));
                    }
                }
                return Err(e);
            },
            Ok(Some(m)) => {
                let ghost before = parsed@;
                parsed.push(m);
                proof {
                    assert forall|k: int| 0 <= k < parsed@.len() implies market_from_raw(
                        #[trigger] parsed@[k],
                        raw_markets@.take(i + 1).filter(pred)[k],
                        seen_ms,
                    ) by {
                        if k < before.len() {
                            assert(parsed@[k] == before[k]);
                        }
                    }
                }
            },
            Ok(None) => {},
        }
        i = i + 1;
    }
    assert(raw_markets@.take(i as int) =~= raw_markets@);
    Ok(parsed)
}

/// The timeframe read from a market is the shortest one whose token (`5m`, `15m`, `1h`,
/// `4h`, `1d`, or its spelled-out form) the market's text mentions: its own token is
/// mentioned and no shorter timeframe's token is. A market whose text mentions none of
/// them has no timeframe.
pub proof fn lemma_timeframe_is_shortest_mentioned(raw: RawMarket)
    ensures
        match timeframe_spec(raw) {
            Some(tf) => {
                &&& mentions_token(searchable_spec(raw), timeframe_label(tf))
                &&& forall|other: Timeframe|
                    timeframe_secs(other) < timeframe_secs(tf) ==> !mentions_token(
                        searchable_spec(raw),
                        #[trigger] timeframe_label(other),
                    )
            },
            None => forall|tf: Timeframe| !mentions_token(searchable_spec(raw), #[trigger] timeframe_label(tf)),
        },
{
}

} // verus!
