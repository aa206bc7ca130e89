//! The raw markets of the market API's answer: a top-level array, else the `markets`
//! array, else the `data` array.
use vstd::prelude::*;

use super::parser::{MarketParseError, RawMarket};

verus! {

/// The market API's answer, as far as the reader looks into it.
#[derive(Debug)]
pub enum MarketResponse {
    /// A top-level array: each element decoded as a raw market, `None` where it does not
    /// decode as one.
    Array(Vec<Option<RawMarket>>),
    /// Any other value: its `markets` and `data` members where they are arrays, their
    /// elements decoded likewise.
    Other { markets: Option<Vec<Option<RawMarket>>>, data: Option<Vec<Option<RawMarket>>> },
}

/// The elements the answer's markets are read from, if it has such an array.
pub open spec fn response_items(resp: MarketResponse) -> Option<Seq<Option<RawMarket>>> {
    match resp {
        MarketResponse::Array(v) => Some(v@),
        MarketResponse::Other { markets, data } => match markets {
            Some(v) => Some(v@),
            None => match data {
                Some(v) => Some(v@),
                None => None,
            },
        },
    }
}

/// Every element decoded.
pub open spec fn all_decoded(items: Seq<Option<RawMarket>>) -> bool {
    forall|i: int| 0 <= i < items.len() ==> #[trigger] items[i] is Some
}

pub open spec fn unwrap_all(items: Seq<Option<RawMarket>>) -> Seq<RawMarket> {
    items.map_values(|o: Option<RawMarket>| o->0)
}

pub open spec fn shape_error_text() -> Seq<char> {
    "unsupported market API response shape: expected array, markets[], or data[]"@
}

pub open spec fn object_error_text() -> Seq<char> {
    "failed to decode raw market object"@
}

fn decode_array(items: Vec<Option<RawMarket>>) -> (r: Result<Vec<RawMarket>, MarketParseError>)
    ensures
        all_decoded(items@) ==> r is Ok && r->Ok_0@ == unwrap_all(items@),
        !all_decoded(items@) ==> r is Err && r->Err_0.message@ == object_error_text(),
{
    let ghost all = items@;
    let n = items.len();
    let mut source = items;
    let mut out: Vec<RawMarket> = Vec::new();
    let mut i: usize = 0;
    while source.len() > 0
        invariant
            i + source@.len() == n,
            n == all.len(),
            all == items@,
            source@ == all.skip(i as int),
            out@ == unwrap_all(all.take(i as int)),
            forall|k: int| 0 <= k < i ==> #[trigger] all[k] is Some,
        decreases source@.len(),
    {
        let item = source.remove(0);
        proof {
            assert(all.skip(i + 1) =~= all.skip(i as int).drop_first());
            assert(all[i as int] == item);
        }
        match item {
            Some(m) => {
                out.push(m);
                proof {
                    assert(unwrap_all(all.take(i + 1)) =~= unwrap_all(all.take(i as int)).push(m));
                }
            },
            None => {
                assert(!all_decoded(all));
                return Err(MarketParseError { message: "failed to decode raw market object".to_owned() });
            },
        }
        i = i + 1;
    }
    assert(all.take(i as int) =~= all);
    Ok(out)
}

/// The raw markets of the answer: of a top-level array, else of the `markets` array,
/// else of the `data` array; an error where there is no such array or an element does
/// not decode.
pub fn decode_market_response(response: MarketResponse) -> (r: Result<Vec<RawMarket>, MarketParseError>)
    ensures
        match response_items(response) {
            None => r is Err && r->Err_0.message@ == shape_error_text(),
            Some(items) => if all_decoded(items) {
                r is Ok && r->Ok_0@ == unwrap_all(items)
            } else {
                r is Err && r->Err_0.message@ == object_error_text()
            },
        },
{
    match response {
        MarketResponse::Array(items) => decode_array(items),
        MarketResponse::Other { markets, data } => match markets {
            Some(items) => decode_array(items),
            None => match data {
                Some(items) => decode_array(items),
                None => Err(
                    MarketParseError {
                        message: "unsupported market API response shape: expected array, markets[], or data[]".to_owned(),
                    },
                ),
            },
        },
    }
}

} // verus!
