//! An update from the price feed into the tick store.
use vstd::prelude::*;

use crate::decimal::DecView;
use crate::text::lower_spec;
use crate::tick_store::{tick_index, TickStore};
use crate::types::asset::{asset_from_rtds_spec, asset_rtds_symbol};
use crate::types::tick::{normalized_symbol, Tick};

use super::message::{raw_value_spec, RtdsMessage};
use super::normalizer::{feed_error_text, feed_ms_spec, feed_value_spec, normalize_rtds_payload, payload_safe, RtdsError};
use super::symbols::{is_supported_rtds_symbol, lemma_asset_symbol_normalized};

verus! {

/// The message is an update on `topic`.
pub open spec fn relevant(m: RtdsMessage, topic: Seq<char>) -> bool {
    lower_spec(m.message_type@) == "update"@ && m.topic@ == topic
}

/// The price the message's payload carries, if it reads.
pub open spec fn message_value(m: RtdsMessage) -> Option<DecView> {
    feed_value_spec(
        raw_value_spec(m.payload),
        match m.payload.full_accuracy_value {
            Some(f) => Some(f@),
            None => None,
        },
    )
}

/// The ticks with `t` in place of the tick of the same symbol and time, or added.
pub open spec fn with_tick(ticks: Seq<Tick>, t: Tick) -> Seq<Tick> {
    match tick_index(ticks, t.symbol@, t.timestamp_ms) {
        Some(i) => ticks.update(i, t),
        None => ticks.push(t),
    }
}

/// `t` is the message's tick, valued `v` and received at `received_at_ms`.
pub open spec fn message_tick(t: Tick, m: RtdsMessage, v: DecView, received_at_ms: i64) -> bool {
    &&& t.symbol@ == normalized_symbol(m.payload.symbol@)
    &&& t.timestamp_ms == feed_ms_spec(m.payload.timestamp as int)
    &&& t.raw_value@ == raw_value_spec(m.payload)
    &&& t.full_accuracy_value == m.payload.full_accuracy_value
    &&& t.normalized_value@ == v
    &&& t.received_at_ms == received_at_ms
}

/// Stores the tick of an update on `expected_topic` for a tracked symbol and returns how
/// many ticks the store then holds; other messages give `None` and leave the store as it
/// was; a price that does not read is an error.
pub fn handle_rtds_message(
    message: &RtdsMessage,
    expected_topic: &str,
    tick_store: &mut TickStore,
    received_at_ms: i64,
) -> (r: Result<Option<usize>, RtdsError>)
    requires
        relevant(*message, expected_topic@) ==> payload_safe(message.payload),
    ensures
        !relevant(*message, expected_topic@) ==> r == Ok::<Option<usize>, RtdsError>(None) && final(tick_store)@ == old(
            tick_store,
        )@,
        relevant(*message, expected_topic@) && message_value(*message) is None ==> r is Err && r->Err_0.message@
            == feed_error_text(message.payload) && final(tick_store)@ == old(tick_store)@,
        relevant(*message, expected_topic@) && message_value(*message) is Some && asset_from_rtds_spec(
            normalized_symbol(message.payload.symbol@),
        ) is None ==> r == Ok::<Option<usize>, RtdsError>(None) && final(tick_store)@ == old(tick_store)@,
        relevant(*message, expected_topic@) && message_value(*message) is Some && asset_from_rtds_spec(
            normalized_symbol(message.payload.symbol@),
        ) is Some ==> exists|t: Tick|
            {
                &&& #[trigger] message_tick(t, *message, message_value(*message)->0, received_at_ms)
                &&& final(tick_store)@ == with_tick(old(tick_store)@, t)
                &&& r == Ok::<Option<usize>, RtdsError>(Some(final(tick_store)@.len() as usize))
            },
{
    if !message.is_update() || !message.has_topic(expected_topic) {
        return Ok(None);
    }
    let normalized = match normalize_rtds_payload(&message.payload) {
        Ok(n) => n,
        Err(e) => return Err(e),
    };
    if !is_supported_rtds_symbol(&normalized.symbol) {
        return Ok(None);
    }
    proof {
        let a = asset_from_rtds_spec(normalized.symbol@)->0;
        assert(normalized.symbol@ == asset_rtds_symbol(a));
        lemma_asset_symbol_normalized(a);
    }
    let tick = normalized.into_tick(received_at_ms);
    tick_store.insert_tick(tick);
    let n = tick_store.len();
    proof {
        assert(message_tick(tick, *message, message_value(*message)->0, received_at_ms));
    }
    Ok(Some(n))
}

} // verus!
