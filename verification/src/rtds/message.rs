//! Messages of the real-time price feed.
use vstd::prelude::*;

use crate::text::{lower_spec, str_eq, to_ascii_lowercase};

verus! {

/// The price field of an update: a JSON string, or any other JSON value as the text
/// JSON writes for it.
#[derive(Debug, Clone)]
pub enum RtdsValue {
    Text(String),
    Rendered(String),
}

#[derive(Debug, Clone)]
pub struct RtdsPayload {
    pub symbol: String,
    pub timestamp: i64,
    pub value: RtdsValue,
    pub full_accuracy_value: Option<String>,
}

#[derive(Debug, Clone)]
pub struct RtdsMessage {
    pub topic: String,
    pub message_type: String,
    pub payload: RtdsPayload,
}

/// The text of the price field.
pub open spec fn raw_value_spec(p: RtdsPayload) -> Seq<char> {
    match p.value {
        RtdsValue::Text(s) => s@,
        RtdsValue::Rendered(s) => s@,
    }
}

impl RtdsMessage {
    /// The message type is `update`, in any ASCII case.
    pub fn is_update(&self) -> (r: bool)
        ensures
            r == (lower_spec(self.message_type@) == "update"@),
    {
        let t = to_ascii_lowercase(self.message_type.as_str());
        str_eq(t.as_str(), "update")
    }

    pub fn has_topic(&self, topic: &str) -> (r: bool)
        ensures
            r == (self.topic@ == topic@),
    {
        str_eq(self.topic.as_str(), topic)
    }
}

impl RtdsPayload {
    /// The price field as text.
    pub fn raw_value_string(&self) -> (r: String)
        ensures
            r@ == raw_value_spec(*self),
    {
        match &self.value {
            RtdsValue::Text(s) => s.clone(),
            RtdsValue::Rendered(s) => s.clone(),
        }
    }
}

} // verus!
