use vstd::prelude::*;
use crate::message::{bool_or, lookup, payload_get, payload_view, Payload, ValueView};

verus! {

/// The policy engine's answer on a knock or a wish.
#[derive(Debug, Clone, PartialEq)]
pub struct PolicyDecision {
    pub accept: bool,
    /// Why the engine refused, when it said.
    pub reason: Option<String>,
    /// Seconds the engine expects the work to take, when it said.
    pub estimated_time: Option<u64>,
}

/// `field` read as a string, if it is one.
pub open spec fn opt_str(field: Option<ValueView>) -> Option<Seq<char>> {
    match field {
        Some(v) => v.as_str(),
        None => None,
    }
}

/// `field` read as an unsigned integer, if it is one.
pub open spec fn opt_u64(field: Option<ValueView>) -> Option<u64> {
    match field {
        Some(v) => v.as_u64(),
        None => None,
    }
}

impl PolicyDecision {
    /// Reads the engine's JSON object: `accept` defaults to true when it is
    /// missing or not a boolean, so an empty answer accepts.
    pub fn from_response(response: &Payload) -> (r: PolicyDecision)
        ensures
            r.accept == bool_or(lookup(payload_view(response@), "accept"@), true),
            r.reason matches Some(s) ==> opt_str(lookup(payload_view(response@), "reason"@)) == Some(s@),
            r.reason is None ==> opt_str(lookup(payload_view(response@), "reason"@)) is None,
            r.estimated_time == opt_u64(lookup(payload_view(response@), "estimated_time"@)),
    {
        let accept = match payload_get(response, "accept") {
            Some(v) => match v.as_bool() {
                Some(b) => b,
                None => true,
            },
            None => true,
        };
        let reason = match payload_get(response, "reason") {
            Some(v) => match v.as_str() {
                Some(s) => Some(s.to_owned()),
                None => None,
            },
            None => None,
        };
        let estimated_time = match payload_get(response, "estimated_time") {
            Some(v) => v.as_u64(),
            None => None,
        };
        PolicyDecision { accept, reason, estimated_time }
    }
}

} // verus!
