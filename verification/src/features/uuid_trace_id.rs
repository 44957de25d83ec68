//! Trace ids written as UUIDs.

use crate::trace_id::{lemma_uuid_round_trip, uuid_text, uuid_value};
use vstd::prelude::*;

verus! {

/// `uuid::Uuid::from_u128`, then the `to_string` of the `Uuid`: the 128 bits
/// as 32 lower-case hexadecimal digits, most significant first, in groups of
/// 8, 4, 4, 4 and 12 with a hyphen between two groups.
#[verifier::external_body]
fn hyphenated(value: u128) -> (text: String)
    ensures
        text@ == uuid_text(value as nat),
{
    uuid::Uuid::from_u128(value).to_string()
}

/// Converts a `u128` trace id into a UUID.
pub fn convert_trace_id(trace_id: u128) -> (text: String)
    ensures
        text@ == uuid_text(trace_id as nat),
        uuid_value(text@) == Some(trace_id as nat),
{
    proof {
        lemma_uuid_round_trip(trace_id);
    }
    hyphenated(trace_id)
}

} // verus!
