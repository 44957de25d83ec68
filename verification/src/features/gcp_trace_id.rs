//! Trace ids written in the form of Google Cloud.

use crate::trace_id::{gcp_text, gcp_value, u128_to_gcp_trace_id};
use vstd::prelude::*;

verus! {

/// Converts a `u128` trace id into the form of Google Cloud.
pub fn convert_trace_id(trace_id: u128) -> (text: String)
    ensures
        text@ == gcp_text(trace_id as nat),
        gcp_value(text@) == Some(trace_id as nat),
{
    u128_to_gcp_trace_id(trace_id)
}

} // verus!
