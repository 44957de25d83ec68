//! Trace ids written as plain decimal numbers.

use crate::text::{numeral, push_numeral};
use vstd::prelude::*;

verus! {

/// Writes a `u128` trace id as it is, in decimal.
pub fn convert_trace_id(trace_id: u128) -> (text: String)
    ensures
        text@ == numeral(trace_id as nat, 10),
{
    let mut text = String::new();
    push_numeral(&mut text, trace_id, 10);
    assert(Seq::<char>::empty() + numeral(trace_id as nat, 10) == numeral(trace_id as nat, 10));
    text
}

} // verus!
