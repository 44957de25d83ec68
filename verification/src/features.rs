//! The written forms of a trace id, one module for each with its
//! `convert_trace_id`, and the choice between them.

use crate::text::numeral;
use crate::trace_id::{gcp_text, uuid_text};
use vstd::prelude::*;

pub mod gcp_trace_id;
pub mod u128_trace_id;
pub mod uuid_trace_id;

verus! {

/// The form in which log lines carry the trace id.
#[derive(Debug, PartialEq, Clone, Copy)]
pub enum TraceIdFormat {
    /// The form of Google Cloud: hexadecimal, a slash, decimal.
    Gcp,
    /// The form of a UUID.
    Uuid,
    /// A decimal number.
    U128,
}

impl TraceIdFormat {
    /// The text of `trace_id` in this form.
    pub open spec fn text(self, trace_id: nat) -> Seq<char> {
        match self {
            TraceIdFormat::Gcp => gcp_text(trace_id),
            TraceIdFormat::Uuid => uuid_text(trace_id),
            TraceIdFormat::U128 => numeral(trace_id, 10),
        }
    }

    /// Writes `trace_id` in this form.
    pub fn convert_trace_id(self, trace_id: u128) -> (text: String)
        ensures
            text@ == self.text(trace_id as nat),
    {
        match self {
            TraceIdFormat::Gcp => gcp_trace_id::convert_trace_id(trace_id),
            TraceIdFormat::Uuid => uuid_trace_id::convert_trace_id(trace_id),
            TraceIdFormat::U128 => u128_trace_id::convert_trace_id(trace_id),
        }
    }
}

impl Default for TraceIdFormat {
    /// The form of Google Cloud.
    fn default() -> (format: TraceIdFormat)
        ensures
            format == TraceIdFormat::Gcp,
    {
        TraceIdFormat::Gcp
    }
}

} // verus!
