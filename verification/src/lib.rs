//! Contextual error chains, and the tracing that logs them.
//!
//! An error chain is a failure together with the contexts that were attached
//! to it on its way up the call stack, each tagged with the site that created
//! it: see [`error`] for the chain, [`context`] for attaching to it and
//! [`laws`] for what holds of both.
//!
//! Around it stand the pieces of a tracing setup: trace ids as text
//! ([`trace_id`], [`features`]), the arguments of the attribute that
//! instruments a function and the annotations it writes ([`parameters`],
//! [`tracing_impl`], [`tracing_macro`]), the log lines of the reporter
//! ([`minitrace_glue`]) and the events of the logger
//! ([`structured_logger_glue`]).

pub mod context;
pub mod error;
pub mod features;
pub mod laws;
pub mod minitrace_glue;
pub mod parameters;
pub mod site;
pub mod structured_logger_glue;
pub mod text;
pub mod tokens;
pub mod trace_id;
pub mod tracing_impl;
pub mod tracing_macro;
