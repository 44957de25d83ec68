//! The instrumentation attribute as a function on text: from the arguments
//! of the attribute and the definition of a function to the definition with
//! its annotations.

use crate::parameters::{parsed_text, MacroArgs, ParseError, ParseErrorView};
use crate::text::option_text;
use crate::tracing_impl::instrumented;
use vstd::prelude::*;

verus! {

/// Why a function is not instrumented.
#[derive(Debug, PartialEq)]
pub enum InstrumentError {
    /// What the attribute stands on is no definition of a function.
    Item { message: String },
    /// The arguments of the attribute are not understood.
    Arguments { error: ParseError },
}

/// An instrumentation error without the strings that hold its texts.
pub enum InstrumentErrorView {
    Item { message: Seq<char> },
    Arguments { error: ParseErrorView },
}

impl View for InstrumentError {
    type V = InstrumentErrorView;

    open spec fn view(&self) -> InstrumentErrorView {
        match self {
            InstrumentError::Item { message } => InstrumentErrorView::Item { message: message@ },
            InstrumentError::Arguments { error } => InstrumentErrorView::Arguments {
                error: error@,
            },
        }
    }
}

/// The outcome of an instrumentation without the strings that hold its texts.
pub open spec fn outcome_view(outcome: Result<String, InstrumentError>) -> Result<
    Seq<char>,
    InstrumentErrorView,
> {
    match outcome {
        Ok(definition) => Ok(definition@),
        Err(error) => Err(error@),
    }
}

/// What `syn` objects to where it reads a text as the definition of a
/// function; `None` where the text is one.
pub uninterp spec fn item_fn_problem(text: Seq<char>) -> Option<Seq<char>>;

/// `syn::parse_str::<syn::ItemFn>`: on failure the `to_string` of the error,
/// which is its message.
#[verifier::external_body]
fn item_fn_problem_of(text: &str) -> (problem: Option<String>)
    ensures
        option_text(problem) == item_fn_problem(text@),
{
    syn::parse_str::<syn::ItemFn>(text).err().map(|error| error.to_string())
}

/// What instrumenting `fn_item` with the arguments `macro_args` gives: the
/// definition with its annotations, or the first thing that is wrong, the
/// definition being looked at before the arguments.
pub open spec fn instrumented_text(macro_args: Seq<char>, fn_item: Seq<char>) -> Result<
    Seq<char>,
    InstrumentErrorView,
> {
    match item_fn_problem(fn_item) {
        Some(message) => Err(InstrumentErrorView::Item { message }),
        None => match parsed_text(macro_args) {
            Err(error) => Err(InstrumentErrorView::Arguments { error }),
            Ok(args) => Ok(instrumented(args, fn_item)),
        },
    }
}

/// Instruments the definition of a function as the arguments of the
/// attribute ask.
pub fn instrument(macro_args: &str, fn_item: &str) -> (outcome: Result<String, InstrumentError>)
    ensures
        outcome_view(outcome) == instrumented_text(macro_args@, fn_item@),
{
    match item_fn_problem_of(fn_item) {
        Some(message) => Err(InstrumentError::Item { message }),
        None => match MacroArgs::parse(macro_args) {
            Err(error) => Err(InstrumentError::Arguments { error }),
            Ok(parameters) => Ok(crate::tracing_impl::instrument(parameters, fn_item)),
        },
    }
}

} // verus!
