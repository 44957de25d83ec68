//! The annotations that instrument a function: one that traces every call,
//! and one that logs what the arguments of the attribute ask for.

use crate::parameters::{MacroArgs, MacroArgsView, ReturnLogOptions};
use crate::text::texts;
use vstd::prelude::*;

verus! {

/// The items with a comma and a space between two of them.
pub open spec fn comma_list(items: Seq<Seq<char>>) -> Seq<char>
    decreases items.len(),
{
    if items.len() == 0 {
        Seq::empty()
    } else if items.len() == 1 {
        items[0]
    } else {
        comma_list(items.drop_last()) + seq![',', ' '] + items.last()
    }
}

/// The arguments of the logging annotation that say which result is logged
/// and at which level: an error at `error`, anything else at `info`. Empty
/// where no result is logged.
pub open spec fn return_params(option: ReturnLogOptions) -> Seq<char> {
    match option {
        ReturnLogOptions::Skip => Seq::empty(),
        ReturnLogOptions::LogErrOnly => "err=\"error\", "@,
        ReturnLogOptions::LogOkOnly => "ok=\"info\", "@,
        ReturnLogOptions::LogResult => "err=\"error\", ok=\"info\", "@,
        ReturnLogOptions::LogNonFallible => "egress=\"info\", "@,
    }
}

/// The argument of the logging annotation that lists the parameters to leave
/// out. Empty where no parameter is logged at all.
pub open spec fn skip_params(args: MacroArgsView) -> Seq<char> {
    if args.log_parameters {
        "skip=["@ + comma_list(args.parameters_to_skip) + "], "@
    } else {
        Seq::empty()
    }
}

/// The logging annotation on a line of its own. Empty where no result is
/// logged: the annotation takes no empty list of arguments.
pub open spec fn logcall_annotation(args: MacroArgsView) -> Seq<char> {
    if args.log_return is Skip {
        Seq::empty()
    } else {
        "#[::logcall::logcall("@ + return_params(args.log_return) + skip_params(args) + ")]\n"@
    }
}

/// The definition of a function with its annotations: the tracing one first,
/// then the logging one if there is one, then the function as it was given.
pub open spec fn instrumented(args: MacroArgsView, fn_item: Seq<char>) -> Seq<char> {
    "#[::minitrace::trace]\n"@ + logcall_annotation(args) + fn_item
}

/// Appends the items to `out` with a comma and a space between two of them.
fn push_comma_list(out: &mut String, items: &Vec<String>)
    ensures
        final(out)@ == old(out)@ + comma_list(texts(items@)),
{
    let ghost all = texts(items@);
    let mut i: usize = 0;
    assert(all.take(0) == Seq::<Seq<char>>::empty());
    assert(old(out)@ + Seq::<char>::empty() == old(out)@);
    while i < items.len()
        invariant
            i <= items.len(),
            all == texts(items@),
            out@ == old(out)@ + comma_list(all.take(i as int)),
        decreases items.len() - i,
    {
        let ghost before = comma_list(all.take(i as int));
        if i > 0 {
            out.push(',');
            out.push(' ');
        }
        out.append(items[i].as_str());
        proof {
            let next = all.take(i + 1);
            assert(next.drop_last() == all.take(i as int));
            assert(next.last() == items[i as int]@);
            if i > 0 {
                assert(old(out)@ + before + seq![',', ' '] + items[i as int]@ == old(out)@ + (
                before + seq![',', ' '] + items[i as int]@));
                assert((old(out)@ + before).push(',').push(' ') == old(out)@ + before + seq![
                    ',',
                    ' ',
                ]);
            } else {
                assert(before == Seq::<char>::empty());
                assert(old(out)@ + before + items[i as int]@ == old(out)@ + items[i as int]@);
            }
        }
        i += 1;
    }
    assert(all.take(items.len() as int) == all);
}

/// Instruments the definition of a function as `parameters` ask: every call
/// is traced; the result is logged as they say, and with it the parameters
/// that they do not leave out.
pub fn instrument(parameters: MacroArgs, fn_item: &str) -> (definition: String)
    ensures
        definition@ == instrumented(parameters@, fn_item@),
{
    let mut definition = "#[::minitrace::trace]\n".to_owned();
    let ghost head = definition@;
    let degress_params: &str = match parameters.log_return {
        ReturnLogOptions::Skip => "",
        ReturnLogOptions::LogErrOnly => "err=\"error\", ",
        ReturnLogOptions::LogOkOnly => "ok=\"info\", ",
        ReturnLogOptions::LogResult => "err=\"error\", ok=\"info\", ",
        ReturnLogOptions::LogNonFallible => "egress=\"info\", ",
    };
    match parameters.log_return {
        ReturnLogOptions::Skip => {
            assert(head + Seq::<char>::empty() == head);
        },
        _ => {
            definition.append("#[::logcall::logcall(");
            definition.append(degress_params);
            let ghost opened = definition@;
            if parameters.log_parameters {
                definition.append("skip=[");
                push_comma_list(&mut definition, &parameters.parameters_to_skip);
                definition.append("], ");
                assert(definition@ == opened + skip_params(parameters@));
            } else {
                assert(opened + Seq::<char>::empty() == opened);
            }
            definition.append(")]\n");
            assert(definition@ == head + logcall_annotation(parameters@));
        },
    }
    definition.append(fn_item);
    definition
}

} // verus!
