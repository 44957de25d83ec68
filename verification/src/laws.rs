//! What holds of every chain and of every attachment, proved from the
//! contracts of the functions that build and read chains.

use crate::context::ErrorContext;
use crate::error::{
    layers_of, lemma_rendering_under, rendering, renders, Error, ErrorType, IntoError,
};
use crate::site::CallSite;
use crate::text::{describes, Describe};
use vstd::prelude::*;

verus! {

/// The chain that results from attaching `contexts` to `error` one after the
/// other, the first of them first.
pub open spec fn attach_all<K>(error: Error<K>, contexts: Seq<(K, CallSite)>) -> Error<K>
    decreases contexts.len(),
{
    if contexts.len() == 0 {
        error
    } else {
        let inner: Result<(), Error<K>> = Err(attach_all(error, contexts.drop_last()));
        let outer = <Result<(), Error<K>> as ErrorContext<(), K, Error<K>>>::attached(
            inner,
            contexts.last().0,
            contexts.last().1,
        );
        match outer {
            Err(e) => e,
            Ok(_) => error,
        }
    }
}

/// Attaching context to a success returns the success unchanged: the result
/// holds the same value and no node.
pub proof fn lemma_success_unchanged<T, K, OE: IntoError<Error<K>>>(
    value: T,
    kind: K,
    site: CallSite,
)
    ensures
        <Result<T, OE> as ErrorContext<T, K, Error<K>>>::attached(Ok(value), kind, site) == Ok::<
            T,
            Error<K>,
        >(value),
{
}

/// Attaching context to a failure gives a failure whose outermost node holds
/// the given kind and site, and whose cause is the original failure converted
/// into a chain: the layers of the result are the new layer and then the
/// layers of the converted failure.
pub proof fn lemma_failure_wrapped<T, K, OE: IntoError<Error<K>>>(
    failure: OE,
    kind: K,
    site: CallSite,
)
    ensures
        <Result<T, OE> as ErrorContext<T, K, Error<K>>>::attached(
            Err(failure),
            kind,
            site,
        ) matches Err(e) && {
            &&& *e.kind() == kind
            &&& *e.site() == site
            &&& e.cause() == Some(&failure.into_error_spec(site))
            &&& e@ == seq![(kind, site)] + failure.into_error_spec(site)@
            &&& e.depth() == failure.into_error_spec(site).depth() + 1
        },
{
    Error::<K>::lemma_node(kind, Some(Box::new(failure.into_error_spec(site))), site);
}

/// Following the cause fewer times than a chain has nodes reaches the node
/// with the remaining layers; following it once per node reaches `None`.
pub proof fn lemma_walk<K>(error: Error<K>, steps: nat)
    ensures
        steps < error.depth() ==> (error.ancestor(steps) matches Some(e) && e@ == error@.skip(
            steps as int,
        )),
        steps >= error.depth() ==> error.ancestor(steps) is None,
    decreases steps,
{
    error.lemma_layers();
    if steps == 0 {
        assert(error@.skip(0) == error@);
    } else {
        match error.cause() {
            Some(c) => {
                lemma_walk(*c, (steps - 1) as nat);
                if steps < error.depth() {
                    assert(error@.drop_first().skip(steps - 1) == error@.skip(steps as int));
                }
            },
            None => {},
        }
    }
}

/// After attaching `contexts` one after the other, the chain holds them
/// outermost first, the last attached first, and then the layers it had.
pub proof fn lemma_attach_all_layers<K>(error: Error<K>, contexts: Seq<(K, CallSite)>)
    ensures
        attach_all(error, contexts)@ == contexts.reverse() + error@,
    decreases contexts.len(),
{
    if contexts.len() == 0 {
        assert(contexts.reverse() + error@ == error@);
    } else {
        let inner = attach_all(error, contexts.drop_last());
        lemma_attach_all_layers(error, contexts.drop_last());
        lemma_failure_wrapped::<(), K, Error<K>>(inner, contexts.last().0, contexts.last().1);
        assert(contexts.reverse() == seq![contexts.last()] + contexts.drop_last().reverse());
        assert(seq![contexts.last()] + (contexts.drop_last().reverse() + error@) == (seq![
            contexts.last(),
        ] + contexts.drop_last().reverse()) + error@);
    }
}

/// A terminal failure with `contexts.len()` contexts attached is a chain of
/// one node more than that: following the cause once per context reaches the
/// terminal node, and once more reaches `None`.
pub proof fn lemma_depth_grows_by_one<K>(kind: K, site: CallSite, contexts: Seq<(K, CallSite)>)
    ensures
        attach_all(Error::<K>::node(kind, None, site), contexts).depth() == contexts.len() + 1,
        attach_all(Error::<K>::node(kind, None, site), contexts).ancestor(contexts.len()) == Some(
            Error::<K>::node(kind, None, site),
        ),
        attach_all(Error::<K>::node(kind, None, site), contexts).ancestor(contexts.len() + 1)
            is None,
{
    let terminal = Error::<K>::node(kind, None, site);
    let chain = attach_all(terminal, contexts);
    Error::<K>::lemma_node(kind, None, site);
    assert(layers_of::<K>(None) == Seq::<(K, CallSite)>::empty());
    assert(terminal@ == seq![(kind, site)]);
    lemma_attach_all_layers(terminal, contexts);
    lemma_walk(chain, contexts.len());
    lemma_walk(chain, contexts.len() + 1);
    let reached = chain.ancestor(contexts.len())->0;
    assert(reached@ == terminal@) by {
        assert((contexts.reverse() + terminal@).skip(contexts.len() as int) == terminal@);
    }
    reached.lemma_layers_determine(&terminal);
}

/// Rendering is a function of the chain: where the kind's `describe` returns
/// one text for each kind, two renderings of one chain are the same text.
pub proof fn lemma_rendering_repeats<K: Describe>(
    error: Error<K>,
    first: Seq<char>,
    second: Seq<char>,
    text: spec_fn(K) -> Seq<char>,
)
    requires
        describes(text),
        renders(error@, first),
        renders(error@, second),
    ensures
        first == second,
        first == rendering(error@, text),
{
    lemma_rendering_under(error@, first, text);
    lemma_rendering_under(error@, second, text);
}

} // verus!
