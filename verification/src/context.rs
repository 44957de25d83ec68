//! Attaching context to a failing outcome: one more node at the outer end of
//! the chain, and nothing at all on success.

use crate::error::{ErrorType, IntoError};
use crate::site::CallSite;
use vstd::prelude::*;

verus! {

/// Helper trait to add context to errors.
pub trait ErrorContext<T, K, E>: Sized {
    /// This outcome is a failure.
    spec fn is_failure(&self) -> bool;

    /// The outcome after `kind` was attached at `site`: a success as it was,
    /// a failure wrapped in one new node.
    spec fn attached(self, kind: K, site: CallSite) -> Result<T, E>;

    /// Adds an error kind to the top of the error chain. `site` is where the
    /// caller attaches it.
    fn err_context(self, kind: K, site: CallSite) -> (r: Result<T, E>)
        ensures
            r == self.attached(kind, site),
    ;

    /// Adds an error kind returned by a function to the top of the error
    /// chain. The function is called only if `self` is indeed a failure, so
    /// it needs to be callable only then.
    fn err_context_with<F: FnOnce() -> K>(self, kind: F, site: CallSite) -> (r: Result<T, E>)
        requires
            self.is_failure() ==> kind.requires(()),
        ensures
            !self.is_failure() ==> forall|k: K| r == #[trigger] self.attached(k, site),
            self.is_failure() ==> exists|k: K|
                kind.ensures((), k) && r == #[trigger] self.attached(k, site),
    ;
}

impl<T, K, E, OE> ErrorContext<T, K, E> for Result<T, OE> where
    OE: IntoError<E>,
    E: ErrorType<ErrorKind = K>,
{
    open spec fn is_failure(&self) -> bool {
        self is Err
    }

    open spec fn attached(self, kind: K, site: CallSite) -> Result<T, E> {
        match self {
            Ok(value) => Ok(value),
            Err(failure) => Err(
                E::node(kind, Some(Box::new(failure.into_error_spec(site))), site),
            ),
        }
    }

    fn err_context(self, kind: K, site: CallSite) -> (r: Result<T, E>)
        ensures
            self matches Ok(value) ==> r == Ok::<T, E>(value),
            self matches Err(failure) ==> r == Err::<T, E>(
                E::node(kind, Some(Box::new(failure.into_error_spec(site))), site),
            ),
    {
        match self {
            Ok(value) => Ok(value),
            Err(failure) => Err(E::new(kind, Some(Box::new(failure.into_error(site))), site)),
        }
    }

    fn err_context_with<F: FnOnce() -> K>(self, kind: F, site: CallSite) -> (r: Result<T, E>)
        ensures
            self matches Ok(value) ==> r == Ok::<T, E>(value),
            self matches Err(failure) ==> exists|k: K|
                kind.ensures((), k) && r == Err::<T, E>(
                    #[trigger] E::node(k, Some(Box::new(failure.into_error_spec(site))), site),
                ),
    {
        match self {
            Ok(value) => Ok(value),
            Err(failure) => {
                let k = kind();
                let r = Err(E::new(k, Some(Box::new(failure.into_error(site))), site));
                assert(kind.ensures((), k) && r == self.attached(k, site));
                r
            },
        }
    }
}

/// Runs `body` and attaches `kind` at `site` to the failure it returns, if it
/// returns one: the body of a function whose every error carries that
/// context.
pub fn err_context<T, K, E, OE, F>(kind: K, site: CallSite, body: F) -> (r: Result<T, E>) where
    OE: IntoError<E>,
    E: ErrorType<ErrorKind = K>,
    F: FnOnce() -> Result<T, OE>,

    requires
        body.requires(()),
    ensures
        exists|outcome: Result<T, OE>|
            body.ensures((), outcome) && r == #[trigger] outcome.attached(kind, site),
{
    let outcome = body();
    let r = outcome.err_context(kind, site);
    assert(body.ensures((), outcome) && r == outcome.attached(kind, site));
    r
}

} // verus!
