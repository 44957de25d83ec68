//! The error chain: a failure and the contexts attached to it, outermost
//! first, each with the site that created it.

use crate::site::CallSite;
use crate::text::{describes, texts, Describe};
use vstd::prelude::*;
use vstd::std_specs::convert::IntoSpec;

verus! {

/// One node of an error chain.
///
/// `kind` says why this layer considers the operation to have failed, `cause`
/// is the node that came before it, and `site` is where this node was made.
/// A node without a cause is terminal: it stands for the original failure.
/// A chain is only ever grown at its outer end; no node changes once made.
#[derive(Debug, PartialEq)]
pub struct Error<K> {
    kind: K,
    cause: Option<Box<Error<K>>>,
    site: CallSite,
}

/// An error type that is built from a kind, a cause and a site.
pub trait ErrorType: Sized {
    /// The kind of failure that one node holds.
    type ErrorKind;

    /// The node with the given parts.
    spec fn node(kind: Self::ErrorKind, cause: Option<Box<Self>>, location: CallSite) -> Self;

    /// Builds the node with the given parts.
    fn new(kind: Self::ErrorKind, cause: Option<Box<Self>>, location: CallSite) -> (e: Self)
        ensures
            e == Self::node(kind, cause, location),
    ;
}

/// A failure that can be turned into an error of type `E`.
pub trait IntoError<E>: Sized {
    /// The error that `into_error` returns.
    spec fn into_error_spec(self, site: CallSite) -> E;

    /// Turns this failure into an error. Where that makes a new node, the node
    /// records `site`.
    fn into_error(self, site: CallSite) -> (e: E)
        ensures
            e == self.into_error_spec(site),
    ;
}

/// The layers of a chain, outermost first: each node's kind and site.
impl<K> View for Error<K> {
    type V = Seq<(K, CallSite)>;

    closed spec fn view(&self) -> Seq<(K, CallSite)> {
        self.layers()
    }
}

/// The layers of an optional chain: none where there is no chain.
pub open spec fn layers_of<K>(cause: Option<Box<Error<K>>>) -> Seq<(K, CallSite)> {
    match cause {
        Some(c) => c@,
        None => Seq::empty(),
    }
}

/// The text of a chain of layers whose kinds read as `shown`, one text for
/// each layer: each layer as its site in square brackets, a space and the
/// text of its kind; the layers outermost first, with a colon and a space
/// between two of them.
pub open spec fn rendering_of<K>(layers: Seq<(K, CallSite)>, shown: Seq<Seq<char>>) -> Seq<char>
    decreases layers.len(),
{
    if layers.len() == 0 {
        Seq::empty()
    } else {
        let head = seq!['['] + layers[0].1.text() + seq![']', ' '] + shown[0];
        if layers.len() == 1 {
            head
        } else {
            head + seq![':', ' '] + rendering_of(layers.drop_first(), shown.drop_first())
        }
    }
}

/// The text of a chain of layers where each kind reads as `text` says.
pub open spec fn rendering<K>(layers: Seq<(K, CallSite)>, text: spec_fn(K) -> Seq<char>) -> Seq<
    char,
> {
    rendering_of(layers, Seq::new(layers.len(), |i: int| text(layers[i].0)))
}

/// `shown` holds, for each layer, a text that `describe` returns for the kind
/// of that layer.
pub open spec fn described<K: Describe>(layers: Seq<(K, CallSite)>, shown: Seq<String>) -> bool {
    &&& shown.len() == layers.len()
    &&& forall|i: int|
        0 <= i < layers.len() ==> call_ensures(K::describe, (&layers[i].0,), #[trigger] shown[i])
}

/// `s` is a text of `layers`: their rendering with, for each layer, a text
/// that `describe` returns for its kind.
pub open spec fn renders<K: Describe>(layers: Seq<(K, CallSite)>, s: Seq<char>) -> bool {
    exists|shown: Seq<String>| #[trigger]
        described(layers, shown) && s == rendering_of(layers, texts(shown))
}

/// Where `describe` returns one text for each kind, a chain has one text.
pub proof fn lemma_rendering_under<K: Describe>(
    layers: Seq<(K, CallSite)>,
    s: Seq<char>,
    text: spec_fn(K) -> Seq<char>,
)
    requires
        describes(text),
        renders(layers, s),
    ensures
        s == rendering(layers, text),
{
    let shown = choose|shown: Seq<String>| #[trigger]
        described(layers, shown) && s == rendering_of(layers, texts(shown));
    assert forall|i: int| 0 <= i < layers.len() implies texts(shown)[i] == text(layers[i].0) by {
        assert(call_ensures(K::describe, (&layers[i].0,), shown[i]));
    }
    assert(texts(shown) == Seq::new(layers.len(), |i: int| text(layers[i].0)));
}

impl<K> Error<K> {
    /// The layers of this chain, outermost first.
    closed spec fn layers(&self) -> Seq<(K, CallSite)>
        decreases self,
    {
        seq![(self.kind, self.site)] + match self.cause {
            Some(c) => c.layers(),
            None => Seq::empty(),
        }
    }

    /// The kind of the outermost node.
    pub closed spec fn spec_kind(&self) -> &K {
        &self.kind
    }

    /// The node that the outermost node wraps.
    pub closed spec fn spec_cause(&self) -> Option<&Error<K>> {
        match &self.cause {
            Some(c) => Some(&**c),
            None => None,
        }
    }

    /// The site of the outermost node.
    pub closed spec fn spec_site(&self) -> &CallSite {
        &self.site
    }

    /// The number of nodes in this chain.
    pub open spec fn depth(&self) -> nat {
        self@.len()
    }

    /// The node reached by following the cause `steps` times, if the chain is
    /// that long.
    pub open spec fn ancestor(&self, steps: nat) -> Option<Error<K>>
        decreases steps,
    {
        if steps == 0 {
            Some(*self)
        } else {
            match self.spec_cause() {
                Some(c) => c.ancestor((steps - 1) as nat),
                None => None,
            }
        }
    }

    /// How the accessors read the layers of a chain: the first layer holds
    /// the kind and the site, the rest are the layers of the cause.
    pub proof fn lemma_layers(&self)
        ensures
            self@.len() >= 1,
            *self.spec_kind() == self@[0].0,
            *self.spec_site() == self@[0].1,
            self.spec_cause() matches Some(c) ==> c@ == self@.drop_first(),
            self.spec_cause() is None <==> self@.len() == 1,
        decreases self,
    {
        match self.cause {
            Some(c) => {
                c.lemma_layers();
                assert(self@.drop_first() == c@);
            },
            None => {},
        }
    }

    /// The layers and the parts of a node built from its parts.
    pub proof fn lemma_node(kind: K, cause: Option<Box<Error<K>>>, site: CallSite)
        ensures
            Self::node(kind, cause, site)@ == seq![(kind, site)] + layers_of(cause),
            *Self::node(kind, cause, site).spec_kind() == kind,
            *Self::node(kind, cause, site).spec_site() == site,
            Self::node(kind, cause, site).spec_cause() == match cause {
                Some(c) => Some(&*c),
                None => None,
            },
    {
    }

    /// Two chains with the same layers are the same chain.
    pub proof fn lemma_layers_determine(&self, other: &Error<K>)
        requires
            self@ == other@,
        ensures
            *self == *other,
        decreases self,
    {
        self.lemma_layers();
        other.lemma_layers();
        assert(self@[0] == other@[0]);
        match (self.cause, other.cause) {
            (Some(c), Some(d)) => {
                c.lemma_layers_determine(&*d);
            },
            _ => {},
        }
    }

    /// Builds a terminal node: the original failure, noticed at `site`.
    pub fn new(kind: K, site: CallSite) -> (e: Error<K>)
        ensures
            e == Self::node(kind, None, site),
            e@ == seq![(kind, site)],
    {
        Error { kind, cause: None, site }
    }

    /// Builds a terminal node from anything that converts into a kind: the
    /// original failure, noticed at `site`.
    pub fn from_kind<T: Into<K>>(kind: T, site: CallSite) -> (e: Error<K>)
        ensures
            call_ensures(T::into, (kind,), e@[0].0),
            e == Self::node(e@[0].0, None, site),
            T::obeys_into_spec() ==> e == Self::node(kind.into_spec(), None, site),
    {
        Error::new(kind.into(), site)
    }

    /// The kind of the outermost node.
    #[verifier::when_used_as_spec(spec_kind)]
    pub fn kind(&self) -> (kind: &K)
        ensures
            kind == self.spec_kind(),
            *kind == self@[0].0,
    {
        proof {
            self.lemma_layers();
        }
        &self.kind
    }

    /// The node that the outermost node wraps; `None` for a terminal node.
    #[verifier::when_used_as_spec(spec_cause)]
    pub fn cause(&self) -> (cause: Option<&Error<K>>)
        ensures
            cause == self.spec_cause(),
            cause matches Some(c) ==> c@ == self@.drop_first(),
            cause is None <==> self@.len() == 1,
    {
        proof {
            self.lemma_layers();
        }
        match &self.cause {
            Some(c) => Some(&**c),
            None => None,
        }
    }

    /// The site at which the outermost node was made.
    #[verifier::when_used_as_spec(spec_site)]
    pub fn site(&self) -> (site: &CallSite)
        ensures
            site == self.spec_site(),
            *site == self@[0].1,
    {
        proof {
            self.lemma_layers();
        }
        &self.site
    }
}

impl<K> ErrorType for Error<K> {
    type ErrorKind = K;

    closed spec fn node(kind: K, cause: Option<Box<Error<K>>>, location: CallSite) -> Error<K> {
        Error { kind, cause, site: location }
    }

    fn new(kind: K, cause: Option<Box<Error<K>>>, location: CallSite) -> (e: Error<K>) {
        Error { kind, cause, site: location }
    }
}

/// A chain is already an error: converting it changes nothing and makes no
/// node.
impl<K> IntoError<Error<K>> for Error<K> {
    open spec fn into_error_spec(self, site: CallSite) -> Error<K> {
        self
    }

    fn into_error(self, site: CallSite) -> (e: Error<K>) {
        self
    }
}

/// A kind becomes the terminal node that holds it, made at the site of the
/// conversion.
impl<K> IntoError<Error<K>> for K {
    open spec fn into_error_spec(self, site: CallSite) -> Error<K> {
        Error::<K>::node(self, None, site)
    }

    fn into_error(self, site: CallSite) -> (e: Error<K>) {
        Error::new(self, site)
    }
}

impl<K: Describe> Error<K> {
    /// Appends the text of this chain to `out`.
    pub fn push_to(&self, out: &mut String)
        ensures
            exists|shown: Seq<String>| #[trigger]
                described(self@, shown) && final(out)@ == old(out)@ + rendering_of(
                    self@,
                    texts(shown),
                ),
        decreases self,
    {
        proof {
            self.lemma_layers();
        }
        out.push('[');
        self.site.push_to(out);
        out.push(']');
        out.push(' ');
        let kind_text = self.kind.describe();
        out.append(kind_text.as_str());
        let ghost head = seq!['['] + self.site.text() + seq![']', ' '] + kind_text@;
        assert(out@ == old(out)@ + head);
        match &self.cause {
            Some(c) => {
                out.push(':');
                out.push(' ');
                let ghost middle = out@;
                c.push_to(out);
                proof {
                    let rest = choose|rest: Seq<String>| #[trigger]
                        described(c@, rest) && out@ == middle + rendering_of(c@, texts(rest));
                    let shown = seq![kind_text] + rest;
                    assert(texts(shown).drop_first() == texts(rest));
                    assert(texts(shown)[0] == kind_text@);
                    assert forall|i: int| 0 <= i < self@.len() implies call_ensures(
                        K::describe,
                        (&self@[i].0,),
                        #[trigger] shown[i],
                    ) by {
                        if i > 0 {
                            assert(shown[i] == rest[i - 1]);
                            assert(self@[i] == c@[i - 1]);
                        }
                    }
                    assert(described(self@, shown));
                    assert(out@ == old(out)@ + (head + seq![':', ' '] + rendering_of(
                        self@.drop_first(),
                        texts(shown).drop_first(),
                    )));
                }
            },
            None => {
                proof {
                    let shown = seq![kind_text];
                    assert(texts(shown)[0] == kind_text@);
                    assert(described(self@, shown));
                    assert(out@ == old(out)@ + rendering_of(self@, texts(shown)));
                }
            },
        }
    }

    /// The text of this chain on one line: every layer, outermost first, each
    /// tagged with its own site.
    pub fn render(&self) -> (s: String)
        ensures
            renders(self@, s@),
    {
        let mut s = String::new();
        self.push_to(&mut s);
        proof {
            let shown = choose|shown: Seq<String>| #[trigger]
                described(self@, shown) && s@ == Seq::<char>::empty() + rendering_of(
                    self@,
                    texts(shown),
                );
            assert(Seq::<char>::empty() + rendering_of(self@, texts(shown)) == rendering_of(
                self@,
                texts(shown),
            ));
        }
        s
    }
}

} // verus!
