//! The kitsune error types: a kind of failure, and a cheaply cloned error
//! that shares one kind.
//!
//! A boxed source error is held by its display text, which is all that the
//! error's own logic reads of it.

use std::sync::Arc;
use vstd::prelude::*;
use vstd::std_specs::cmp::PartialEqSpec;
use vstd::string::*;

verus! {

/// Error related to remote communication.
#[derive(Debug)]
#[non_exhaustive]
pub enum KitsuneErrorKind {
    /// Temp error type for internal logic.
    Unit,
    /// The operation timed out.
    TimedOut(String),
    /// This object is closed, calls on it are invalid.
    Closed,
    /// The operation is unauthorized by the host.
    Unauthorized,
    /// Bad external input: the source error's text, then the input.
    /// Can't proceed, but we don't have to shut everything down, either.
    BadInput(String, String),
    /// Unspecified error, by its text.
    Other(String),
}

/// When two kinds compare equal: two timeouts with the same text, or two
/// `Closed`. Every other pair, a kind and itself included, compares unequal.
pub open spec fn kind_eq(a: KitsuneErrorKind, b: KitsuneErrorKind) -> bool {
    match (a, b) {
        (KitsuneErrorKind::TimedOut(x), KitsuneErrorKind::TimedOut(y)) => x@ == y@,
        (KitsuneErrorKind::Closed, KitsuneErrorKind::Closed) => true,
        _ => false,
    }
}

impl PartialEq for KitsuneErrorKind {
    fn eq(&self, oth: &Self) -> (r: bool) {
        match self {
            KitsuneErrorKind::TimedOut(a) => match oth {
                KitsuneErrorKind::TimedOut(b) => a.eq(b),
                _ => false,
            },
            KitsuneErrorKind::Closed => match oth {
                KitsuneErrorKind::Closed => true,
                _ => false,
            },
            _ => false,
        }
    }
}

impl vstd::std_specs::cmp::PartialEqSpecImpl for KitsuneErrorKind {
    open spec fn obeys_eq_spec() -> bool {
        true
    }

    open spec fn eq_spec(&self, other: &Self) -> bool {
        kind_eq(*self, *other)
    }
}


/// The display text of a kind.
pub open spec fn kind_text(k: KitsuneErrorKind) -> Seq<char> {
    match k {
        KitsuneErrorKind::Unit => "Unit"@,
        KitsuneErrorKind::TimedOut(_) => "Operation timed out"@,
        KitsuneErrorKind::Closed => "This object is closed, calls on it are invalid."@,
        KitsuneErrorKind::Unauthorized => "Unauthorized"@,
        KitsuneErrorKind::BadInput(e, i) => "Bad external input. Error: "@ + e@ + "  Input: "@ + i@,
        KitsuneErrorKind::Other(e) => e@,
    }
}

impl KitsuneErrorKind {
    /// The text that an `Other` kind holds (meaningless for other kinds).
    pub open spec fn text_of_other(&self) -> Seq<char> {
        match *self {
            KitsuneErrorKind::Other(e) => e@,
            _ => Seq::empty(),
        }
    }

    /// The display text of this kind.
    pub fn to_string(&self) -> (s: String)
        ensures
            s@ == kind_text(*self),
    {
        match self {
            KitsuneErrorKind::Unit => String::from_str("Unit"),
            KitsuneErrorKind::TimedOut(_) => String::from_str("Operation timed out"),
            KitsuneErrorKind::Closed => String::from_str(
                "This object is closed, calls on it are invalid.",
            ),
            KitsuneErrorKind::Unauthorized => String::from_str("Unauthorized"),
            KitsuneErrorKind::BadInput(e, i) => {
                let mut s = String::from_str("Bad external input. Error: ");
                s.append(e.as_str());
                s.append("  Input: ");
                s.append(i.as_str());
                s
            },
            KitsuneErrorKind::Other(e) => e.clone(),
        }
    }
}

/// Equality of kinds is symmetric and transitive (it is not reflexive:
/// `Unit`, `Unauthorized`, `BadInput` and `Other` never compare equal).
pub proof fn kind_eq_is_partial_equivalence()
    ensures
        vstd::laws_eq::obeys_eq_spec_properties::<KitsuneErrorKind>(),
{
    reveal(vstd::laws_eq::obeys_eq_spec_properties);
}

/// Error related to remote communication.
#[derive(Clone, Debug)]
pub struct KitsuneError(pub Arc<KitsuneErrorKind>);

impl KitsuneError {
    /// the "kind" of this KitsuneError
    pub fn kind(&self) -> (k: &KitsuneErrorKind)
        ensures
            *k == *self.0,
    {
        &self.0
    }

    /// Create a bad_input error from the source error's text and the input.
    pub fn bad_input(e: String, i: String) -> (r: Self)
        ensures
            *r.0 == KitsuneErrorKind::BadInput(e, i),
    {
        KitsuneError(Arc::new(KitsuneErrorKind::BadInput(e, i)))
    }

    /// promote a custom error, given by its text, to a KitsuneError
    pub fn other(e: String) -> (r: Self)
        ensures
            *r.0 == KitsuneErrorKind::Other(e),
    {
        KitsuneError(Arc::new(KitsuneErrorKind::Other(e)))
    }

    /// The display text of this error: that of its kind.
    pub fn to_string(&self) -> (s: String)
        ensures
            s@ == kind_text(*self.0),
    {
        self.0.to_string()
    }
}

impl From<KitsuneErrorKind> for KitsuneError {
    fn from(k: KitsuneErrorKind) -> (r: Self) {
        KitsuneError(Arc::new(k))
    }
}

impl vstd::std_specs::convert::FromSpecImpl<KitsuneErrorKind> for KitsuneError {
    open spec fn obeys_from_spec() -> bool {
        true
    }

    open spec fn from_spec(k: KitsuneErrorKind) -> Self {
        KitsuneError(Arc::new(k))
    }
}


impl From<String> for KitsuneError {
    fn from(s: String) -> (r: Self) {
        KitsuneError::other(s)
    }
}

impl vstd::std_specs::convert::FromSpecImpl<String> for KitsuneError {
    open spec fn obeys_from_spec() -> bool {
        true
    }

    open spec fn from_spec(s: String) -> Self {
        KitsuneError(Arc::new(KitsuneErrorKind::Other(s)))
    }
}

impl From<&str> for KitsuneError {
    fn from(s: &str) -> (r: Self)
        ensures
            *r.0 is Other,
            r.0.text_of_other() == s@,
    {
        KitsuneError::other(s.to_owned())
    }
}

impl vstd::std_specs::convert::FromSpecImpl<&str> for KitsuneError {
    /// The result is an `Other` error holding a `String` with the characters of
    /// `s`; since two strings with the same characters are not known to be one
    /// value, `from` states its result itself.
    open spec fn obeys_from_spec() -> bool {
        false
    }

    open spec fn from_spec(s: &str) -> Self {
        KitsuneError(Arc::new(KitsuneErrorKind::Other(choose|t: String| #[trigger] t@ == s@)))
    }
}

impl From<()> for KitsuneError {
    fn from(u: ()) -> (r: Self) {
        KitsuneError::from(KitsuneErrorKind::Unit)
    }
}

impl vstd::std_specs::convert::FromSpecImpl<()> for KitsuneError {
    open spec fn obeys_from_spec() -> bool {
        true
    }

    open spec fn from_spec(u: ()) -> Self {
        KitsuneError(Arc::new(KitsuneErrorKind::Unit))
    }
}

impl From<KitsuneError> for () {
    fn from(e: KitsuneError) -> (r: ()) {
    }
}

impl vstd::std_specs::convert::FromSpecImpl<KitsuneError> for () {
    open spec fn obeys_from_spec() -> bool {
        true
    }

    open spec fn from_spec(e: KitsuneError) -> () {
        ()
    }
}


/// An error made from a text, a `String` or a `&str`, displays as that text.
pub proof fn lemma_error_from_text(s: String)
    ensures
        kind_text(*<KitsuneError as vstd::std_specs::convert::FromSpec<String>>::from_spec(s).0)
            == s@,
{
}


/// What `==` on kinds decides: two timeouts are equal exactly when their texts
/// are the same whole strings, two `Closed` are equal, and a kind of any other
/// variant equals nothing.
pub proof fn lemma_kind_eq_cases(x: String, y: String, k: KitsuneErrorKind)
    ensures
        KitsuneErrorKind::TimedOut(x).eq_spec(&KitsuneErrorKind::TimedOut(y)) <==> (x@ == y@),
        KitsuneErrorKind::Closed.eq_spec(&KitsuneErrorKind::Closed),
        !(k is TimedOut || k is Closed) ==> !k.eq_spec(&k) && forall|o: KitsuneErrorKind|
            !(#[trigger] k.eq_spec(&o)) && !o.eq_spec(&k),
        (k is TimedOut) ==> !k.eq_spec(&KitsuneErrorKind::Closed),
{
}

} // verus!
