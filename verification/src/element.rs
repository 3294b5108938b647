use vstd::prelude::*;

verus! {

/// An element of the caller's own document type, wrapped so that the
/// selector matcher can take it.
#[derive(Debug, Clone, PartialEq, Eq)]
pub struct ConcreteCapsuleElement<E>(pub E);

impl<E> ConcreteCapsuleElement<E> {
    pub fn new(element: E) -> (r: Self)
        ensures
            r.0 == element,
    {
        ConcreteCapsuleElement(element)
    }

    pub fn into_inner(self) -> (r: E)
        ensures
            r == self.0,
    {
        self.0
    }
}

/// Why a piece of CSS did not parse.
#[derive(Debug, Clone, PartialEq, Eq)]
pub enum ParseErrorKind {
    /// A float where an integer is needed.
    IntegerRequired,
    OutOfRange { value: i64, min: i64, max: i64 },
    InvalidLength,
    InvalidColor,
    InvalidVariable,
    InvalidHexColor,
    UnknownColor(String),
    UnknownFunction(String),
    UnknownProperty(String),
    UnknownKeyword { keyword: String, property: &'static str },
    Expected { what: String, got: String },
    UnexpectedEof,
    UnexpectedToken(String),
    BadSelector(String),
}

} // verus!
