//! The ways in which parsing fails.
use vstd::prelude::*;

verus! {

/// Why a piece of configuration text was rejected.
pub enum ParseError {
    /// A token failed identifier or sub-grammar validation.
    InvalidIdent(String),
    /// A number was malformed or out of range.
    InvalidInt(std::num::ParseIntError),
    /// A known action got the wrong number of arguments: its name and the raw arguments.
    BadArgs(String, String),
    /// An action name that the grammar does not know.
    InvalidCall(String),
}

/// The abstract form of a [`ParseError`].
pub enum ErrorView {
    InvalidIdent(Seq<char>),
    InvalidInt,
    BadArgs(Seq<char>, Seq<char>),
    InvalidCall(Seq<char>),
}

impl View for ParseError {
    type V = ErrorView;

    open spec fn view(&self) -> ErrorView {
        match self {
            ParseError::InvalidIdent(s) => ErrorView::InvalidIdent(s@),
            ParseError::InvalidInt(_) => ErrorView::InvalidInt,
            ParseError::BadArgs(a, b) => ErrorView::BadArgs(a@, b@),
            ParseError::InvalidCall(s) => ErrorView::InvalidCall(s@),
        }
    }
}

/// The abstract form of a parse result whose value has the view `f`.
pub open spec fn result_view<T, V>(r: Result<T, ParseError>, f: spec_fn(T) -> V) -> Result<
    V,
    ErrorView,
> {
    match r {
        Ok(t) => Ok(f(t)),
        Err(e) => Err(e@),
    }
}

} // verus!
