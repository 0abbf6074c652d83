//! The one error type under which the failures of the three steps are
//! reported.

use crate::divide::DivisionByZeroError;
use crate::parse::ParseError;
use crate::split::SplitError;
use vstd::prelude::*;
use vstd::std_specs::convert::FromSpecImpl;

verus! {

/// Why a division of a comma-separated pair failed.
#[derive(Debug, PartialEq, Eq)]
pub enum Error {
    /// The text did not hold exactly one comma.
    Split,
    /// One side of the comma was not a number; it carries that side's text.
    Parse(String),
    /// The divisor was zero.
    DivisionByZero,
}

/// What an [`Error`] says, with the text it carries as a sequence of
/// characters.
pub ghost enum ErrorView {
    Split,
    Parse(Seq<char>),
    DivisionByZero,
}

impl View for Error {
    type V = ErrorView;

    open spec fn view(&self) -> ErrorView {
        match self {
            Error::Split => ErrorView::Split,
            Error::Parse(text) => ErrorView::Parse(text@),
            Error::DivisionByZero => ErrorView::DivisionByZero,
        }
    }
}

impl From<SplitError> for Error {
    fn from(e: SplitError) -> (res: Self) {
        Error::Split
    }
}

impl FromSpecImpl<SplitError> for Error {
    open spec fn obeys_from_spec() -> bool {
        true
    }

    open spec fn from_spec(e: SplitError) -> Self {
        Error::Split
    }
}

impl From<ParseError> for Error {
    fn from(e: ParseError) -> (res: Self) {
        Error::Parse(e.0)
    }
}

impl FromSpecImpl<ParseError> for Error {
    open spec fn obeys_from_spec() -> bool {
        true
    }

    open spec fn from_spec(e: ParseError) -> Self {
        Error::Parse(e.0)
    }
}

impl From<DivisionByZeroError> for Error {
    fn from(e: DivisionByZeroError) -> (res: Self) {
        Error::DivisionByZero
    }
}

impl FromSpecImpl<DivisionByZeroError> for Error {
    open spec fn obeys_from_spec() -> bool {
        true
    }

    open spec fn from_spec(e: DivisionByZeroError) -> Self {
        Error::DivisionByZero
    }
}

} // verus!
