//! The three steps in a row: cut the text, read both sides, divide.

use crate::divide::{quotient_overflows, safe_div, truncated_quotient};
use crate::error::{Error, ErrorView};
use crate::parse::{decimal_value, parse, reads_as_i32};
use crate::split::{
    delimiter_count, is_cut_of, lemma_no_cut_without_one_delimiter, lemma_no_other_cut,
    lemma_one_delimiter_has_cut, split,
};
use vstd::prelude::*;

verus! {

/// What comes of the two sides of a cut: the error of the first side that is
/// not a number, the error of a zero divisor, or the quotient.
pub open spec fn outcome_of_cut(left: Seq<char>, right: Seq<char>) -> Result<int, ErrorView> {
    if !reads_as_i32(left) {
        Err(ErrorView::Parse(left))
    } else if !reads_as_i32(right) {
        Err(ErrorView::Parse(right))
    } else if decimal_value(right) == 0 {
        Err(ErrorView::DivisionByZero)
    } else {
        Ok(truncated_quotient(decimal_value(left), decimal_value(right)))
    }
}

/// Whether `out` is what comes of `input`: the split error where `input` does
/// not hold exactly one delimiter, and else what comes of its two sides.
pub open spec fn is_outcome_of(input: Seq<char>, out: Result<int, ErrorView>) -> bool {
    &&& delimiter_count(input) != 1 ==> out == Err::<int, ErrorView>(ErrorView::Split)
    &&& forall|left: Seq<char>, right: Seq<char>| #[trigger]
        is_cut_of(input, left, right) ==> out == outcome_of_cut(left, right)
}

/// Whether the two sides of `input` are numbers whose quotient no `i32` can
/// hold.
pub open spec fn overflows(input: Seq<char>) -> bool {
    exists|left: Seq<char>, right: Seq<char>|
        {
            &&& #[trigger] is_cut_of(input, left, right)
            &&& reads_as_i32(left)
            &&& reads_as_i32(right)
            &&& quotient_overflows(decimal_value(left), decimal_value(right))
        }
}

/// A result of [`perform`] with its number as an `int` and its error by its
/// view.
pub open spec fn result_view(res: Result<i32, Error>) -> Result<int, ErrorView> {
    match res {
        Ok(quotient) => Ok(quotient as int),
        Err(e) => Err(e@),
    }
}

/// A text has one outcome: two results that both come of the same text are
/// the same result.
pub proof fn lemma_outcome_is_unique(
    input: Seq<char>,
    first: Result<int, ErrorView>,
    second: Result<int, ErrorView>,
)
    requires
        is_outcome_of(input, first),
        is_outcome_of(input, second),
    ensures
        first == second,
{
    if delimiter_count(input) == 1 {
        lemma_one_delimiter_has_cut(input);
        let (left, right) = choose|left: Seq<char>, right: Seq<char>|
            is_cut_of(input, left, right);
        assert(first == outcome_of_cut(left, right));
        assert(second == outcome_of_cut(left, right));
    }
}

/// Every text has an outcome.
pub proof fn lemma_outcome_exists(input: Seq<char>)
    ensures
        exists|out: Result<int, ErrorView>| is_outcome_of(input, out),
{
    if delimiter_count(input) == 1 {
        lemma_one_delimiter_has_cut(input);
        let (left, right) = choose|left: Seq<char>, right: Seq<char>|
            is_cut_of(input, left, right);
        lemma_no_other_cut(input, left, right);
        assert(is_outcome_of(input, outcome_of_cut(left, right)));
    } else {
        lemma_no_cut_without_one_delimiter(input);
        assert(is_outcome_of(input, Err::<int, ErrorView>(ErrorView::Split)));
    }
}

/// Tells whether the two sides of `input` are numbers whose quotient no `i32`
/// can hold, which is the one case that [`perform`] leaves out.
pub fn would_overflow(input: &str) -> (res: bool)
    ensures
        res == overflows(input@),
{
    let parts = match split(input) {
        Ok(parts) => parts,
        Err(_) => {
            proof {
                lemma_no_cut_without_one_delimiter(input@);
            }
            return false;
        },
    };
    proof {
        lemma_no_other_cut(input@, parts.0@, parts.1@);
    }
    match parse(parts) {
        Ok(numbers) => numbers.0 == i32::MIN && numbers.1 == -1,
        Err(_) => false,
    }
}

/// Divides the number before the comma of `input` by the number after it.
///
/// The first step that fails decides the error: the cut, then the first
/// side, then the second side, then the division. The least `i32` divided by
/// minus one has no quotient in `i32` and is left out; [`would_overflow`]
/// tells whether a text asks for it.
pub fn perform(input: &str) -> (res: Result<i32, Error>)
    requires
        !overflows(input@),
    ensures
        is_outcome_of(input@, result_view(res)),
{
    let parts = match split(input) {
        Ok(parts) => parts,
        Err(e) => {
            proof {
                lemma_no_cut_without_one_delimiter(input@);
            }
            return Err(Error::from(e));
        },
    };
    proof {
        lemma_no_other_cut(input@, parts.0@, parts.1@);
    }
    let numbers = match parse(parts) {
        Ok(numbers) => numbers,
        Err(e) => {
            return Err(Error::from(e));
        },
    };
    match safe_div(numbers) {
        Ok(quotient) => Ok(quotient),
        Err(e) => Err(Error::from(e)),
    }
}

} // verus!
