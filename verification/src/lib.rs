//! Division of a comma-separated pair of integers.
//!
//! The input is a text such as `52,3`. It is cut at its single comma, both
//! sides are read as decimal `i32` numbers, and the first is divided by the
//! second. Each of the three steps can fail in its own way, and [`perform`]
//! chains them and reports the first failure.

pub mod divide;
pub mod error;
pub mod parse;
pub mod perform;
pub mod split;

pub use divide::{safe_div, DivisionByZeroError};
pub use error::Error;
pub use parse::{parse, parse_i32, ParseError};
pub use perform::{perform, would_overflow};
pub use split::{split, SplitError, DELIMITER};
