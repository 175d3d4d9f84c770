//! Errors for magnitude conversions.

use vstd::prelude::*;

verus! {

/// Failure of a numeric conversion: the requested value does not fit
/// the chosen width.
#[derive(Debug, PartialEq, Eq, Structural, Copy, Clone)]
pub enum NumberError {
    Unrepresentable,
}

pub type NumberResult<T> = Result<T, NumberError>;

} // verus!
