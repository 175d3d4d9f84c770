//! Possibly-negative logical indices, with wraparound from the end.

use vstd::prelude::*;

verus! {

pub use crate::signed::Signed as Index;

pub type Index64 = Index<i64>;

pub type Index32 = Index<i32>;

pub type Index16 = Index<i16>;

pub type Index8 = Index<i8>;

} // verus!
