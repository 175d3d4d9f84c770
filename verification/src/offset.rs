//! Zero-based displacements into a container.

use vstd::prelude::*;

verus! {

pub use crate::signed::Signed as Offset;

pub type Offset64 = Offset<i64>;

pub type Offset32 = Offset<i32>;

pub type Offset16 = Offset<i16>;

pub type Offset8 = Offset<i8>;

/// The widest offset this platform supports.
pub type OffsetMax = Offset64;

} // verus!
