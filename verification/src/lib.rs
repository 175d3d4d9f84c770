//! Compact, growable, ownership-tracked arrays.
//!
//! The crate builds a small-buffer-optimized dynamic array from three layers:
//! a magnitude type (`Count`) that packs "value or null" into one signed
//! machine integer, a capacity-tracking allocation primitive
//! (`AllocationCount`), and two arrays on top of it: a heap-only array
//! (`NonLocalArrayCount`) and a hybrid array (`MaybeLocalArrayOptimized`)
//! that moves between inline, compact-heap and overflow storage while
//! preserving its elements.

pub mod allocation;
pub mod array;
pub mod container;
pub mod count;
pub mod in_memory_file;
pub mod index;
pub mod maybe_local_array;
pub mod moot;
pub mod non_local_array;
pub mod number;
pub mod offset;
pub mod shtick;
pub mod signed;
pub mod symmetric;
pub mod traits;
