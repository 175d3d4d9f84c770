//! Errors shared by the container types.

use vstd::prelude::*;

verus! {

/// The flat error kinds every fallible container operation reports.
#[derive(Debug, PartialEq, Eq, Structural, Copy, Clone)]
pub enum ContainerError {
    /// Prefer something more descriptive.
    Unknown,
    /// The requested size cannot be represented in the chosen width.
    OutOfMemory,
    /// Invalid index/key (at) to the container.
    InvalidAt,
}

impl Default for ContainerError {
    fn default() -> (r: Self)
        ensures
            r == ContainerError::Unknown,
    {
        ContainerError::Unknown
    }
}

impl ContainerError {
    pub fn err(self) -> (r: Containered)
        ensures
            r == Containered::Err(self),
    {
        Err(self)
    }
}

pub type Containered = ContainerResult<()>;

pub type ContainerResult<T> = Result<T, ContainerError>;

} // verus!
