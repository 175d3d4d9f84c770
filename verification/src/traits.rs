//! Capability traits the containers consume: fallible cloning, count
//! access, and batch value sources.

use vstd::prelude::*;

use crate::container::ContainerError;
use crate::count::Count;
use crate::signed::SignedPrimitive;

verus! {

pub use core::marker::PhantomData as TypeMarker;

/// Cloning that may fail.  A successful clone satisfies `clone_matches`,
/// the type's own statement of what the copy shares with the original.
pub trait TryClone: Sized {
    type Error;

    /// What the implementation asks of a `try_clone` call.
    spec fn try_clone_req(&self) -> bool;

    /// Whether cloning this value can ever fail.
    spec fn clone_can_fail(&self) -> bool;

    /// What a successful clone guarantees about the copy.
    spec fn clone_matches(&self, other: &Self) -> bool;

    fn try_clone(&self) -> (r: Result<Self, Self::Error>)
        requires
            self.try_clone_req(),
        ensures
            r matches Ok(c) ==> self.clone_matches(&c),
            !self.clone_can_fail() ==> r is Ok,
    ;
}

impl TryClone for u8 {
    type Error = ContainerError;

    open spec fn try_clone_req(&self) -> bool {
        true
    }

    open spec fn clone_can_fail(&self) -> bool {
        false
    }

    open spec fn clone_matches(&self, other: &Self) -> bool {
        *self == *other
    }

    fn try_clone(&self) -> (r: Result<Self, Self::Error>) {
        Ok(*self)
    }
}

impl TryClone for u16 {
    type Error = ContainerError;

    open spec fn try_clone_req(&self) -> bool {
        true
    }

    open spec fn clone_can_fail(&self) -> bool {
        false
    }

    open spec fn clone_matches(&self, other: &Self) -> bool {
        *self == *other
    }

    fn try_clone(&self) -> (r: Result<Self, Self::Error>) {
        Ok(*self)
    }
}

impl TryClone for u32 {
    type Error = ContainerError;

    open spec fn try_clone_req(&self) -> bool {
        true
    }

    open spec fn clone_can_fail(&self) -> bool {
        false
    }

    open spec fn clone_matches(&self, other: &Self) -> bool {
        *self == *other
    }

    fn try_clone(&self) -> (r: Result<Self, Self::Error>) {
        Ok(*self)
    }
}

impl TryClone for u64 {
    type Error = ContainerError;

    open spec fn try_clone_req(&self) -> bool {
        true
    }

    open spec fn clone_can_fail(&self) -> bool {
        false
    }

    open spec fn clone_matches(&self, other: &Self) -> bool {
        *self == *other
    }

    fn try_clone(&self) -> (r: Result<Self, Self::Error>) {
        Ok(*self)
    }
}

impl TryClone for usize {
    type Error = ContainerError;

    open spec fn try_clone_req(&self) -> bool {
        true
    }

    open spec fn clone_can_fail(&self) -> bool {
        false
    }

    open spec fn clone_matches(&self, other: &Self) -> bool {
        *self == *other
    }

    fn try_clone(&self) -> (r: Result<Self, Self::Error>) {
        Ok(*self)
    }
}

impl TryClone for i8 {
    type Error = ContainerError;

    open spec fn try_clone_req(&self) -> bool {
        true
    }

    open spec fn clone_can_fail(&self) -> bool {
        false
    }

    open spec fn clone_matches(&self, other: &Self) -> bool {
        *self == *other
    }

    fn try_clone(&self) -> (r: Result<Self, Self::Error>) {
        Ok(*self)
    }
}

impl TryClone for i16 {
    type Error = ContainerError;

    open spec fn try_clone_req(&self) -> bool {
        true
    }

    open spec fn clone_can_fail(&self) -> bool {
        false
    }

    open spec fn clone_matches(&self, other: &Self) -> bool {
        *self == *other
    }

    fn try_clone(&self) -> (r: Result<Self, Self::Error>) {
        Ok(*self)
    }
}

impl TryClone for i32 {
    type Error = ContainerError;

    open spec fn try_clone_req(&self) -> bool {
        true
    }

    open spec fn clone_can_fail(&self) -> bool {
        false
    }

    open spec fn clone_matches(&self, other: &Self) -> bool {
        *self == *other
    }

    fn try_clone(&self) -> (r: Result<Self, Self::Error>) {
        Ok(*self)
    }
}

impl TryClone for i64 {
    type Error = ContainerError;

    open spec fn try_clone_req(&self) -> bool {
        true
    }

    open spec fn clone_can_fail(&self) -> bool {
        false
    }

    open spec fn clone_matches(&self, other: &Self) -> bool {
        *self == *other
    }

    fn try_clone(&self) -> (r: Result<Self, Self::Error>) {
        Ok(*self)
    }
}

/// Read access to a container's count.
pub trait GetCount<S: SignedPrimitive> {
    fn count(&self) -> Count<S>;
}

/// Write access to a container's count: truncates or fills with defaults.
pub trait SetCount<S: SignedPrimitive> {
    type Error;

    /// What the implementation asks of a `set_count` call.
    spec fn set_count_req(&self, new_count: Count<S>) -> bool;

    fn set_count(&mut self, new_count: Count<S>) -> Result<(), Self::Error>
        requires
            old(self).set_count_req(new_count),
    ;
}

/// A source of several values, handed out one at a time in order.
pub trait Few<T> {
    type Error;

    /// The values still to be handed out.
    spec fn few(&self) -> Seq<T>;

    /// Whether handing out a value can ever fail.
    spec fn can_fail(&self) -> bool;

    fn size(&self) -> (n: usize)
        ensures
            n as int == self.few().len(),
    ;

    /// Takes the next value out of the source.
    fn nab(&mut self) -> (r: Result<T, Self::Error>)
        requires
            old(self).few().len() > 0,
        ensures
            r matches Ok(v) ==> v == old(self).few()[0] && final(self).few() == old(self).few().skip(1),
            r is Err ==> final(self).few() == old(self).few(),
            !old(self).can_fail() ==> r is Ok,
            final(self).can_fail() ==> old(self).can_fail(),
    ;
}

impl<T> Few<T> for Vec<T> {
    type Error = ContainerError;

    open spec fn few(&self) -> Seq<T> {
        self@
    }

    open spec fn can_fail(&self) -> bool {
        false
    }

    fn size(&self) -> (n: usize) {
        self.len()
    }

    fn nab(&mut self) -> (r: Result<T, Self::Error>) {
        let v = self.remove(0);
        proof {
            assert(self@ =~= old(self)@.skip(1));
        }
        Ok(v)
    }
}

} // verus!
