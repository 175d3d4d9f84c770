//! The array capability: ordered insertion and removal at the end, plus
//! the option enums that select the operation kinds.

use vstd::prelude::*;

use crate::container::Containered;
use crate::traits::{Few, TypeMarker};

verus! {

/// How to clear an array.
#[derive(Eq, PartialEq, Structural, Copy, Clone, Debug, Hash)]
pub enum Clear {
    KeepingCapacity,
    DroppingCapacity,
}

impl Default for Clear {
    fn default() -> (r: Self)
        ensures
            r == Clear::KeepingCapacity,
    {
        Clear::KeepingCapacity
    }
}

/// Which element to remove.
#[derive(Eq, PartialEq, Structural, Copy, Clone, Debug, Hash)]
pub enum OrderedRemove {
    Last,
}

impl Default for OrderedRemove {
    fn default() -> (r: Self)
        ensures
            r == OrderedRemove::Last,
    {
        OrderedRemove::Last
    }
}

/// Where to insert one element.
pub enum OrderedInsert<T> {
    AtEnd(T),
}

/// Where to insert several elements.
#[verifier::reject_recursive_types(E)]
pub enum OrderedInsertFew<T, E, F: Few<T, Error = E>> {
    AtEnd(F, TypeMarker<T>, TypeMarker<E>),
}

/// Which order to sort into.
#[derive(Eq, PartialEq, Structural, Copy, Clone, Debug, Hash)]
pub enum Sort {
    Default,
}

/// An ordered container with append and remove-at-end.
///
/// The view is the sequence of live elements, oldest first.  `insert`
/// appends; a failed single insert leaves the array unchanged, and a
/// failed batch insert leaves exactly the successfully-written prefix
/// committed.
pub trait Array<T>: View<V = Seq<T>> + Sized {
    /// The implementation's well-formedness invariant.
    spec fn arr_wf(&self) -> bool;

    fn len(&self) -> (n: usize)
        requires
            self.arr_wf(),
        ensures
            n as int == self@.len(),
    ;

    fn insert(&mut self, insert: OrderedInsert<T>) -> (r: Containered)
        requires
            old(self).arr_wf(),
        ensures
            final(self).arr_wf(),
            (match insert {
                OrderedInsert::AtEnd(t) => (r is Ok ==> final(self)@ == old(self)@.push(t)) && (
                r is Err ==> final(self)@ == old(self)@),
            }),
    ;

    fn insert_few<E, F: Few<T, Error = E>>(&mut self, insert: OrderedInsertFew<T, E, F>) -> (r:
        Containered)
        requires
            old(self).arr_wf(),
        ensures
            final(self).arr_wf(),
            (match insert {
                OrderedInsertFew::AtEnd(f, ..) => (r is Ok ==> final(self)@ == old(self)@ + f.few())
                    && (r is Err ==> exists|k: int|
                    0 <= k <= f.few().len() && final(self)@ == old(self)@ + f.few().take(k)),
            }),
    ;
}

} // verus!
