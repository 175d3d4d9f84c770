//! The heap-only growable array: an allocation plus a length.
//!
//! `NonLocalArrayCount<S, T>` keeps its elements on the heap and can hold
//! up to the width's maximum count of them.  Changing `S` has marginal impact on
//! the structure's size and makes counts more compact.  The slots
//! `[0, length)` are initialized, the slots `[length, capacity)` are not.

use vstd::prelude::*;

use crate::allocation::AllocationCount;
use crate::array::{Array, Clear, OrderedInsert, OrderedInsertFew, OrderedRemove};
use crate::container::{ContainerError, ContainerResult, Containered};
use crate::count::{count_limit, Count};
use crate::signed::SignedPrimitive;
use crate::traits::{Few, GetCount, SetCount, TryClone};
use vstd::std_specs::cmp::PartialEqSpec;

verus! {

broadcast use crate::count::lemma_count_norm;

/// The largest array that this platform can support, in terms of max
/// memory it can hold.
pub type NonLocalArrayMax<T> = NonLocalArrayCount64<T>;

pub type NonLocalArrayCount64<T> = NonLocalArrayCount<i64, T>;

pub type NonLocalArrayCount32<T> = NonLocalArrayCount<i32, T>;

pub type NonLocalArrayCount16<T> = NonLocalArrayCount<i16, T>;

pub type NonLocalArrayCount8<T> = NonLocalArrayCount<i8, T>;

/// The capacity after growing for `needed` elements: unchanged when it
/// already suffices, else doubled — but never below `needed` and
/// saturating at the width's maximum count.
pub open spec fn grown_capacity<S: SignedPrimitive>(cap: int, needed: int) -> int {
    if needed <= cap {
        cap
    } else if 2 * cap >= count_limit::<S>() {
        count_limit::<S>()
    } else if needed >= 2 * cap {
        needed
    } else {
        2 * cap
    }
}

/// Array of up to the width's maximum count of elements, always stored
/// on the heap.
pub struct NonLocalArrayCount<S: SignedPrimitive, T> {
    pub(crate) allocation: AllocationCount<S, T>,
    pub(crate) count: Count<S>,
}

impl<S: SignedPrimitive, T> View for NonLocalArrayCount<S, T> {
    type V = Seq<T>;

    closed spec fn view(&self) -> Seq<T> {
        self.allocation@
    }
}

impl<S: SignedPrimitive, T> NonLocalArrayCount<S, T> {
    /// The number of backed slots.
    pub closed spec fn cap(&self) -> int {
        self.allocation.cap()
    }

    /// The length field agrees with the initialized prefix, which the
    /// capacity covers.
    pub closed spec fn wf(&self) -> bool {
        &&& self.allocation.wf()
        &&& !self.count.is_null_spec()
        &&& self.count.value() == self.allocation@.len()
    }

    /// Bounds that follow from well-formedness.
    pub proof fn lemma_wf(&self)
        requires
            self.wf(),
        ensures
            0 <= self@.len() <= self.cap() <= count_limit::<S>(),
            self@.len() <= usize::MAX as int,
    {
        self.allocation.lemma_cap_in_range();
    }

    pub fn count(&self) -> (r: Count<S>)
        requires
            self.wf(),
        ensures
            !r.is_null_spec(),
            r.value() == self@.len(),
    {
        self.count
    }

    pub fn capacity(&self) -> (r: Count<S>)
        requires
            self.wf(),
        ensures
            !r.is_null_spec(),
            r.value() == self.cap(),
    {
        self.allocation.capacity()
    }

    /// A shared view of the element at `i`.
    pub fn at(&self, i: usize) -> (r: &T)
        requires
            i < self@.len(),
        ensures
            *r == self@[i as int],
    {
        self.allocation.at(i)
    }

    /// Overwrites the element at `i`, dropping its old value.
    pub fn set_at(&mut self, i: usize, value: T)
        requires
            old(self).wf(),
            i < old(self)@.len(),
        ensures
            final(self).wf(),
            final(self)@ == old(self)@.update(i as int, value),
            final(self).cap() == old(self).cap(),
    {
        self.allocation.set_at(i, value);
    }

    /// The live elements as a slice.
    pub fn as_slice(&self) -> (r: &[T])
        ensures
            r@ == self@,
    {
        self.allocation.as_slice()
    }

    /// The number of live elements, whether or not the array is
    /// well-formed.
    pub(crate) fn raw_len(&self) -> (n: usize)
        ensures
            n as int == self@.len(),
    {
        self.allocation.len()
    }

    /// Moves the live elements out, zeroing the length first so nothing
    /// is dropped twice; the capacity stays backed.
    pub(crate) fn take_elements(&mut self) -> (r: Vec<T>)
        requires
            old(self).wf(),
        ensures
            final(self).wf(),
            r@ == old(self)@,
            final(self)@ == Seq::<T>::empty(),
            final(self).cap() == old(self).cap(),
    {
        self.count = Count::min_value();
        self.allocation.take_elements()
    }

    /// Builds an array holding exactly `data` with the given capacity.
    pub(crate) fn from_parts(data: Vec<T>, capacity: Count<S>) -> (r: Self)
        requires
            capacity.internal() <= 0,
            data@.len() <= capacity.value(),
        ensures
            r.wf(),
            r@ == data@,
            r.cap() == capacity.value(),
    {
        proof {
            capacity.lemma_count_in_range();
            broadcast use vstd::std_specs::vec::axiom_spec_len;

        }
        let count = match Count::<S>::of(data.len()) {
            Ok(c) => c,
            Err(_) => {
                proof {
                    assert(false);
                }
                Count::min_value()
            },
        };
        let allocation = AllocationCount::from_parts(data, capacity);
        NonLocalArrayCount { allocation, count }
    }

    pub(crate) fn insert_at_end(&mut self, t: T) -> (r: Containered)
        requires
            old(self).wf(),
        ensures
            final(self).wf(),
            old(self)@.len() == count_limit::<S>() ==> r == Containered::Err(
                ContainerError::OutOfMemory,
            ) && final(self)@ == old(self)@ && final(self).cap() == old(self).cap(),
            old(self)@.len() < count_limit::<S>() ==> r is Ok && final(self)@ == old(self)@.push(t)
                && final(self).cap() == grown_capacity::<S>(old(self).cap(), old(self)@.len() + 1int),
    {
        proof {
            self.lemma_wf();
            S::lemma_range_shape();
        }
        let new_count = self.count + S::one();
        if new_count.is_null() {
            return ContainerError::OutOfMemory.err();
        }
        if new_count > self.capacity() {
            let grown = self.grow_to_at_least(new_count);
            if grown.is_err() {
                proof {
                    assert(false);
                }
                return ContainerError::OutOfMemory.err();
            }
        }
        self.append_with_required_capacity_ready(new_count, t);
        Ok(())
    }

    /// Writes `value` into the slot right above the live prefix and
    /// commits the new count; the capacity must already suffice.
    pub(crate) fn append_with_required_capacity_ready(&mut self, new_count: Count<S>, value: T)
        requires
            old(self).wf(),
            !new_count.is_null_spec(),
            new_count.value() == old(self)@.len() + 1,
            new_count.value() <= old(self).cap(),
        ensures
            final(self).wf(),
            final(self)@ == old(self)@.push(value),
            final(self).cap() == old(self).cap(),
    {
        proof {
            self.lemma_wf();
            new_count.lemma_count_in_range();
            S::lemma_range_shape();
        }
        let offset = new_count.to_highest_offset();
        let written = self.allocation.write_initializing(offset, value);
        proof {
            assert(written is Ok);
        }
        self.count = new_count;
    }

    /// Looking for `fn pop`? use `remove(OrderedRemove::Last)`.
    pub fn remove(&mut self, remove: OrderedRemove) -> (r: Option<T>)
        requires
            old(self).wf(),
        ensures
            final(self).wf(),
            final(self).cap() == old(self).cap(),
            old(self)@.len() == 0 ==> r is None && final(self)@ == old(self)@,
            old(self)@.len() > 0 ==> (r matches Some(v) && v == old(self)@.last() && final(self)@
                == old(self)@.drop_last()),
    {
        match remove {
            OrderedRemove::Last => self.remove_last(),
        }
    }

    pub(crate) fn remove_last(&mut self) -> (r: Option<T>)
        requires
            old(self).wf(),
        ensures
            final(self).wf(),
            final(self).cap() == old(self).cap(),
            old(self)@.len() == 0 ==> r is None && final(self)@ == old(self)@,
            old(self)@.len() > 0 ==> (r matches Some(v) && v == old(self)@.last() && final(self)@
                == old(self)@.drop_last()),
    {
        proof {
            self.lemma_wf();
            S::lemma_range_shape();
        }
        if !self.count.is_positive() {
            return None;
        }
        let offset = self.count.to_highest_offset();
        let result = match self.allocation.read_destructively(offset) {
            Ok(v) => v,
            Err(_) => {
                proof {
                    assert(false);
                }
                return None;
            },
        };
        self.count = self.count - S::one();
        Some(result)
    }

    /// Destroys the live elements; optionally keeps the backing memory.
    #[verifier::loop_isolation(false)]
    pub fn clear(&mut self, options: Clear)
        requires
            old(self).wf(),
        ensures
            final(self).wf(),
            final(self)@ == Seq::<T>::empty(),
            options == Clear::KeepingCapacity ==> final(self).cap() == old(self).cap(),
            options == Clear::DroppingCapacity ==> final(self).cap() == 0,
    {
        match options {
            Clear::KeepingCapacity => {
                // We do need each individual element dropped, so we cannot
                // just release the backing memory.
                while self.count.is_positive()
                    invariant
                        self.wf(),
                        self.cap() == old(self).cap(),
                    decreases self@.len(),
                {
                    proof {
                        self.lemma_wf();
                    }
                    let _ = self.remove_last();
                }
            },
            Clear::DroppingCapacity => {
                let dropped = self.set_capacity(Count::min_value());
                proof {
                    assert(dropped is Ok);
                }
            },
        }
    }

    /// Reallocates to exactly the requested capacity (zero for a null or
    /// non-positive request), destroying any live elements above it.
    #[verifier::loop_isolation(false)]
    pub fn set_capacity(&mut self, new_capacity: Count<S>) -> (r: Containered)
        requires
            old(self).wf(),
        ensures
            final(self).wf(),
            r is Ok,
            final(self).cap() == (if new_capacity.internal() < 0 {
                new_capacity.value()
            } else {
                0
            }),
            final(self)@ == old(self)@.take(
                if old(self)@.len() <= final(self).cap() {
                    old(self)@.len() as int
                } else {
                    final(self).cap()
                },
            ),
    {
        proof {
            self.lemma_wf();
            new_capacity.lemma_count_in_range();
        }
        let ghost eff: int = if new_capacity.internal() < 0 {
            new_capacity.value()
        } else {
            0
        };
        let ghost target: int = if old(self)@.len() <= eff {
            old(self)@.len() as int
        } else {
            eff
        };
        while self.count > new_capacity
            invariant
                self.wf(),
                self.cap() == old(self).cap(),
                target <= self@.len() <= old(self)@.len(),
                self@ == old(self)@.take(self@.len() as int),
            decreases self@.len(),
        {
            proof {
                self.lemma_wf();
            }
            // Could happen if the new capacity is below zero.
            if self.remove_last().is_none() {
                break ;
            }
            proof {
                assert(self@ =~= old(self)@.take(self@.len() as int));
            }
        }
        proof {
            self.lemma_wf();
            assert(self@.len() == target);
        }
        let result = self.allocation.set_capacity(new_capacity);
        proof {
            assert(self@ =~= old(self)@.take(target));
        }
        result
    }

    /// Doubles the capacity, but at least to `required_capacity`; leaves
    /// the elements alone.  Fails with `OutOfMemory` exactly when the
    /// capacity is already the width's maximum.
    pub(crate) fn grow_to_at_least(&mut self, required_capacity: Count<S>) -> (r: Containered)
        requires
            old(self).wf(),
            !required_capacity.is_null_spec(),
            required_capacity.value() >= 1,
        ensures
            final(self).wf(),
            final(self)@ == old(self)@,
            old(self).cap() == count_limit::<S>() ==> r == Containered::Err(
                ContainerError::OutOfMemory,
            ) && final(self).cap() == old(self).cap(),
            old(self).cap() < count_limit::<S>() ==> r is Ok && final(self).cap() == (if 2 * old(
                self,
            ).cap() >= count_limit::<S>() {
                count_limit::<S>()
            } else if required_capacity.value() >= 2 * old(self).cap() {
                required_capacity.value()
            } else {
                2 * old(self).cap()
            }),
    {
        proof {
            self.lemma_wf();
            required_capacity.lemma_count_in_range();
        }
        let desired_capacity = match self.capacity().double_or_at_least(required_capacity) {
            Ok(c) => c,
            Err(_) => {
                return ContainerError::OutOfMemory.err();
            },
        };
        let result = self.set_capacity(desired_capacity);
        proof {
            assert(final(self)@ =~= old(self)@);
        }
        result
    }

    #[verifier::loop_isolation(false)]
    pub(crate) fn insert_few_at_end<E, Values: Few<T, Error = E>>(&mut self, values: Values) -> (r:
        Containered)
        requires
            old(self).wf(),
        ensures
            final(self).wf(),
            !values.can_fail() && old(self)@.len() + values.few().len() <= count_limit::<S>() ==> r is Ok,
            r is Ok ==> final(self)@ == old(self)@ + values.few(),
            r is Ok ==> final(self).cap() == grown_capacity::<S>(
                old(self).cap(),
                old(self)@.len() + values.few().len() as int,
            ),
            r is Err ==> exists|k: int|
                0 <= k <= values.few().len() && final(self)@ == old(self)@ + values.few().take(k),
            r is Err ==> final(self).cap() == old(self).cap() || final(self).cap()
                == grown_capacity::<S>(
                old(self).cap(),
                old(self)@.len() + values.few().len() as int,
            ),
    {
        proof {
            self.lemma_wf();
            S::lemma_range_shape();
        }
        let mut vals = values;
        let previous_capacity = self.capacity();
        let previous_count = self.count();
        let batch = match Count::<S>::of(vals.size()) {
            Ok(c) => c,
            Err(_) => {
                proof {
                    assert(final(self)@ =~= old(self)@ + values.few().take(0));
                }
                return ContainerError::OutOfMemory.err();
            },
        };
        let new_count = previous_count + batch;
        if new_count.is_null() {
            proof {
                assert(final(self)@ =~= old(self)@ + values.few().take(0));
            }
            return ContainerError::OutOfMemory.err();
        }
        if new_count > previous_capacity {
            if self.grow_to_at_least(new_count).is_err() {
                proof {
                    assert(final(self)@ =~= old(self)@ + values.few().take(0));
                }
                return ContainerError::OutOfMemory.err();
            }
        }

        let ghost cap_ready: int = self.cap();
        proof {
            assert(cap_ready == grown_capacity::<S>(
                old(self).cap(),
                old(self)@.len() + values.few().len() as int,
            ));
        }
        let total = vals.size();
        let mut i: usize = 0;
        let mut intermediate_count = previous_count;
        while i < total
            invariant
                self.wf(),
                total as int == values.few().len(),
                vals.few() == values.few().skip(i as int),
                vals.can_fail() ==> values.can_fail(),
                0 <= i <= total,
                self@ == old(self)@ + values.few().take(i as int),
                self@.len() + (total - i) <= self.cap(),
                self.cap() == cap_ready,
                !intermediate_count.is_null_spec(),
                intermediate_count.value() == self@.len(),
            decreases total - i,
        {
            proof {
                self.lemma_wf();
                intermediate_count.lemma_count_in_range();
                S::lemma_range_shape();
            }
            intermediate_count = intermediate_count + S::one();
            let value = match vals.nab() {
                Ok(v) => v,
                Err(_) => {
                    proof {
                        assert(self@ =~= old(self)@ + values.few().take(i as int));
                    }
                    return ContainerError::Unknown.err();
                },
            };
            self.append_with_required_capacity_ready(intermediate_count, value);
            i = i + 1;
            proof {
                assert(values.few().take(i as int) =~= values.few().take(i as int - 1).push(
                    values.few()[i as int - 1],
                ));
                assert(self@ =~= old(self)@ + values.few().take(i as int));
            }
        }
        proof {
            assert(values.few().take(total as int) =~= values.few());
        }
        Ok(())
    }

    /// Deep-copies the live elements into a fresh array whose capacity is
    /// exactly the element count; surfaces the first clone failure.
    #[verifier::loop_isolation(false)]
    pub fn try_clone_elements(&self) -> (r: ContainerResult<Self>) where T: TryClone
        requires
            self.wf(),
            forall|i: int| 0 <= i < self@.len() ==> (#[trigger] self@[i]).try_clone_req(),
        ensures
            (forall|i: int|
                0 <= i < self@.len() ==> !(#[trigger] self@[i]).clone_can_fail()) ==> r is Ok,
            r matches Ok(c) ==> c.wf() && c@.len() == self@.len() && c.cap() == self@.len() && (
            forall|i: int| 0 <= i < self@.len() ==> self@[i].clone_matches(#[trigger] &c@[i])),
    {
        proof {
            self.lemma_wf();
        }
        let mut result = Self::default();
        // Only need to clone up to `count`, not the full `capacity`.
        let copied = result.set_capacity(self.count());
        proof {
            assert(copied is Ok);
        }
        let total = self.allocation.len();
        let mut i: usize = 0;
        while i < total
            invariant
                self.wf(),
                result.wf(),
                total as int == self@.len(),
                0 <= i <= total,
                result@.len() == i,
                result.cap() == self@.len(),
                forall|j: int| 0 <= j < i ==> self@[j].clone_matches(#[trigger] &result@[j]),
            decreases total - i,
        {
            proof {
                self.lemma_wf();
                result.lemma_wf();
            }
            let clone = match self.at(i).try_clone() {
                Ok(c) => c,
                Err(_) => {
                    return Err(ContainerError::Unknown);
                },
            };
            let inserted = result.insert_at_end(clone);
            proof {
                assert(inserted is Ok);
            }
            i = i + 1;
        }
        Ok(result)
    }
}

impl<S: SignedPrimitive, T> Default for NonLocalArrayCount<S, T> {
    fn default() -> (r: Self)
        ensures
            r.wf(),
            r@ == Seq::<T>::empty(),
            r.cap() == 0,
    {
        NonLocalArrayCount {
            allocation: AllocationCount::<S, T>::default(),
            count: Count::<S>::min_value(),
        }
    }
}

impl<S: SignedPrimitive, T> Array<T> for NonLocalArrayCount<S, T> {
    open spec fn arr_wf(&self) -> bool {
        self.wf()
    }

    fn len(&self) -> (n: usize) {
        self.allocation.len()
    }

    /// Looking for `fn add(t)` or `fn append(t)`?  use
    /// `insert(OrderedInsert::AtEnd(t))`.
    fn insert(&mut self, insert: OrderedInsert<T>) -> (r: Containered) {
        match insert {
            OrderedInsert::AtEnd(t) => {
                proof {
                    self.lemma_wf();
                }
                self.insert_at_end(t)
            },
        }
    }

    /// Looking for `fn add_all(ts)` or `fn append_all(ts)`?  use
    /// `insert_few(OrderedInsertFew::AtEnd(ts, TypeMarker, TypeMarker))`.
    fn insert_few<E, F: Few<T, Error = E>>(&mut self, insert: OrderedInsertFew<T, E, F>) -> (r:
        Containered) {
        match insert {
            OrderedInsertFew::AtEnd(f, ..) => self.insert_few_at_end(f),
        }
    }
}

impl<S: SignedPrimitive, T> GetCount<S> for NonLocalArrayCount<S, T> {
    fn count(&self) -> Count<S> {
        self.count
    }
}

impl<S: SignedPrimitive, T: core::default::Default> NonLocalArrayCount<S, T> {
    /// Pops down to `new_count`, or grows to it by appending default
    /// values, resizing the capacity once if needed.
    #[verifier::loop_isolation(false)]
    pub fn set_count(&mut self, new_count: Count<S>) -> (r: Containered)
        requires
            old(self).wf(),
            !new_count.is_null_spec(),
        ensures
            final(self).wf(),
            r is Ok,
            final(self)@.len() == new_count.value(),
            new_count.value() <= old(self)@.len() ==> final(self)@ == old(self)@.take(
                new_count.value(),
            ) && final(self).cap() == old(self).cap(),
            new_count.value() > old(self)@.len() ==> (forall|j: int|
                0 <= j < old(self)@.len() ==> final(self)@[j] == old(self)@[j]) && (forall|j: int|
                old(self)@.len() <= j < new_count.value() ==> call_ensures(
                    T::default,
                    (),
                    #[trigger] final(self)@[j],
                )) && final(self).cap() == (if new_count.value() <= old(self).cap() {
                old(self).cap()
            } else {
                new_count.value()
            }),
    {
        proof {
            self.lemma_wf();
            new_count.lemma_count_in_range();
            S::lemma_range_shape();
        }
        if new_count < self.count {
            while self.count > new_count
                invariant
                    self.wf(),
                    self.cap() == old(self).cap(),
                    new_count.value() <= self@.len() <= old(self)@.len(),
                    self@ == old(self)@.take(self@.len() as int),
                decreases self@.len(),
            {
                proof {
                    self.lemma_wf();
                }
                let _ = self.remove(OrderedRemove::Last);
                proof {
                    assert(self@ =~= old(self)@.take(self@.len() as int));
                }
            }
        } else if new_count > self.count {
            if new_count > self.capacity() {
                let resized = self.set_capacity(new_count);
                proof {
                    assert(resized is Ok);
                    assert(self@ =~= old(self)@);
                }
            }
            while self.count < new_count
                invariant
                    self.wf(),
                    old(self)@.len() <= self@.len() <= new_count.value(),
                    new_count.value() <= self.cap(),
                    self.cap() == (if new_count.value() <= old(self).cap() {
                        old(self).cap()
                    } else {
                        new_count.value()
                    }),
                    !new_count.is_null_spec(),
                    forall|j: int| 0 <= j < old(self)@.len() ==> self@[j] == old(self)@[j],
                    forall|j: int|
                        old(self)@.len() <= j < self@.len() ==> call_ensures(
                            T::default,
                            (),
                            #[trigger] self@[j],
                        ),
                decreases new_count.value() - self@.len(),
            {
                proof {
                    self.lemma_wf();
                    new_count.lemma_count_in_range();
                }
                let inserted = self.insert_at_end(T::default());
                proof {
                    assert(inserted is Ok);
                }
            }
        }
        Ok(())
    }
}

impl<S: SignedPrimitive, T: core::default::Default> SetCount<S> for NonLocalArrayCount<S, T> {
    type Error = ContainerError;

    open spec fn set_count_req(&self, new_count: Count<S>) -> bool {
        self.wf() && !new_count.is_null_spec()
    }

    fn set_count(&mut self, new_count: Count<S>) -> (r: Containered) {
        NonLocalArrayCount::set_count(self, new_count)
    }
}

impl<S: SignedPrimitive, T: TryClone> TryClone for NonLocalArrayCount<S, T> {
    type Error = ContainerError;

    open spec fn try_clone_req(&self) -> bool {
        self.wf() && forall|i: int| 0 <= i < self@.len() ==> self@[i].try_clone_req()
    }

    open spec fn clone_can_fail(&self) -> bool {
        exists|i: int| 0 <= i < self@.len() && self@[i].clone_can_fail()
    }

    open spec fn clone_matches(&self, other: &Self) -> bool {
        &&& other.wf()
        &&& other@.len() == self@.len()
        &&& other.cap() == self@.len()
        &&& forall|i: int| 0 <= i < self@.len() ==> self@[i].clone_matches(#[trigger] &other@[i])
    }

    fn try_clone(&self) -> (r: Result<Self, ContainerError>) {
        self.try_clone_elements()
    }
}

impl<S: SignedPrimitive, T: PartialEq> PartialEq for NonLocalArrayCount<S, T> {
    #[verifier::loop_isolation(false)]
    fn eq(&self, other: &Self) -> (r: bool) {
        let n = self.allocation.len();
        if n != other.allocation.len() {
            return false;
        }
        let mut i: usize = 0;
        while i < n
            invariant
                n as int == self@.len(),
                self@.len() == other@.len(),
                0 <= i <= n,
                <T as PartialEqSpec>::obeys_eq_spec() ==> forall|j: int|
                    0 <= j < i ==> self@[j].eq_spec(#[trigger] &other@[j]),
            decreases n - i,
        {
            if !(*self.allocation.at(i) == *other.allocation.at(i)) {
                return false;
            }
            i = i + 1;
        }
        true
    }
}

impl<S: SignedPrimitive, T: PartialEq> vstd::std_specs::cmp::PartialEqSpecImpl for NonLocalArrayCount<S, T> {
    open spec fn obeys_eq_spec() -> bool {
        <T as PartialEqSpec>::obeys_eq_spec()
    }

    open spec fn eq_spec(&self, other: &Self) -> bool {
        self@.len() == other@.len() && forall|j: int|
            0 <= j < self@.len() ==> self@[j].eq_spec(#[trigger] &other@[j])
    }
}

} // verus!
