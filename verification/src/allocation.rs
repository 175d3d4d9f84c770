//! The capacity-tracking allocation primitive under the arrays.
//!
//! `AllocationCount` owns up to the width's maximum count of contiguous `T` slots.
//! Slots are filled strictly in order (a placement write at the end of the
//! initialized prefix) and vacated from the end (a destructive read of the
//! last initialized slot); the capacity only says how many slots are
//! backed.  Shrinking the capacity below the initialized prefix is the
//! caller's responsibility to prevent, by disposing of elements first.

use vstd::prelude::*;

use vstd::arithmetic::div_mod::{
    lemma_div_is_ordered,
    lemma_div_is_ordered_by_denominator,
    lemma_div_pos_is_pos,
    lemma_fundamental_div_mod,
    lemma_fundamental_div_mod_converse,
    lemma_hoist_over_denominator,
    lemma_mod_division_less_than_divisor,
};
use vstd::arithmetic::mul::lemma_mul_strictly_positive;
use vstd::pervasive::VecAdditionalExecFns;

use crate::container::{ContainerError, ContainerResult, Containered};
use crate::count::{count_limit, Contains, Count};
use crate::number::{NumberError, NumberResult};
use crate::offset::Offset;
use crate::signed::SignedPrimitive;

verus! {

pub type AllocationCount64<T> = AllocationCount<i64, T>;

pub type AllocationCount32<T> = AllocationCount<i32, T>;

pub type AllocationCount16<T> = AllocationCount<i16, T>;

pub type AllocationCount8<T> = AllocationCount<i8, T>;

/// The number of elements a fresh allocation starts with, by element size:
/// roughly 24 to 32 bytes of payload for tiny elements, smoothly shrinking
/// to a floor of one element as the element size grows.
pub open spec fn starting_allocation(t_bytes: int) -> int {
    let multiplier = if t_bytes / 16 >= 7 {
        1
    } else {
        8 - t_bytes / 16
    };
    let total_bytes = 24 + t_bytes * multiplier;
    let full_words_bytes = (total_bytes / 8) * 8;
    if full_words_bytes / t_bytes >= 1 {
        full_words_bytes / t_bytes
    } else {
        1
    }
}

/// For elements of at least 112 bytes the starting allocation is one
/// element.
proof fn lemma_starting_allocation_large(t_bytes: int)
    requires
        t_bytes >= 112,
    ensures
        starting_allocation(t_bytes) == 1,
{
    lemma_div_is_ordered(112, t_bytes, 16);
    let total = 24 + t_bytes;
    let fw = (total / 8) * 8;
    lemma_fundamental_div_mod(total, 8);
    lemma_mod_division_less_than_divisor(total, 8);
    assert(fw == total - total % 8);
    assert(t_bytes <= fw < 2 * t_bytes);
    lemma_fundamental_div_mod_converse(fw, t_bytes, 1, fw - t_bytes);
}

/// The starting allocation is between one element and 32 elements.
pub proof fn lemma_starting_allocation_bounds(t_bytes: int)
    requires
        t_bytes >= 1,
    ensures
        1 <= starting_allocation(t_bytes) <= 32,
{
    if t_bytes < 112 {
        let q = t_bytes / 16;
        lemma_div_pos_is_pos(t_bytes, 16);
        lemma_div_is_ordered(t_bytes, 111, 16);
        assert(111int / 16 == 6);
        let multiplier = 8 - q;
        let total = 24 + t_bytes * multiplier;
        lemma_mul_strictly_positive(t_bytes, multiplier);
        let fw = (total / 8) * 8;
        lemma_fundamental_div_mod(total, 8);
        lemma_mod_division_less_than_divisor(total, 8);
        assert(fw <= total);
        lemma_div_pos_is_pos(fw, t_bytes);
        lemma_div_is_ordered(fw, total, t_bytes);
        // total / t_bytes == multiplier + 24 / t_bytes
        lemma_hoist_over_denominator(24, multiplier, t_bytes as nat);
        if t_bytes >= 2 {
            lemma_div_is_ordered_by_denominator(24, 2, t_bytes);
            assert(24int / 2 == 12);
        } else {
            assert(24int / 1 == 24);
        }
    } else {
        lemma_starting_allocation_large(t_bytes);
    }
}

/// The capacity `grow` aims for: the element-size-aware seed on a fresh
/// allocation, otherwise doubling, saturating at the width's maximum.
pub open spec fn grow_target<S: SignedPrimitive>(cap: int, t_bytes: int) -> int {
    if cap == 0 {
        starting_allocation(t_bytes)
    } else if 2 * cap >= count_limit::<S>() {
        count_limit::<S>()
    } else {
        2 * cap
    }
}

/// Exclusive owner of zero-or-more contiguous `T` slots, filled in order
/// up to a capacity of at most the width's maximum count.
pub struct AllocationCount<S: SignedPrimitive, T> {
    /// The initialized prefix, oldest first.
    pub(crate) data: Vec<T>,
    /// How many slots are backed; at least `data.len()`.
    pub(crate) capacity: Count<S>,
}

impl<S: SignedPrimitive, T> View for AllocationCount<S, T> {
    type V = Seq<T>;

    closed spec fn view(&self) -> Seq<T> {
        self.data@
    }
}

impl<S: SignedPrimitive, T> AllocationCount<S, T> {
    /// The number of backed slots.
    pub closed spec fn cap(&self) -> int {
        self.capacity.value()
    }

    /// The capacity is a real magnitude and covers the initialized prefix.
    pub open spec fn wf(&self) -> bool {
        &&& 0 <= self.cap()
        &&& self@.len() <= self.cap()
    }

    /// The capacity never exceeds the width's maximum count, and the
    /// initialized prefix has a machine-length.
    pub proof fn lemma_cap_in_range(&self)
        requires
            self.wf(),
        ensures
            0 <= self.cap() <= count_limit::<S>(),
            self@.len() <= usize::MAX as int,
    {
        broadcast use vstd::std_specs::vec::axiom_spec_len;

        self.capacity.lemma_count_in_range();
        assert(vstd::std_specs::vec::spec_vec_len(&self.data) == self.data@.len());
    }

    pub fn capacity(&self) -> (r: Count<S>)
        requires
            self.wf(),
        ensures
            !r.is_null_spec(),
            r.value() == self.cap(),
    {
        self.capacity
    }

    /// Caller MUST have disposed of any elements above the new capacity
    /// already.  The capacity becomes exactly the request, or zero for a
    /// non-positive request; the initialized prefix is untouched.
    pub fn set_capacity(&mut self, new_capacity: Count<S>) -> (r: Containered)
        requires
            old(self).wf(),
            old(self)@.len() <= (if new_capacity.internal() < 0 {
                new_capacity.value()
            } else {
                0
            }),
        ensures
            final(self).wf(),
            final(self)@ == old(self)@,
            final(self).cap() == (if new_capacity.internal() < 0 {
                new_capacity.value()
            } else {
                0
            }),
            r is Ok,
    {
        if !new_capacity.is_positive() {
            self.capacity = Count::min_value();
        } else {
            self.capacity = new_capacity;
        }
        Ok(())
    }

    /// Writes `value` into the uninitialized slot at `offset`; rejects an
    /// offset outside the backed slots.  Slots are filled strictly in
    /// order: nothing tracks per-slot initialization, so the one offset at
    /// which a placement write is admitted is the end of the initialized
    /// prefix.
    pub fn write_initializing(&mut self, offset: Offset<S>, value: T) -> (r: Containered)
        requires
            old(self).wf(),
            0 <= offset.as_int() < old(self).cap() ==> offset.as_int() == old(self)@.len(),
        ensures
            final(self).wf(),
            final(self).cap() == old(self).cap(),
            0 <= offset.as_int() < old(self).cap() ==> r is Ok && final(self)@ == old(
                self,
            )@.push(value),
            !(0 <= offset.as_int() < old(self).cap()) ==> r == Containered::Err(
                ContainerError::InvalidAt,
            ) && final(self)@ == old(self)@,
    {
        let capacity = self.capacity;
        if !capacity.contains(Contains::Offset(offset)) {
            return ContainerError::InvalidAt.err();
        }
        self.data.push(value);
        Ok(())
    }

    /// Reads the slot at `offset` by value; from now on that slot is
    /// uninitialized again.  Rejects an offset outside the backed slots.
    /// Slots are vacated strictly from the end: the one offset at which a
    /// destructive read is admitted is the last initialized slot.
    pub fn read_destructively(&mut self, offset: Offset<S>) -> (r: ContainerResult<T>)
        requires
            old(self).wf(),
            0 <= offset.as_int() < old(self).cap() ==> offset.as_int() == old(self)@.len() - 1,
        ensures
            final(self).wf(),
            final(self).cap() == old(self).cap(),
            0 <= offset.as_int() < old(self).cap() ==> (r matches Ok(v) && v == old(self)@.last()
                && final(self)@ == old(self)@.drop_last()),
            !(0 <= offset.as_int() < old(self).cap()) ==> (r matches Err(e) && e
                == ContainerError::InvalidAt && final(self)@ == old(self)@),
    {
        let capacity = self.capacity;
        if !capacity.contains(Contains::<S>::Offset(offset)) {
            return Err(ContainerError::InvalidAt);
        }
        Ok(self.data.pop().unwrap())
    }

    /// The length of the initialized prefix.
    pub fn len(&self) -> (n: usize)
        ensures
            n as int == self@.len(),
    {
        self.data.len()
    }

    /// A shared view of the initialized slot at `i`.
    pub fn at(&self, i: usize) -> (r: &T)
        requires
            i < self@.len(),
        ensures
            *r == self@[i as int],
    {
        &self.data[i]
    }

    /// The initialized prefix as a slice.
    pub fn as_slice(&self) -> (r: &[T])
        ensures
            r@ == self@,
    {
        self.data.as_slice()
    }

    /// Overwrites the initialized slot at `i`, dropping its old value.
    pub fn set_at(&mut self, i: usize, value: T)
        requires
            i < old(self)@.len(),
        ensures
            final(self)@ == old(self)@.update(i as int, value),
            final(self).cap() == old(self).cap(),
    {
        self.data.set(i, value);
    }

    /// Moves the initialized prefix out, leaving the slots uninitialized;
    /// the capacity stays backed.
    pub(crate) fn take_elements(&mut self) -> (r: Vec<T>)
        ensures
            r@ == old(self)@,
            final(self)@ == Seq::<T>::empty(),
            final(self).cap() == old(self).cap(),
    {
        let mut taken: Vec<T> = Vec::new();
        core::mem::swap(&mut taken, &mut self.data);
        taken
    }

    /// Builds an allocation holding exactly `data` with the given capacity.
    pub(crate) fn from_parts(data: Vec<T>, capacity: Count<S>) -> (r: Self)
        requires
            capacity.internal() <= 0,
            data@.len() <= capacity.value(),
        ensures
            r.wf(),
            r@ == data@,
            r.cap() == capacity.value(),
    {
        AllocationCount { data, capacity }
    }

    /// Grows to the target of `grow_target`: the element-size-aware seed
    /// for a fresh allocation, otherwise roughly doubling.  Fails with
    /// `OutOfMemory` exactly when the capacity is already the width's
    /// maximum.  The seed divides by the element size, so zero-sized
    /// element types are excluded up front.
    pub fn grow(&mut self) -> (r: Containered)
        requires
            old(self).wf(),
            vstd::layout::size_of::<T>() >= 1,
        ensures
            final(self).wf(),
            final(self)@ == old(self)@,
            old(self).cap() == count_limit::<S>() ==> r == Containered::Err(
                ContainerError::OutOfMemory,
            ) && final(self).cap() == old(self).cap(),
            old(self).cap() < count_limit::<S>() ==> r is Ok && final(self).cap() == grow_target::<
                S,
            >(old(self).cap(), vstd::layout::size_of::<T>() as int),
    {
        proof {
            self.lemma_cap_in_range();
        }
        let desired_capacity = match Self::roughly_double_capacity(self.capacity()) {
            Ok(c) => c,
            Err(_) => {
                return ContainerError::OutOfMemory.err();
            },
        };
        self.set_capacity(desired_capacity)
    }

    /// The capacity `grow` aims for.  On a fresh (zero-capacity)
    /// allocation the seed depends on the element size (so zero-sized
    /// element types are excluded up front); otherwise the capacity
    /// doubles, saturating at the width's maximum, and fails only when it
    /// is already there.
    pub fn roughly_double_capacity(capacity: Count<S>) -> (r: NumberResult<Count<S>>)
        requires
            !capacity.is_null_spec(),
            vstd::layout::size_of::<T>() >= 1,
        ensures
            capacity.value() == count_limit::<S>() ==> r == NumberResult::<Count<S>>::Err(
                NumberError::Unrepresentable,
            ),
            capacity.value() < count_limit::<S>() ==> (r matches Ok(c) && !c.is_null_spec()
                && c.value() == grow_target::<S>(
                capacity.value(),
                vstd::layout::size_of::<T>() as int,
            )),
    {
        proof {
            capacity.lemma_count_in_range();
            S::lemma_range_shape();
        }
        if capacity.is_positive() {
            // If someone has purposely done `set_capacity(1)`, then we
            // won't do any fancy logic here.
            let one = match Count::<S>::of(1) {
                Ok(c) => c,
                Err(e) => {
                    return Err(e);
                },
            };
            capacity.double_or_at_least(one)
        } else {
            // When starting out, we allocate more for smaller (in size) T.
            // This interpolates from 32 elements down to 1 over a large
            // range of element sizes.
            let t_bytes: usize = core::mem::size_of::<T>();
            let seed: usize = if t_bytes >= 112 {
                proof {
                    lemma_starting_allocation_large(t_bytes as int);
                }
                1
            } else {
                let q = t_bytes / 16;
                let multiplier = if q >= 7 {
                    1
                } else {
                    8 - q
                };
                proof {
                    assert(t_bytes * multiplier <= 888) by (nonlinear_arith)
                        requires
                            0 <= t_bytes < 112,
                            0 <= multiplier <= 8,
                    ;
                }
                let total_bytes = 24 + t_bytes * multiplier;
                let full_words_bytes = (total_bytes / 8) * 8;
                let s = full_words_bytes / t_bytes;
                if s >= 1 {
                    s
                } else {
                    1
                }
            };
            proof {
                lemma_starting_allocation_bounds(t_bytes as int);
            }
            let at_least = match Count::<S>::of(seed) {
                Ok(c) => c,
                Err(e) => {
                    return Err(e);
                },
            };
            capacity.double_or_at_least(at_least)
        }
    }
}

impl<S: SignedPrimitive, T> Default for AllocationCount<S, T> {
    /// Created empty: no backed slots, nothing initialized.
    fn default() -> (r: Self)
        ensures
            r.wf(),
            r@ == Seq::<T>::empty(),
            r.cap() == 0,
    {
        AllocationCount { data: Vec::new(), capacity: Count::min_value() }
    }
}

} // verus!
