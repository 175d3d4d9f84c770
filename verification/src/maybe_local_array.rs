//! The hybrid small-buffer-optimized array.
//!
//! `MaybeLocalArrayOptimized<S, N_LOCAL, T>` owns exactly one of three
//! storage representations: up to `N_LOCAL` elements inline (no heap
//! allocation), a compact heap allocation counted by the narrow width `S`,
//! or — when even `S` cannot represent the count — an overflow array
//! counted by the platform width.  Every operation preserves the element
//! values and their order across representation changes, and an
//! allocation-event counter records each heap allocation or reallocation
//! made on the array's behalf.

use vstd::prelude::*;

use crate::allocation::AllocationCount;
use crate::array::{Array, OrderedInsert, OrderedInsertFew, OrderedRemove};
use crate::container::{ContainerError, ContainerResult, Containered};
use crate::count::{count_limit, Count, CountMax};
use crate::offset::Offset;
use crate::non_local_array::{grown_capacity, NonLocalArrayMax};
use crate::signed::SignedPrimitive;
use crate::traits::{Few, GetCount, SetCount, TryClone};
use vstd::std_specs::cmp::PartialEqSpec;

verus! {

broadcast use crate::count::lemma_count_norm;

pub type MaybeLocalArrayOptimized64<const N_LOCAL: usize, T> = MaybeLocalArrayOptimized<
    i64,
    N_LOCAL,
    T,
>;

pub type MaybeLocalArrayOptimized32<const N_LOCAL: usize, T> = MaybeLocalArrayOptimized<
    i32,
    N_LOCAL,
    T,
>;

pub type MaybeLocalArrayOptimized16<const N_LOCAL: usize, T> = MaybeLocalArrayOptimized<
    i16,
    N_LOCAL,
    T,
>;

pub type MaybeLocalArrayOptimized8<const N_LOCAL: usize, T> = MaybeLocalArrayOptimized<
    i8,
    N_LOCAL,
    T,
>;

/// Which of the three storage representations is live.
#[derive(Eq, PartialEq, Structural, Copy, Clone, Debug, Hash)]
pub enum Memory {
    UnallocatedBuffer,
    OptimizedAllocation,
    MaxArray,
}

/// The one live storage representation; the other two do not exist.
enum MaybeAllocated<S: SignedPrimitive, T> {
    /// Elements stored directly in the structure.
    UnallocatedBuffer(Vec<T>),
    /// One compact heap allocation, counted by `S`.
    OptimizedAllocation(AllocationCount<S, T>),
    /// The overflow representation: a heap-boxed platform-width array.
    MaxArray(Box<NonLocalArrayMax<T>>),
}

/// Array storing up to `N_LOCAL` elements locally before allocating,
/// optimized for counts `S` can represent but able to hold more through
/// the overflow representation.
pub struct MaybeLocalArrayOptimized<S: SignedPrimitive, const N_LOCAL: usize, T> {
    maybe_allocated: MaybeAllocated<S, T>,
    /// How many heap allocations or reallocations this array has made.
    alloc_events: u64,
}

impl<S: SignedPrimitive, const N_LOCAL: usize, T> View for MaybeLocalArrayOptimized<
    S,
    N_LOCAL,
    T,
> {
    type V = Seq<T>;

    closed spec fn view(&self) -> Seq<T> {
        match self.maybe_allocated {
            MaybeAllocated::UnallocatedBuffer(v) => v@,
            MaybeAllocated::OptimizedAllocation(a) => a@,
            MaybeAllocated::MaxArray(b) => b@,
        }
    }
}

impl<S: SignedPrimitive, const N_LOCAL: usize, T> MaybeLocalArrayOptimized<S, N_LOCAL, T> {
    /// The number of slots the live representation backs.
    pub closed spec fn cap(&self) -> int {
        match self.maybe_allocated {
            MaybeAllocated::UnallocatedBuffer(_) => N_LOCAL as int,
            MaybeAllocated::OptimizedAllocation(a) => a.cap(),
            MaybeAllocated::MaxArray(b) => b.cap(),
        }
    }

    /// Which representation is live.
    pub closed spec fn memory_spec(&self) -> Memory {
        match self.maybe_allocated {
            MaybeAllocated::UnallocatedBuffer(_) => Memory::UnallocatedBuffer,
            MaybeAllocated::OptimizedAllocation(_) => Memory::OptimizedAllocation,
            MaybeAllocated::MaxArray(_) => Memory::MaxArray,
        }
    }

    /// The heap allocations and reallocations made so far.
    pub closed spec fn events(&self) -> int {
        self.alloc_events as int
    }

    /// One more allocation event, saturating at the counter's maximum.
    pub open spec fn bumped(e: int) -> int {
        if e < u64::MAX as int {
            e + 1
        } else {
            e
        }
    }

    /// The representation required for a given count: inline while
    /// `N_LOCAL` suffices, compact heap while `S` can represent the
    /// count, overflow past that.
    pub open spec fn required_memory_spec(for_count: int) -> Memory {
        if for_count <= N_LOCAL as int {
            Memory::UnallocatedBuffer
        } else if for_count <= count_limit::<S>() {
            Memory::OptimizedAllocation
        } else {
            Memory::MaxArray
        }
    }

    /// The live representation matches its invariant, the reported
    /// capacity matches the live representation, and the width `S` can
    /// represent `N_LOCAL + 2` (what encoding the inline discriminant
    /// takes, and so what the original layout demands of `S`).
    pub closed spec fn wf(&self) -> bool {
        &&& N_LOCAL as int + 2 <= S::max_int()
        &&& match self.maybe_allocated {
            MaybeAllocated::UnallocatedBuffer(v) => v@.len() <= N_LOCAL as int,
            MaybeAllocated::OptimizedAllocation(a) => a.wf() && a.cap() > N_LOCAL as int,
            MaybeAllocated::MaxArray(b) => b.wf() && b.cap() > count_limit::<S>(),
        }
    }

    /// Bounds that follow from well-formedness.
    pub proof fn lemma_wf(&self)
        requires
            self.wf(),
        ensures
            0 <= self@.len() <= self.cap() <= count_limit::<i64>(),
            self@.len() <= usize::MAX as int,
            N_LOCAL as int + 2 <= S::max_int(),
            (N_LOCAL as int) < count_limit::<S>() <= count_limit::<i64>(),
            self.memory_spec() == Memory::UnallocatedBuffer ==> self.cap() == N_LOCAL as int,
            self.memory_spec() == Memory::OptimizedAllocation ==> ((N_LOCAL as int) < self.cap()
                <= count_limit::<S>()),
            self.memory_spec() == Memory::MaxArray ==> self.cap() > count_limit::<S>(),
    {
        broadcast use vstd::std_specs::vec::axiom_spec_len;

        S::lemma_range_shape();
        <i64 as SignedPrimitive>::lemma_range_shape();
        match self.maybe_allocated {
            MaybeAllocated::UnallocatedBuffer(v) => {
                assert(vstd::std_specs::vec::spec_vec_len(&v) == v@.len());
            },
            MaybeAllocated::OptimizedAllocation(a) => {
                a.lemma_cap_in_range();
            },
            MaybeAllocated::MaxArray(b) => {
                b.lemma_wf();
            },
        }
    }

    /// Which representation is live.
    pub fn memory(&self) -> (r: Memory)
        ensures
            r == self.memory_spec(),
    {
        match &self.maybe_allocated {
            MaybeAllocated::UnallocatedBuffer(_) => Memory::UnallocatedBuffer,
            MaybeAllocated::OptimizedAllocation(_) => Memory::OptimizedAllocation,
            MaybeAllocated::MaxArray(_) => Memory::MaxArray,
        }
    }

    /// The heap allocations and reallocations made so far.
    pub fn allocation_events(&self) -> (r: u64)
        ensures
            r as int == self.events(),
    {
        self.alloc_events
    }

    /// The representation required for the given count.
    pub fn required_memory(for_count: CountMax) -> (r: Memory)
        requires
            !for_count.is_null_spec(),
        ensures
            r == Self::required_memory_spec(for_count.value()),
    {
        proof {
            for_count.lemma_count_in_range();
            S::lemma_range_shape();
        }
        let value = match for_count.to_u64() {
            Some(v) => v,
            None => {
                proof {
                    assert(false);
                }
                0
            },
        };
        if value <= N_LOCAL as u64 {
            Memory::UnallocatedBuffer
        } else if value <= S::magnitude_limit_u64() {
            Memory::OptimizedAllocation
        } else {
            Memory::MaxArray
        }
    }

    pub fn capacity(&self) -> (r: CountMax)
        requires
            self.wf(),
        ensures
            !r.is_null_spec(),
            r.value() == self.cap(),
    {
        proof {
            self.lemma_wf();
        }
        match &self.maybe_allocated {
            MaybeAllocated::UnallocatedBuffer(_) => {
                match CountMax::of(N_LOCAL) {
                    Ok(c) => c,
                    Err(_) => {
                        proof {
                            assert(false);
                        }
                        CountMax::min_value()
                    },
                }
            },
            MaybeAllocated::OptimizedAllocation(a) => a.capacity().to_max(),
            MaybeAllocated::MaxArray(b) => b.capacity(),
        }
    }

    /// A shared view of the element at `i`.
    pub fn at(&self, i: usize) -> (r: &T)
        requires
            i < self@.len(),
        ensures
            *r == self@[i as int],
    {
        match &self.maybe_allocated {
            MaybeAllocated::UnallocatedBuffer(v) => &v[i],
            MaybeAllocated::OptimizedAllocation(a) => a.at(i),
            MaybeAllocated::MaxArray(b) => b.at(i),
        }
    }

    /// The live elements as a slice, whichever representation holds them.
    pub fn as_slice(&self) -> (r: &[T])
        ensures
            r@ == self@,
    {
        match &self.maybe_allocated {
            MaybeAllocated::UnallocatedBuffer(v) => v.as_slice(),
            MaybeAllocated::OptimizedAllocation(a) => a.as_slice(),
            MaybeAllocated::MaxArray(b) => b.as_slice(),
        }
    }

    /// Overwrites the element at `i`, dropping its old value.
    pub fn set_at(&mut self, i: usize, value: T)
        requires
            old(self).wf(),
            i < old(self)@.len(),
        ensures
            final(self).wf(),
            final(self)@ == old(self)@.update(i as int, value),
            final(self).cap() == old(self).cap(),
            final(self).memory_spec() == old(self).memory_spec(),
            final(self).events() == old(self).events(),
    {
        match &mut self.maybe_allocated {
            MaybeAllocated::UnallocatedBuffer(v) => {
                vstd::pervasive::VecAdditionalExecFns::set(v, i, value);
            },
            MaybeAllocated::OptimizedAllocation(a) => {
                a.set_at(i, value);
            },
            MaybeAllocated::MaxArray(b) => {
                b.set_at(i, value);
            },
        }
    }

    /// Whether a `set_capacity` to effective capacity `e` touches the
    /// allocator: never while staying inline or keeping the same backed
    /// capacity, one allocation or reallocation otherwise.
    pub open spec fn set_capacity_allocates(self, e: int) -> bool {
        let required = Self::required_memory_spec(e);
        if required == self.memory_spec() {
            required != Memory::UnallocatedBuffer && e != self.cap()
        } else {
            required != Memory::UnallocatedBuffer
        }
    }

    /// Trims live elements beyond the request (one destruction each), then
    /// installs the representation the new capacity requires, relocating
    /// the surviving elements in order.  A null request means zero.  If
    /// the request needs no more than `N_LOCAL` slots the array goes
    /// inline and the capacity stays `N_LOCAL`.
    #[verifier::loop_isolation(false)]
    pub fn set_capacity(&mut self, new_capacity: CountMax) -> (r: Containered)
        requires
            old(self).wf(),
        ensures
            final(self).wf(),
            r is Ok,
            ({
                let e = if new_capacity.internal() > 0 {
                    0
                } else {
                    new_capacity.value()
                };
                let kept = if old(self)@.len() <= e {
                    old(self)@.len() as int
                } else {
                    e
                };
                &&& final(self)@ == old(self)@.take(kept)
                &&& final(self).cap() == (if e <= N_LOCAL as int {
                    N_LOCAL as int
                } else {
                    e
                })
                &&& final(self).memory_spec() == Self::required_memory_spec(e)
                &&& final(self).events() == (if old(self).set_capacity_allocates(e) {
                    Self::bumped(old(self).events())
                } else {
                    old(self).events()
                })
            }),
    {
        proof {
            self.lemma_wf();
            new_capacity.lemma_count_in_range();
            S::lemma_range_shape();
        }
        let new_capacity = if new_capacity.is_null() {
            CountMax::min_value()
        } else {
            new_capacity
        };
        let ghost e: int = new_capacity.value();
        let ghost kept: int = if old(self)@.len() <= e {
            old(self)@.len() as int
        } else {
            e
        };
        // First trim any elements beyond the new capacity.
        while self.count() > new_capacity
            invariant
                self.wf(),
                self.cap() == old(self).cap(),
                self.memory_spec() == old(self).memory_spec(),
                self.events() == old(self).events(),
                kept <= self@.len() <= old(self)@.len(),
                self@ == old(self)@.take(self@.len() as int),
            decreases self@.len(),
        {
            proof {
                self.lemma_wf();
            }
            let removed = self.remove_last();
            proof {
                assert(removed is Some);
                assert(self@ =~= old(self)@.take(self@.len() as int));
            }
        }
        proof {
            self.lemma_wf();
            assert(self@.len() == kept);
        }
        let required_memory = Self::required_memory(new_capacity);
        let mut repr = MaybeAllocated::UnallocatedBuffer(Vec::new());
        core::mem::swap(&mut repr, &mut self.maybe_allocated);
        match repr {
            MaybeAllocated::UnallocatedBuffer(v) => {
                match required_memory {
                    Memory::UnallocatedBuffer => {
                        // Already inline: nothing to allocate or free.
                        self.maybe_allocated = MaybeAllocated::UnallocatedBuffer(v);
                    },
                    Memory::OptimizedAllocation => {
                        if self.alloc_events < u64::MAX {
                            self.alloc_events = self.alloc_events + 1;
                        }
                        self.maybe_allocated = MaybeAllocated::OptimizedAllocation(
                            AllocationCount::from_parts(v, Count::<S>::of_max(new_capacity)),
                        );
                    },
                    Memory::MaxArray => {
                        if self.alloc_events < u64::MAX {
                            self.alloc_events = self.alloc_events + 1;
                        }
                        self.maybe_allocated = MaybeAllocated::MaxArray(
                            Box::new(NonLocalArrayMax::from_parts(v, new_capacity)),
                        );
                    },
                }
            },
            MaybeAllocated::OptimizedAllocation(mut a) => {
                match required_memory {
                    Memory::UnallocatedBuffer => {
                        // Copy out before the old backing memory is freed.
                        let data = a.take_elements();
                        self.maybe_allocated = MaybeAllocated::UnallocatedBuffer(data);
                    },
                    Memory::OptimizedAllocation => {
                        let narrowed = Count::<S>::of_max(new_capacity);
                        if !(a.capacity() == narrowed) {
                            if self.alloc_events < u64::MAX {
                                self.alloc_events = self.alloc_events + 1;
                            }
                        }
                        let resized = a.set_capacity(narrowed);
                        proof {
                            assert(resized is Ok);
                        }
                        self.maybe_allocated = MaybeAllocated::OptimizedAllocation(a);
                    },
                    Memory::MaxArray => {
                        if self.alloc_events < u64::MAX {
                            self.alloc_events = self.alloc_events + 1;
                        }
                        let data = a.take_elements();
                        self.maybe_allocated = MaybeAllocated::MaxArray(
                            Box::new(NonLocalArrayMax::from_parts(data, new_capacity)),
                        );
                    },
                }
            },
            MaybeAllocated::MaxArray(mut b) => {
                match required_memory {
                    Memory::UnallocatedBuffer => {
                        // Zero the old count before the old array is
                        // dropped, so nothing is destroyed twice.
                        let data = b.take_elements();
                        self.maybe_allocated = MaybeAllocated::UnallocatedBuffer(data);
                    },
                    Memory::OptimizedAllocation => {
                        if self.alloc_events < u64::MAX {
                            self.alloc_events = self.alloc_events + 1;
                        }
                        let data = b.take_elements();
                        self.maybe_allocated = MaybeAllocated::OptimizedAllocation(
                            AllocationCount::from_parts(data, Count::<S>::of_max(new_capacity)),
                        );
                    },
                    Memory::MaxArray => {
                        if !(b.capacity() == new_capacity) {
                            if self.alloc_events < u64::MAX {
                                self.alloc_events = self.alloc_events + 1;
                            }
                        }
                        let resized = b.set_capacity(new_capacity);
                        proof {
                            assert(resized is Ok);
                        }
                        self.maybe_allocated = MaybeAllocated::MaxArray(b);
                    },
                }
            },
        }
        proof {
            assert(final(self)@ =~= old(self)@.take(kept));
        }
        Ok(())
    }

    pub fn count(&self) -> (r: CountMax)
        requires
            self.wf(),
        ensures
            !r.is_null_spec(),
            r.value() == self@.len(),
    {
        proof {
            self.lemma_wf();
        }
        let n = match &self.maybe_allocated {
            MaybeAllocated::UnallocatedBuffer(v) => v.len(),
            MaybeAllocated::OptimizedAllocation(a) => a.len(),
            MaybeAllocated::MaxArray(b) => {
                return b.count();
            },
        };
        match CountMax::of(n) {
            Ok(c) => c,
            Err(_) => {
                proof {
                    assert(false);
                }
                CountMax::min_value()
            },
        }
    }

    pub fn remove(&mut self, remove: OrderedRemove) -> (r: Option<T>)
        requires
            old(self).wf(),
        ensures
            final(self).wf(),
            final(self).cap() == old(self).cap(),
            final(self).memory_spec() == old(self).memory_spec(),
            final(self).events() == old(self).events(),
            old(self)@.len() == 0 ==> r is None && final(self)@ == old(self)@,
            old(self)@.len() > 0 ==> (r matches Some(v) && v == old(self)@.last() && final(self)@
                == old(self)@.drop_last()),
    {
        match remove {
            OrderedRemove::Last => self.remove_last(),
        }
    }

    pub(crate) fn remove_last(&mut self) -> (r: Option<T>)
        requires
            old(self).wf(),
        ensures
            final(self).wf(),
            final(self).cap() == old(self).cap(),
            final(self).memory_spec() == old(self).memory_spec(),
            final(self).events() == old(self).events(),
            old(self)@.len() == 0 ==> r is None && final(self)@ == old(self)@,
            old(self)@.len() > 0 ==> (r matches Some(v) && v == old(self)@.last() && final(self)@
                == old(self)@.drop_last()),
    {
        proof {
            self.lemma_wf();
            S::lemma_range_shape();
        }
        match &mut self.maybe_allocated {
            MaybeAllocated::UnallocatedBuffer(v) => v.pop(),
            MaybeAllocated::OptimizedAllocation(a) => {
                let n = a.len();
                if n == 0 {
                    return None;
                }
                proof {
                    a.lemma_cap_in_range();
                }
                let offset = Offset::<S>::of(
                    S::magnitude_of_usize(n - 1).negated(),
                );
                match a.read_destructively(offset) {
                    Ok(v) => Some(v),
                    Err(_) => {
                        proof {
                            assert(false);
                        }
                        None
                    },
                }
            },
            MaybeAllocated::MaxArray(b) => b.remove_last(),
        }
    }

    pub(crate) fn insert_at_end(&mut self, value: T) -> (r: Containered)
        requires
            old(self).wf(),
        ensures
            final(self).wf(),
            old(self)@.len() == count_limit::<i64>() ==> r == Containered::Err(
                ContainerError::OutOfMemory,
            ) && final(self)@ == old(self)@ && final(self).cap() == old(self).cap() && final(self).events() == old(self).events(),
            old(self)@.len() < count_limit::<i64>() ==> r is Ok && final(self)@ == old(self)@.push(value) && ({
                &&& old(self)@.len() < old(self).cap() ==> final(self).cap() == old(self).cap()
                    && final(self).memory_spec() == old(self).memory_spec() && final(self).events()
                    == old(self).events()
                &&& old(self)@.len() == old(self).cap() ==> final(self).events() == Self::bumped(
                    old(self).events(),
                ) && final(self).cap() == (if 2 * old(self).cap() >= count_limit::<i64>() {
                    count_limit::<i64>()
                } else if old(self)@.len() + 1 >= 2 * old(self).cap() {
                    old(self)@.len() + 1int
                } else {
                    2 * old(self).cap()
                }) && final(self).memory_spec() == Self::required_memory_spec(final(self).cap())
            }),
    {
        proof {
            self.lemma_wf();
            <i64 as SignedPrimitive>::lemma_range_shape();
        }
        let previous_capacity = self.capacity();
        let previous_count = self.count();
        let new_count = previous_count + 1i64;
        if new_count.is_null() {
            return ContainerError::OutOfMemory.err();
        }
        if new_count > previous_capacity {
            let grown = self.grow_to_at_least(new_count);
            if grown.is_err() {
                proof {
                    assert(false);
                }
                return ContainerError::OutOfMemory.err();
            }
        }
        self.append_with_required_capacity_ready(new_count, value);
        Ok(())
    }

    /// Writes `value` into the live representation's next slot; the
    /// capacity must already suffice.
    fn append_with_required_capacity_ready(&mut self, new_count: CountMax, value: T)
        requires
            old(self).wf(),
            !new_count.is_null_spec(),
            new_count.value() == old(self)@.len() + 1,
            new_count.value() <= old(self).cap(),
        ensures
            final(self).wf(),
            final(self)@ == old(self)@.push(value),
            final(self).cap() == old(self).cap(),
            final(self).memory_spec() == old(self).memory_spec(),
            final(self).events() == old(self).events(),
    {
        proof {
            self.lemma_wf();
            S::lemma_range_shape();
            new_count.lemma_count_in_range();
        }
        match &mut self.maybe_allocated {
            MaybeAllocated::UnallocatedBuffer(v) => {
                v.push(value);
            },
            MaybeAllocated::OptimizedAllocation(a) => {
                proof {
                    a.lemma_cap_in_range();
                }
                let n = a.len();
                let offset = Offset::<S>::of(S::magnitude_of_usize(n).negated());
                let written = a.write_initializing(offset, value);
                proof {
                    assert(written is Ok);
                }
            },
            MaybeAllocated::MaxArray(b) => {
                proof {
                    b.lemma_wf();
                }
                let inner_count = b.count() + 1i64;
                b.append_with_required_capacity_ready(inner_count, value);
            },
        }
    }

    /// Doubles the capacity, but at least to `required_capacity`.  Fails
    /// with `OutOfMemory` exactly when the capacity is already the
    /// platform maximum.
    pub(crate) fn grow_to_at_least(&mut self, required_capacity: CountMax) -> (r: Containered)
        requires
            old(self).wf(),
            !required_capacity.is_null_spec(),
            required_capacity.value() >= 1,
        ensures
            final(self).wf(),
            final(self)@ == old(self)@,
            old(self).cap() == count_limit::<i64>() ==> r == Containered::Err(
                ContainerError::OutOfMemory,
            ) && final(self).cap() == old(self).cap() && final(self).events() == old(self).events(),
            old(self).cap() < count_limit::<i64>() ==> r is Ok && final(self).cap() == (if 2 * old(self).cap() >= count_limit::<i64>() {
                count_limit::<i64>()
            } else if required_capacity.value() >= 2 * old(self).cap() {
                required_capacity.value()
            } else {
                2 * old(self).cap()
            }) && final(self).memory_spec() == Self::required_memory_spec(final(self).cap()) && (
            required_capacity.value() > old(self).cap() ==> final(self).events() == Self::bumped(
                old(self).events(),
            )),
    {
        proof {
            self.lemma_wf();
            required_capacity.lemma_count_in_range();
            <i64 as SignedPrimitive>::lemma_range_shape();
        }
        let desired_capacity = match self.capacity().double_or_at_least(required_capacity) {
            Ok(c) => c,
            Err(_) => {
                return ContainerError::OutOfMemory.err();
            },
        };
        let result = self.set_capacity(desired_capacity);
        proof {
            assert(final(self)@ =~= old(self)@);
        }
        result
    }
}

impl<S: SignedPrimitive, const N_LOCAL: usize, T> Default for MaybeLocalArrayOptimized<
    S,
    N_LOCAL,
    T,
> {
    /// Created empty and inline, with no allocation made.  Well-formed
    /// whenever the width can hold `N_LOCAL + 2`.
    fn default() -> (r: Self)
        ensures
            N_LOCAL as int + 2 <= S::max_int() ==> r.wf(),
            r@ == Seq::<T>::empty(),
            r.cap() == N_LOCAL as int,
            r.memory_spec() == Memory::UnallocatedBuffer,
            r.events() == 0,
    {
        MaybeLocalArrayOptimized {
            maybe_allocated: MaybeAllocated::UnallocatedBuffer(Vec::new()),
            alloc_events: 0,
        }
    }
}

impl<S: SignedPrimitive, const N_LOCAL: usize, T> MaybeLocalArrayOptimized<S, N_LOCAL, T> {
    /// The number of live elements, whether or not the array is
    /// well-formed.
    fn raw_len(&self) -> (n: usize)
        ensures
            n as int == self@.len(),
    {
        match &self.maybe_allocated {
            MaybeAllocated::UnallocatedBuffer(v) => v.len(),
            MaybeAllocated::OptimizedAllocation(a) => a.len(),
            MaybeAllocated::MaxArray(b) => b.raw_len(),
        }
    }

    #[verifier::loop_isolation(false)]
    #[verifier::rlimit(100)]
    pub(crate) fn insert_few_at_end<E, Values: Few<T, Error = E>>(&mut self, values: Values) -> (r:
        Containered)
        requires
            old(self).wf(),
        ensures
            final(self).wf(),
            !values.can_fail() && old(self)@.len() + values.few().len() <= count_limit::<i64>() ==> r is Ok,
            r is Ok ==> final(self)@ == old(self)@ + values.few(),
            r is Ok ==> final(self).cap() == grown_capacity::<i64>(
                old(self).cap(),
                old(self)@.len() + values.few().len() as int,
            ),
            r is Ok ==> final(self).memory_spec() == (if old(self)@.len() + values.few().len()
                <= old(self).cap() {
                old(self).memory_spec()
            } else {
                Self::required_memory_spec(final(self).cap())
            }),
            r is Ok ==> final(self).events() == (if old(self)@.len() + values.few().len() <= old(
                self,
            ).cap() {
                old(self).events()
            } else {
                Self::bumped(old(self).events())
            }),
            r is Err ==> exists|k: int|
                0 <= k <= values.few().len() && final(self)@ == old(self)@ + values.few().take(k),
            r is Err ==> final(self).cap() == old(self).cap() || final(self).cap()
                == grown_capacity::<i64>(
                old(self).cap(),
                old(self)@.len() + values.few().len() as int,
            ),
            r is Err ==> old(self).events() <= final(self).events() <= Self::bumped(
                old(self).events(),
            ),
    {
        proof {
            self.lemma_wf();
            <i64 as SignedPrimitive>::lemma_range_shape();
        }
        let mut vals = values;
        let previous_capacity = self.capacity();
        let previous_count = self.count();
        let batch = match CountMax::of(vals.size()) {
            Ok(c) => c,
            Err(_) => {
                proof {
                    assert(final(self)@ =~= old(self)@ + values.few().take(0));
                }
                return ContainerError::OutOfMemory.err();
            },
        };
        let new_count = previous_count + batch;
        if new_count.is_null() {
            proof {
                assert(final(self)@ =~= old(self)@ + values.few().take(0));
            }
            return ContainerError::OutOfMemory.err();
        }
        if new_count > previous_capacity {
            if self.grow_to_at_least(new_count).is_err() {
                proof {
                    assert(false);
                }
                return ContainerError::OutOfMemory.err();
            }
        }
        let ghost events_ready: int = self.events();
        let ghost cap_ready: int = self.cap();
        let ghost memory_ready: Memory = self.memory_spec();
        proof {
            assert(events_ready == (if old(self)@.len() + values.few().len() <= old(self).cap() {
                old(self).events()
            } else {
                Self::bumped(old(self).events())
            }));
            assert(cap_ready == grown_capacity::<i64>(
                old(self).cap(),
                old(self)@.len() + values.few().len() as int,
            ));
            assert(memory_ready == (if old(self)@.len() + values.few().len() <= old(self).cap() {
                old(self).memory_spec()
            } else {
                Self::required_memory_spec(cap_ready)
            }));
        }
        let total = vals.size();
        let mut i: usize = 0;
        let mut intermediate_count = previous_count;
        while i < total
            invariant
                self.wf(),
                total as int == values.few().len(),
                vals.few() == values.few().skip(i as int),
                vals.can_fail() ==> values.can_fail(),
                0 <= i <= total,
                self@ == old(self)@ + values.few().take(i as int),
                self@.len() + (total - i) <= cap_ready,
                self.cap() == cap_ready,
                self.memory_spec() == memory_ready,
                self.events() == events_ready,
                !intermediate_count.is_null_spec(),
                intermediate_count.value() == self@.len(),
            decreases total - i,
        {
            proof {
                self.lemma_wf();
                intermediate_count.lemma_count_in_range();
            }
            intermediate_count = intermediate_count + 1i64;
            let value = match vals.nab() {
                Ok(v) => v,
                Err(_) => {
                    proof {
                        assert(self@ =~= old(self)@ + values.few().take(i as int));
                    }
                    return ContainerError::Unknown.err();
                },
            };
            self.append_with_required_capacity_ready(intermediate_count, value);
            i = i + 1;
            proof {
                assert(values.few().take(i as int) =~= values.few().take(i as int - 1).push(
                    values.few()[i as int - 1],
                ));
                assert(self@ =~= old(self)@ + values.few().take(i as int));
            }
        }
        proof {
            assert(values.few().take(total as int) =~= values.few());
        }
        Ok(())
    }

    /// Deep-copies the live elements into a fresh array whose capacity is
    /// set to exactly the current count (never over-provisioned, though an
    /// inline clone still holds its `N_LOCAL` slots); surfaces the first
    /// clone failure.
    #[verifier::loop_isolation(false)]
    pub fn try_clone_elements(&self) -> (r: ContainerResult<Self>) where T: TryClone
        requires
            self.wf(),
            forall|i: int| 0 <= i < self@.len() ==> (#[trigger] self@[i]).try_clone_req(),
        ensures
            (forall|i: int|
                0 <= i < self@.len() ==> !(#[trigger] self@[i]).clone_can_fail()) ==> r is Ok,
            r matches Ok(c) ==> c.wf() && c@.len() == self@.len() && c.cap() == (if self@.len()
                <= N_LOCAL as int {
                N_LOCAL as int
            } else {
                self@.len() as int
            }) && (forall|i: int|
                0 <= i < self@.len() ==> self@[i].clone_matches(#[trigger] &c@[i])),
    {
        proof {
            self.lemma_wf();
        }
        let mut result = Self::default();
        // Only need to clone up to `count`, not the full `capacity`.
        let count = self.count();
        let copied = result.set_capacity(count);
        proof {
            assert(copied is Ok);
        }
        let total = self.raw_len();
        let mut i: usize = 0;
        while i < total
            invariant
                result.wf(),
                total as int == self@.len(),
                0 <= i <= total,
                result@.len() == i,
                result.cap() == (if self@.len() <= N_LOCAL as int {
                    N_LOCAL as int
                } else {
                    self@.len() as int
                }),
                forall|j: int| 0 <= j < i ==> self@[j].clone_matches(#[trigger] &result@[j]),
            decreases total - i,
        {
            proof {
                result.lemma_wf();
            }
            let clone = match self.at(i).try_clone() {
                Ok(c) => c,
                Err(_) => {
                    return Err(ContainerError::Unknown);
                },
            };
            let inserted = result.insert_at_end(clone);
            proof {
                assert(inserted is Ok);
            }
            i = i + 1;
        }
        Ok(result)
    }
}

impl<S: SignedPrimitive, const N_LOCAL: usize, T> Array<T> for MaybeLocalArrayOptimized<
    S,
    N_LOCAL,
    T,
> {
    open spec fn arr_wf(&self) -> bool {
        self.wf()
    }

    fn len(&self) -> (n: usize) {
        self.raw_len()
    }

    /// Looking for `fn add(t)` or `fn append(t)`?  use
    /// `insert(OrderedInsert::AtEnd(t))`.
    fn insert(&mut self, insert: OrderedInsert<T>) -> (r: Containered) {
        match insert {
            OrderedInsert::AtEnd(t) => {
                proof {
                    self.lemma_wf();
                }
                self.insert_at_end(t)
            },
        }
    }

    /// Looking for `fn add_all(ts)` or `fn append_all(ts)`?  use
    /// `insert_few(OrderedInsertFew::AtEnd(ts, TypeMarker, TypeMarker))`.
    fn insert_few<E, F: Few<T, Error = E>>(&mut self, insert: OrderedInsertFew<T, E, F>) -> (r:
        Containered) {
        match insert {
            OrderedInsertFew::AtEnd(f, ..) => self.insert_few_at_end(f),
        }
    }
}

impl<S: SignedPrimitive, const N_LOCAL: usize, T> GetCount<i64> for MaybeLocalArrayOptimized<
    S,
    N_LOCAL,
    T,
> {
    fn count(&self) -> CountMax {
        let n = match &self.maybe_allocated {
            MaybeAllocated::UnallocatedBuffer(v) => v.len(),
            MaybeAllocated::OptimizedAllocation(a) => a.len(),
            MaybeAllocated::MaxArray(b) => {
                return GetCount::count(&**b);
            },
        };
        match CountMax::of(n) {
            Ok(c) => c,
            Err(_) => CountMax::null(),
        }
    }
}

impl<S: SignedPrimitive, const N_LOCAL: usize, T: core::default::Default> MaybeLocalArrayOptimized<
    S,
    N_LOCAL,
    T,
> {
    /// Pops down to `new_count`, or grows to it by appending default
    /// values, resizing the capacity once if needed.
    #[verifier::loop_isolation(false)]
    pub fn set_count(&mut self, new_count: CountMax) -> (r: Containered)
        requires
            old(self).wf(),
            !new_count.is_null_spec(),
        ensures
            final(self).wf(),
            r is Ok,
            final(self)@.len() == new_count.value(),
            new_count.value() <= old(self)@.len() ==> final(self)@ == old(self)@.take(
                new_count.value(),
            ) && final(self).cap() == old(self).cap() && final(self).events() == old(self).events(),
            new_count.value() > old(self)@.len() ==> (forall|j: int|
                0 <= j < old(self)@.len() ==> final(self)@[j] == old(self)@[j]) && (forall|j: int|
                old(self)@.len() <= j < new_count.value() ==> call_ensures(
                    T::default,
                    (),
                    #[trigger] final(self)@[j],
                )) && final(self).cap() == (if new_count.value() <= old(self).cap() {
                old(self).cap()
            } else {
                new_count.value()
            }) && final(self).events() == (if new_count.value() <= old(self).cap() {
                old(self).events()
            } else {
                Self::bumped(old(self).events())
            }),
    {
        proof {
            self.lemma_wf();
            new_count.lemma_count_in_range();
        }
        if new_count < self.count() {
            while self.count() > new_count
                invariant
                    self.wf(),
                    self.cap() == old(self).cap(),
                    self.events() == old(self).events(),
                    new_count.value() <= self@.len() <= old(self)@.len(),
                    self@ == old(self)@.take(self@.len() as int),
                decreases self@.len(),
            {
                proof {
                    self.lemma_wf();
                }
                let _ = self.remove(OrderedRemove::Last);
                proof {
                    assert(self@ =~= old(self)@.take(self@.len() as int));
                }
            }
        } else if new_count > self.count() {
            if new_count > self.capacity() {
                let resized = self.set_capacity(new_count);
                proof {
                    assert(resized is Ok);
                    assert(self@ =~= old(self)@);
                }
            }
            while self.count() < new_count
                invariant
                    self.wf(),
                    old(self)@.len() <= self@.len() <= new_count.value(),
                    new_count.value() <= self.cap(),
                    self.cap() == (if new_count.value() <= old(self).cap() {
                        old(self).cap()
                    } else {
                        new_count.value()
                    }),
                    self.events() == (if new_count.value() <= old(self).cap() {
                        old(self).events()
                    } else {
                        Self::bumped(old(self).events())
                    }),
                    forall|j: int| 0 <= j < old(self)@.len() ==> self@[j] == old(self)@[j],
                    forall|j: int|
                        old(self)@.len() <= j < self@.len() ==> call_ensures(
                            T::default,
                            (),
                            #[trigger] self@[j],
                        ),
                decreases new_count.value() - self@.len(),
            {
                proof {
                    self.lemma_wf();
                    new_count.lemma_count_in_range();
                }
                let inserted = self.insert_at_end(T::default());
                proof {
                    assert(inserted is Ok);
                }
            }
        }
        Ok(())
    }
}

impl<S: SignedPrimitive, const N_LOCAL: usize, T: core::default::Default> SetCount<i64> for MaybeLocalArrayOptimized<
    S,
    N_LOCAL,
    T,
> {
    type Error = ContainerError;

    open spec fn set_count_req(&self, new_count: CountMax) -> bool {
        self.wf() && !new_count.is_null_spec()
    }

    fn set_count(&mut self, new_count: CountMax) -> (r: Containered) {
        MaybeLocalArrayOptimized::set_count(self, new_count)
    }
}

impl<S: SignedPrimitive, const N_LOCAL: usize, T: TryClone> TryClone for MaybeLocalArrayOptimized<
    S,
    N_LOCAL,
    T,
> {
    type Error = ContainerError;

    open spec fn try_clone_req(&self) -> bool {
        self.wf() && forall|i: int| 0 <= i < self@.len() ==> self@[i].try_clone_req()
    }

    open spec fn clone_can_fail(&self) -> bool {
        exists|i: int| 0 <= i < self@.len() && self@[i].clone_can_fail()
    }

    open spec fn clone_matches(&self, other: &Self) -> bool {
        &&& other.wf()
        &&& other@.len() == self@.len()
        &&& other.cap() == (if self@.len() <= N_LOCAL as int {
            N_LOCAL as int
        } else {
            self@.len() as int
        })
        &&& forall|i: int| 0 <= i < self@.len() ==> self@[i].clone_matches(#[trigger] &other@[i])
    }

    fn try_clone(&self) -> (r: Result<Self, ContainerError>) {
        self.try_clone_elements()
    }
}

impl<S: SignedPrimitive, const N_LOCAL: usize, T: PartialEq> PartialEq for MaybeLocalArrayOptimized<
    S,
    N_LOCAL,
    T,
> {
    #[verifier::loop_isolation(false)]
    fn eq(&self, other: &Self) -> (r: bool) {
        let n = self.raw_len();
        if n != other.raw_len() {
            return false;
        }
        let mut i: usize = 0;
        while i < n
            invariant
                n as int == self@.len(),
                self@.len() == other@.len(),
                0 <= i <= n,
                <T as PartialEqSpec>::obeys_eq_spec() ==> forall|j: int|
                    0 <= j < i ==> self@[j].eq_spec(#[trigger] &other@[j]),
            decreases n - i,
        {
            if !(*self.at(i) == *other.at(i)) {
                return false;
            }
            i = i + 1;
        }
        true
    }
}

impl<S: SignedPrimitive, const N_LOCAL: usize, T: PartialEq> vstd::std_specs::cmp::PartialEqSpecImpl for MaybeLocalArrayOptimized<
    S,
    N_LOCAL,
    T,
> {
    open spec fn obeys_eq_spec() -> bool {
        <T as PartialEqSpec>::obeys_eq_spec()
    }

    open spec fn eq_spec(&self, other: &Self) -> bool {
        self@.len() == other@.len() && forall|j: int|
            0 <= j < self@.len() ==> self@[j].eq_spec(#[trigger] &other@[j])
    }
}

impl<S: SignedPrimitive, const N_LOCAL: usize, T> MaybeLocalArrayOptimized<S, N_LOCAL, T> {
    /// With `N_LOCAL = k`: while the array is inline, its capacity is the
    /// `k` inline slots, so by the `ensures` of `insert_at_end`, inserting
    /// up to `k` elements never allocates, and the insert that takes the
    /// count past `k` allocates exactly once.
    pub proof fn lemma_small_buffer_inserts(self)
        requires
            self.wf(),
            self.memory_spec() == Memory::UnallocatedBuffer,
        ensures
            self.cap() == N_LOCAL as int,
            self@.len() < N_LOCAL as int ==> self@.len() < self.cap(),
            self@.len() == N_LOCAL as int ==> self@.len() == self.cap(),
    {
        self.lemma_wf();
    }

    /// Setting the capacity to the value it already has allocates nothing
    /// and keeps the live representation: by the `ensures` of
    /// `set_capacity`, the elements and the allocation-event counter are
    /// left exactly as they were.
    pub proof fn lemma_set_capacity_idempotent(self)
        requires
            self.wf(),
        ensures
            !self.set_capacity_allocates(self.cap()),
            Self::required_memory_spec(self.cap()) == self.memory_spec(),
            self@.take(self@.len() as int) == self@,
    {
        self.lemma_wf();
        assert(self@.take(self@.len() as int) =~= self@);
    }
}

} // verus!
