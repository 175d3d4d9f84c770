use compact_arrays::array::{Array, OrderedInsert, OrderedInsertFew, OrderedRemove};
use compact_arrays::count::Count64;
use compact_arrays::maybe_local_array::{
    MaybeLocalArrayOptimized16, MaybeLocalArrayOptimized32, MaybeLocalArrayOptimized64,
    MaybeLocalArrayOptimized8, Memory,
};
use compact_arrays::traits::{TryClone, TypeMarker};

fn count_of(value: usize) -> Count64 {
    Count64::of(value).expect("ok")
}

#[test]
fn insert_and_remove_unallocated_buffer() {
    let mut array = MaybeLocalArrayOptimized64::<16, u8>::default();
    assert_eq!(array.capacity(), count_of(16));
    assert_eq!(array.memory(), Memory::UnallocatedBuffer);
    array.set_capacity(count_of(3)).expect("small alloc");
    assert_eq!(array.capacity(), count_of(16));
    assert_eq!(array.memory(), Memory::UnallocatedBuffer);
    assert_eq!(array.count(), count_of(0));
    array
        .insert(OrderedInsert::AtEnd(1))
        .expect("already allocked");
    array
        .insert(OrderedInsert::AtEnd(2))
        .expect("already allocked");
    array
        .insert(OrderedInsert::AtEnd(3))
        .expect("already allocked");
    assert_eq!(array.count(), count_of(3));
    array
        .insert_few(OrderedInsertFew::AtEnd(vec![4, 5, 6], TypeMarker, TypeMarker))
        .expect("ok");
    assert_eq!(array.count(), count_of(6));
    assert_eq!(array.remove(OrderedRemove::Last), Some(6));
    assert_eq!(array.remove(OrderedRemove::Last), Some(5));
    assert_eq!(array.remove(OrderedRemove::Last), Some(4));
    assert_eq!(array.remove(OrderedRemove::Last), Some(3));
    assert_eq!(array.remove(OrderedRemove::Last), Some(2));
    assert_eq!(array.remove(OrderedRemove::Last), Some(1));
    assert_eq!(array.count(), count_of(0));
    assert_eq!(array.capacity(), count_of(16));
    assert_eq!(array.memory(), Memory::UnallocatedBuffer);
}

#[test]
fn insert_and_remove_optimized_allocation() {
    let mut array = MaybeLocalArrayOptimized32::<8, u8>::default();
    assert_eq!(array.capacity(), count_of(8));
    assert_eq!(array.memory(), Memory::UnallocatedBuffer);
    array.set_capacity(count_of(100)).expect("small alloc");
    assert_eq!(array.capacity(), count_of(100));
    assert_eq!(array.memory(), Memory::OptimizedAllocation);
    assert_eq!(array.count(), count_of(0));
    for i in 0..95 {
        array
            .insert(OrderedInsert::AtEnd(i as u8))
            .expect("already allocked");
    }
    array
        .insert_few(OrderedInsertFew::AtEnd(
            vec![95, 96, 97, 98, 99],
            TypeMarker,
            TypeMarker,
        ))
        .expect("ok");
    assert_eq!(array.count(), count_of(100));
    assert_eq!(array.capacity(), count_of(100));
    for j in 0..100 {
        let i = 99 - j;
        assert_eq!(array.remove(OrderedRemove::Last), Some(i as u8));
        assert_eq!(array.count(), count_of(i));
    }
    assert_eq!(array.capacity(), count_of(100));
    assert_eq!(array.memory(), Memory::OptimizedAllocation);
}

#[test]
fn insert_and_remove_max_array() {
    let mut array = MaybeLocalArrayOptimized8::<17, u8>::default();
    assert_eq!(array.capacity(), count_of(17));
    assert_eq!(array.memory(), Memory::UnallocatedBuffer);
    array.set_capacity(count_of(200)).expect("small alloc");
    assert_eq!(array.capacity(), count_of(200));
    assert_eq!(array.memory(), Memory::MaxArray);
    assert_eq!(array.count(), count_of(0));
    for i in 0..199 {
        array
            .insert(OrderedInsert::AtEnd(i as u8))
            .expect("already allocked");
    }
    array
        .insert_few(OrderedInsertFew::AtEnd(vec![199], TypeMarker, TypeMarker))
        .expect("ok");
    assert_eq!(array.count(), count_of(200));
    assert_eq!(array.capacity(), count_of(200));
    for j in 0..200 {
        let i = 199 - j;
        assert_eq!(array.remove(OrderedRemove::Last), Some(i as u8));
        assert_eq!(array.count(), count_of(i));
    }
    assert_eq!(array.capacity(), count_of(200));
    assert_eq!(array.memory(), Memory::MaxArray);
}

#[test]
fn set_capacity_truncating_unallocated_buffer() {
    let mut array = MaybeLocalArrayOptimized64::<13, u8>::default();
    for i in 0..7 {
        array
            .insert(OrderedInsert::AtEnd(19 + i as u8))
            .expect("already allocked");
    }
    assert_eq!(array.memory(), Memory::UnallocatedBuffer);
    assert_eq!(array.capacity(), count_of(13));
    assert_eq!(array.count(), count_of(7));

    array.set_capacity(count_of(5)).expect("ok");

    assert_eq!(array.memory(), Memory::UnallocatedBuffer);
    assert_eq!(array.count(), count_of(5));
    assert_eq!(array.capacity(), count_of(13));
    for i in 0..5 {
        assert_eq!(*array.at(i), 19 + i as u8);
    }
}

#[test]
fn set_capacity_expanding_unallocated_buffer() {
    let mut array = MaybeLocalArrayOptimized32::<13, u8>::default();
    for i in 0..8 {
        array
            .insert(OrderedInsert::AtEnd(29 + i as u8))
            .expect("already allocked");
    }
    assert_eq!(array.memory(), Memory::UnallocatedBuffer);
    assert_eq!(array.capacity(), count_of(13));
    assert_eq!(array.count(), count_of(8));

    array.set_capacity(count_of(13)).expect("ok");

    assert_eq!(array.memory(), Memory::UnallocatedBuffer);
    assert_eq!(array.capacity(), count_of(13));
    assert_eq!(array.count(), count_of(8));
    for i in 0..8 {
        assert_eq!(*array.at(i), 29 + i as u8);
    }
}

#[test]
fn set_capacity_expanding_unallocated_buffer_to_optimized_allocation() {
    let mut array = MaybeLocalArrayOptimized64::<13, u8>::default();
    for i in 0..13 {
        array
            .insert(OrderedInsert::AtEnd(200 + i as u8))
            .expect("already allocked");
    }
    assert_eq!(array.memory(), Memory::UnallocatedBuffer);
    assert_eq!(array.capacity(), count_of(13));
    assert_eq!(array.count(), count_of(13));

    array.set_capacity(count_of(28)).expect("ok");

    assert_eq!(array.memory(), Memory::OptimizedAllocation);
    assert_eq!(array.capacity(), count_of(28));
    assert_eq!(array.count(), count_of(13));
    for i in 0..13 {
        assert_eq!(*array.at(i), 200 + i as u8);
    }
}

#[test]
fn set_capacity_expanding_unallocated_buffer_to_max_array() {
    let mut array = MaybeLocalArrayOptimized8::<13, u8>::default();
    for i in 0..12 {
        array
            .insert(OrderedInsert::AtEnd(200 + i as u8))
            .expect("already allocked");
    }
    assert_eq!(array.memory(), Memory::UnallocatedBuffer);
    assert_eq!(array.capacity(), count_of(13));
    assert_eq!(array.count(), count_of(12));

    array.set_capacity(count_of(200)).expect("ok");

    assert_eq!(array.memory(), Memory::MaxArray);
    assert_eq!(array.capacity(), count_of(200));
    assert_eq!(array.count(), count_of(12));
    for i in 0..12 {
        assert_eq!(*array.at(i), 200 + i as u8);
    }
}

#[test]
fn set_capacity_truncating_optimized_allocation_to_unallocated_buffer() {
    let mut array = MaybeLocalArrayOptimized16::<10, u8>::default();
    array.set_capacity(count_of(50)).expect("small alloc");
    for i in 0..50 {
        array
            .insert(OrderedInsert::AtEnd(49 - i as u8))
            .expect("already allocked");
    }
    assert_eq!(array.memory(), Memory::OptimizedAllocation);
    assert_eq!(array.capacity(), count_of(50));
    assert_eq!(array.count(), count_of(50));

    array.set_capacity(count_of(10)).expect("ok");

    assert_eq!(array.memory(), Memory::UnallocatedBuffer);
    assert_eq!(array.capacity(), count_of(10));
    assert_eq!(array.count(), count_of(10));
    for i in 0..10 {
        assert_eq!(*array.at(i), 49 - i as u8);
    }
}

#[test]
fn set_capacity_truncating_optimized_allocation() {
    let mut array = MaybeLocalArrayOptimized16::<10, u8>::default();
    array.set_capacity(count_of(50)).expect("small alloc");
    for i in 0..50 {
        array
            .insert(OrderedInsert::AtEnd(49 - i as u8))
            .expect("already allocked");
    }
    assert_eq!(array.memory(), Memory::OptimizedAllocation);
    assert_eq!(array.capacity(), count_of(50));
    assert_eq!(array.count(), count_of(50));

    array.set_capacity(count_of(11)).expect("ok");

    assert_eq!(array.memory(), Memory::OptimizedAllocation);
    assert_eq!(array.capacity(), count_of(11));
    assert_eq!(array.count(), count_of(11));
    for i in 0..11 {
        assert_eq!(*array.at(i), 49 - i as u8);
    }
}

#[test]
fn set_capacity_expanding_optimized_allocation() {
    let mut array = MaybeLocalArrayOptimized16::<10, u8>::default();
    array.set_capacity(count_of(50)).expect("small alloc");
    for i in 0..50 {
        array
            .insert(OrderedInsert::AtEnd(49 - i as u8))
            .expect("already allocked");
    }
    assert_eq!(array.memory(), Memory::OptimizedAllocation);
    assert_eq!(array.capacity(), count_of(50));
    assert_eq!(array.count(), count_of(50));

    array.set_capacity(count_of(123)).expect("ok");

    assert_eq!(array.memory(), Memory::OptimizedAllocation);
    assert_eq!(array.capacity(), count_of(123));
    assert_eq!(array.count(), count_of(50));
    for i in 0..50 {
        assert_eq!(*array.at(i), 49 - i as u8);
    }
}

#[test]
fn set_capacity_expanding_optimized_allocation_to_max_array() {
    let mut array = MaybeLocalArrayOptimized8::<10, u8>::default();
    array.set_capacity(count_of(50)).expect("small alloc");
    for i in 0..50 {
        array
            .insert(OrderedInsert::AtEnd(49 - i as u8))
            .expect("already allocked");
    }
    assert_eq!(array.memory(), Memory::OptimizedAllocation);
    assert_eq!(array.capacity(), count_of(50));
    assert_eq!(array.count(), count_of(50));

    array.set_capacity(count_of(130)).expect("ok");

    assert_eq!(array.memory(), Memory::MaxArray);
    assert_eq!(array.capacity(), count_of(130));
    assert_eq!(array.count(), count_of(50));
    for i in 0..50 {
        assert_eq!(*array.at(i), 49 - i as u8);
    }
}

#[test]
fn set_capacity_truncating_max_array() {
    let mut array = MaybeLocalArrayOptimized8::<5, u8>::default();
    array.set_capacity(count_of(200)).expect("small alloc");
    for i in 0..200 {
        array
            .insert(OrderedInsert::AtEnd(3 + i as u8))
            .expect("already allocked");
    }
    assert_eq!(array.memory(), Memory::MaxArray);
    assert_eq!(array.capacity(), count_of(200));
    assert_eq!(array.count(), count_of(200));

    array.set_capacity(count_of(150)).expect("ok");

    assert_eq!(array.memory(), Memory::MaxArray);
    assert_eq!(array.capacity(), count_of(150));
    assert_eq!(array.count(), count_of(150));
    for i in 0..150 {
        assert_eq!(*array.at(i), 3 + i as u8);
    }
}

#[test]
fn set_capacity_expanding_max_array() {
    let mut array = MaybeLocalArrayOptimized8::<15, u8>::default();
    array.set_capacity(count_of(150)).expect("small alloc");
    for i in 0..150 {
        array
            .insert(OrderedInsert::AtEnd(8 + i as u8))
            .expect("already allocked");
    }
    assert_eq!(array.memory(), Memory::MaxArray);
    assert_eq!(array.capacity(), count_of(150));
    assert_eq!(array.count(), count_of(150));

    array.set_capacity(count_of(200)).expect("ok");

    assert_eq!(array.memory(), Memory::MaxArray);
    assert_eq!(array.capacity(), count_of(200));
    assert_eq!(array.count(), count_of(150));
    for i in 0..150 {
        assert_eq!(*array.at(i), 8 + i as u8);
    }
}

#[test]
fn set_capacity_truncating_big_max_array_to_unallocated_buffer() {
    let mut array = MaybeLocalArrayOptimized8::<5, u8>::default();
    array.set_capacity(count_of(192)).expect("small alloc");
    for i in 0..192 {
        array
            .insert(OrderedInsert::AtEnd(i as u8))
            .expect("already allocked");
    }
    assert_eq!(array.memory(), Memory::MaxArray);
    assert_eq!(array.capacity(), count_of(192));
    assert_eq!(array.count(), count_of(192));

    array.set_capacity(count_of(4)).expect("ok");

    assert_eq!(array.memory(), Memory::UnallocatedBuffer);
    assert_eq!(array.capacity(), count_of(5)); // set_capacity is semi-ignored...
    assert_eq!(array.count(), count_of(4)); // note count is less than capacity
    for i in 0..4 {
        assert_eq!(*array.at(i), i as u8);
    }
}

#[test]
fn set_capacity_truncating_small_max_array_to_unallocated_buffer() {
    let mut array = MaybeLocalArrayOptimized8::<6, u8>::default();
    array.set_capacity(count_of(192)).expect("small alloc");
    for i in 0..3 {
        array
            .insert(OrderedInsert::AtEnd(100 - i as u8))
            .expect("already allocked");
    }
    assert_eq!(array.memory(), Memory::MaxArray);
    assert_eq!(array.capacity(), count_of(192));
    assert_eq!(array.count(), count_of(3));

    array.set_capacity(count_of(2)).expect("ok");

    assert_eq!(array.memory(), Memory::UnallocatedBuffer);
    assert_eq!(array.capacity(), count_of(6)); // set_capacity is semi-ignored...
    assert_eq!(array.count(), count_of(2)); // note count is less than capacity
    for i in 0..2 {
        assert_eq!(*array.at(i), 100 - i as u8);
    }
}

#[test]
fn set_capacity_truncating_big_max_array_to_optimized_allocation() {
    let mut array = MaybeLocalArrayOptimized8::<10, u8>::default();
    array.set_capacity(count_of(150)).expect("small alloc");
    for i in 0..50 {
        array
            .insert(OrderedInsert::AtEnd(49 - i as u8))
            .expect("already allocked");
    }
    assert_eq!(array.memory(), Memory::MaxArray);
    assert_eq!(array.capacity(), count_of(150));
    assert_eq!(array.count(), count_of(50));

    array.set_capacity(count_of(11)).expect("ok");

    assert_eq!(array.memory(), Memory::OptimizedAllocation);
    assert_eq!(array.capacity(), count_of(11));
    assert_eq!(array.count(), count_of(11));
    for i in 0..11 {
        assert_eq!(*array.at(i), 49 - i as u8);
    }
}

#[test]
fn maybe_local_array_clone_adds_all_values() {
    let mut array = MaybeLocalArrayOptimized32::<4, u32>::default();
    array.set_capacity(count_of(5)).expect("ok");
    for value in [1, 100, 40, 771, 6] {
        array.insert(OrderedInsert::AtEnd(value)).expect("ok");
    }

    let clone = array.try_clone().expect("ok");
    assert_eq!(clone.count(), count_of(5));
    assert_eq!(clone.capacity(), count_of(5));
    assert!(array == clone);
    assert_eq!(*clone.at(1), 100);
    assert_eq!(*clone.at(2), 40);
    assert_eq!(*clone.at(3), 771);
}

#[test]
fn set_count_works_for_same_count() {
    let mut array = MaybeLocalArrayOptimized32::<4, u32>::default();
    array.set_count(count_of(4)).expect("ok");
    assert_eq!(array.count(), count_of(4));

    array.set_count(count_of(4)).expect("ok");
    assert_eq!(array.count(), count_of(4));

    array.insert(OrderedInsert::AtEnd(77)).expect("ok");
    assert_eq!(array.capacity(), count_of(8));

    array.set_count(count_of(5)).expect("ok");
    assert_eq!(array.count(), count_of(5));
    assert_eq!(array.capacity(), count_of(8)); // doesn't change this.
}

#[test]
fn set_count_works_to_expand_count() {
    let mut array = MaybeLocalArrayOptimized32::<4, u32>::default();
    array.set_count(count_of(10)).expect("ok");
    assert_eq!(array.count(), count_of(10));
    assert_eq!(array.capacity(), count_of(10));
    for i in 0..10 {
        assert_eq!(*array.at(i), 0); // filled with defaults
    }
}

#[test]
fn set_count_works_to_truncate_count() {
    let mut array = MaybeLocalArrayOptimized32::<4, u32>::default();
    array.set_capacity(count_of(10)).expect("ok");
    for i in 1..=10 {
        array.insert(OrderedInsert::AtEnd(i as u32)).expect("ok");
    }
    assert_eq!(array.count(), count_of(10));

    array.set_count(count_of(5)).expect("ok");
    assert_eq!(array.capacity(), count_of(10)); // doesn't change this.
    assert_eq!(array.count(), count_of(5));
    for i in 0..5 {
        assert_eq!(*array.at(i), 1 + i as u32);
    }
}

#[test]
fn small_buffer_scenario_counts_allocations() {
    // N_LOCAL = 4: four appends stay inline and allocation-free.
    let mut array = MaybeLocalArrayOptimized32::<4, u8>::default();
    array
        .insert_few(OrderedInsertFew::AtEnd(
            vec![1, 2, 3, 4],
            TypeMarker,
            TypeMarker,
        ))
        .expect("ok");
    assert_eq!(array.memory(), Memory::UnallocatedBuffer);
    assert_eq!(array.capacity(), count_of(4));
    assert_eq!(array.count(), count_of(4));
    assert_eq!(array.allocation_events(), 0);

    // The fifth append allocates exactly once and keeps order and values.
    array.insert(OrderedInsert::AtEnd(5)).expect("ok");
    assert_eq!(array.allocation_events(), 1);
    assert_eq!(array.as_slice(), &[1, 2, 3, 4, 5]);

    // Remove-last twice.
    assert_eq!(array.remove(OrderedRemove::Last), Some(5));
    assert_eq!(array.remove(OrderedRemove::Last), Some(4));
    assert_eq!(array.as_slice(), &[1, 2, 3]);
    assert_eq!(array.count(), count_of(3));
    assert_eq!(array.capacity(), count_of(8)); // unchanged by removal

    // Shrinking below N_LOCAL returns to inline storage, dropping `3`.
    array.set_capacity(count_of(2)).expect("ok");
    assert_eq!(array.as_slice(), &[1, 2]);
    assert_eq!(array.memory(), Memory::UnallocatedBuffer);
    assert_eq!(array.capacity(), count_of(4));
    assert_eq!(array.count(), count_of(2));
}

#[test]
fn set_capacity_at_current_capacity_does_not_allocate() {
    let mut array = MaybeLocalArrayOptimized16::<3, u8>::default();
    array.set_capacity(count_of(20)).expect("ok");
    array
        .insert_few(OrderedInsertFew::AtEnd(vec![9, 8, 7], TypeMarker, TypeMarker))
        .expect("ok");
    let events = array.allocation_events();

    // Same capacity again: zero allocation events, elements untouched.
    array.set_capacity(count_of(20)).expect("ok");
    assert_eq!(array.allocation_events(), events);
    assert_eq!(array.capacity(), count_of(20));
    assert_eq!(array.memory(), Memory::OptimizedAllocation);
    assert_eq!(array.as_slice(), &[9, 8, 7]);
}

#[test]
fn overflow_growth_preserves_order_and_values() {
    // A narrow width: growing past 128 moves to the overflow
    // representation with every element in place.
    let mut array = MaybeLocalArrayOptimized8::<4, u8>::default();
    for i in 0..129 {
        array.insert(OrderedInsert::AtEnd(i as u8)).expect("ok");
    }
    assert_eq!(array.memory(), Memory::MaxArray);
    assert_eq!(array.count(), count_of(129));
    for i in 0..129 {
        assert_eq!(*array.at(i), i as u8);
    }

    // Shrinking back down: overflow, compact heap, then inline, keeping
    // the surviving prefix each time.
    array.set_capacity(count_of(50)).expect("ok");
    assert_eq!(array.memory(), Memory::OptimizedAllocation);
    array.set_capacity(count_of(3)).expect("ok");
    assert_eq!(array.memory(), Memory::UnallocatedBuffer);
    assert_eq!(array.as_slice(), &[0, 1, 2]);
}
