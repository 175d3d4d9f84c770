use compact_arrays::allocation::{
    AllocationCount16, AllocationCount32, AllocationCount64, AllocationCount8,
};
use compact_arrays::container::ContainerError;
use compact_arrays::count::{Count16, Count32, Count64, Count8};
use compact_arrays::number::NumberError;
use compact_arrays::offset::{Offset16, Offset8};

#[test]
fn can_deref_an_empty_allocation() {
    let allocation = AllocationCount64::<u64>::default();
    let slice = allocation.as_slice();
    assert_eq!(slice.len(), 0);
}

#[test]
fn can_deref_mut_an_empty_allocation() {
    let mut allocation = AllocationCount32::<u8>::default();
    allocation.set_capacity(Count32::default()).expect("ok");
    let slice = allocation.as_slice();
    assert_eq!(slice.len(), 0);
}

#[test]
fn allocation_deref() {
    let mut allocation = AllocationCount16::<u8>::default();
    allocation
        .set_capacity(Count16::of(13).expect("ok"))
        .expect("small alloc");
    for (i, b) in "hello, world!".as_bytes().iter().enumerate() {
        allocation
            .write_initializing(Offset16::of(i as i16), *b)
            .expect("ok");
    }
    assert_eq!(allocation.as_slice(), "hello, world!".as_bytes());
}

#[test]
fn allocation_rejects_out_of_bounds_writes() {
    let mut allocation = AllocationCount8::<u8>::default();
    allocation
        .set_capacity(Count8::of(2).expect("ok"))
        .expect("ok");
    assert_eq!(
        allocation.write_initializing(Offset8::of(5), 7),
        Err(ContainerError::InvalidAt)
    );
    assert_eq!(
        allocation.write_initializing(Offset8::of(-1), 7),
        Err(ContainerError::InvalidAt)
    );
    assert_eq!(allocation.write_initializing(Offset8::of(0), 7), Ok(()));
    assert_eq!(allocation.read_destructively(Offset8::of(3)), Err(ContainerError::InvalidAt));
    assert_eq!(allocation.read_destructively(Offset8::of(0)), Ok(7));
}

#[test]
fn roughly_double_capacity() {
    assert_eq!(
        AllocationCount16::<u8>::roughly_double_capacity(Count16::default()),
        Ok(Count16::negating(-32))
    );
    assert_eq!(
        AllocationCount8::<u16>::roughly_double_capacity(Count8::default()),
        Ok(Count8::negating(-20))
    );
    assert_eq!(
        AllocationCount16::<[u8; 3]>::roughly_double_capacity(Count16::default()),
        Ok(Count16::negating(-16))
    );
    assert_eq!(
        AllocationCount64::<u32>::roughly_double_capacity(Count64::default()),
        Ok(Count64::negating(-14))
    );
    assert_eq!(
        AllocationCount16::<[u8; 5]>::roughly_double_capacity(Count16::default()),
        Ok(Count16::negating(-12))
    );
    assert_eq!(
        AllocationCount16::<[u8; 6]>::roughly_double_capacity(Count16::default()),
        Ok(Count16::negating(-12))
    );
    assert_eq!(
        AllocationCount16::<[u8; 7]>::roughly_double_capacity(Count16::default()),
        Ok(Count16::negating(-11))
    );
    assert_eq!(
        AllocationCount32::<i64>::roughly_double_capacity(Count32::default()),
        Ok(Count32::negating(-11))
    );
    assert_eq!(
        AllocationCount8::<i128>::roughly_double_capacity(Count8::default()),
        Ok(Count8::negating(-8))
    );
    assert_eq!(
        AllocationCount16::<[u8; 32]>::roughly_double_capacity(Count16::default()),
        Ok(Count16::negating(-6))
    );
    assert_eq!(
        AllocationCount32::<[u8; 64]>::roughly_double_capacity(Count32::default()),
        Ok(Count32::negating(-4))
    );
    assert_eq!(
        AllocationCount64::<[u8; 96]>::roughly_double_capacity(Count64::default()),
        Ok(Count64::negating(-2))
    );
    assert_eq!(
        AllocationCount8::<[u8; 128]>::roughly_double_capacity(Count8::default()),
        Ok(Count8::negating(-1))
    );
    assert_eq!(
        AllocationCount16::<[u8; 2048]>::roughly_double_capacity(Count16::default()),
        Ok(Count16::negating(-1))
    );
    assert_eq!(
        AllocationCount32::<[u8; 123456789]>::roughly_double_capacity(Count32::default()),
        Ok(Count32::negating(-1))
    );
    assert_eq!(
        AllocationCount32::<[u8; 5]>::roughly_double_capacity(Count32::max_value()),
        Err(NumberError::Unrepresentable)
    );
}

#[test]
fn grow_fails_only_at_the_maximum() {
    let mut allocation = AllocationCount8::<u8>::default();
    allocation.grow().expect("ok");
    assert_eq!(allocation.capacity(), Count8::of(32).expect("ok"));
    allocation.grow().expect("ok");
    assert_eq!(allocation.capacity(), Count8::of(64).expect("ok"));
    allocation.grow().expect("ok");
    assert_eq!(allocation.capacity(), Count8::of(128).expect("ok"));
    assert_eq!(allocation.grow(), Err(ContainerError::OutOfMemory));
}
