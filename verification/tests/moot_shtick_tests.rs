use compact_arrays::array::{Array, OrderedInsert};
use compact_arrays::count::Count64;
use compact_arrays::in_memory_file::{read_chunk, read_final, InMemoryFile, InMemoryFileLines};
use compact_arrays::maybe_local_array::Memory;
use compact_arrays::moot::moot;
use compact_arrays::shtick::ShtickOptimized8;

#[test]
fn moot_works() {
    let mut i: i32 = 123;
    assert_eq!(moot(&mut i), 123);
    assert_eq!(i, 0);
}

#[test]
fn shtick_optimized_8_works_with_array_deref() {
    let mut shtick = ShtickOptimized8::default();
    shtick.insert(OrderedInsert::AtEnd(b'h')).expect("ok");
    shtick.insert(OrderedInsert::AtEnd(b'i')).expect("ok");
    assert_eq!(shtick.count(), Count64::of(2).expect("ok"));
    assert_eq!(shtick.capacity(), Count64::of(15).expect("ok"));
    assert_eq!(shtick.as_slice(), b"hi");
    shtick.set_at(0, b'o');
    shtick.set_at(1, b'h');
    assert_eq!(shtick.as_slice(), b"oh");
}

#[test]
fn shtick_optimized_8_can_initialize_from_string() {
    let mut shtick = ShtickOptimized8::try_from("hello world").expect("ok");
    assert_eq!(shtick.as_slice(), b"hello world");
    assert_eq!(shtick.memory(), Memory::UnallocatedBuffer);

    shtick = ShtickOptimized8::try_from("let's make something that is more bytes").expect("ok");
    assert_eq!(shtick.as_slice(), b"let's make something that is more bytes");
    assert_eq!(shtick.memory(), Memory::OptimizedAllocation);
    assert_eq!(shtick.allocation_events(), 1);
}

#[test]
fn line_splitter_splits_on_newlines() {
    let mut lines = InMemoryFileLines::default();
    let mut current = ShtickOptimized8::default();
    read_chunk(&mut lines, &mut current, b"first line\nsecond ").expect("ok");
    read_chunk(&mut lines, &mut current, b"line\nlast").expect("ok");
    read_final(&mut lines, current).expect("ok");
    assert_eq!(lines.count(), compact_arrays::count::Count32::of(3).expect("ok"));
    assert_eq!(lines.at(0).as_slice(), b"first line");
    assert_eq!(lines.at(1).as_slice(), b"second line");
    assert_eq!(lines.at(2).as_slice(), b"last");
}

#[test]
fn empty_input_gives_one_empty_line() {
    let mut lines = InMemoryFileLines::default();
    let current = ShtickOptimized8::default();
    read_final(&mut lines, current).expect("ok");
    assert_eq!(lines.count(), compact_arrays::count::Count32::of(1).expect("ok"));
    assert_eq!(lines.at(0).as_slice(), b"");
}

#[test]
fn directory_paths_end_in_a_separator() {
    let empty = InMemoryFile {
        path: ShtickOptimized8::default(),
        lines: InMemoryFileLines::default(),
    };
    assert!(empty.is_directory());

    let dir = InMemoryFile {
        path: ShtickOptimized8::try_from("some/dir/").expect("ok"),
        lines: InMemoryFileLines::default(),
    };
    assert!(dir.is_directory());

    let file = InMemoryFile {
        path: ShtickOptimized8::try_from("some/file.txt").expect("ok"),
        lines: InMemoryFileLines::default(),
    };
    assert!(!file.is_directory());
}
