use lib::arena::{Arena, ArenaError, ArenaSpan};
use std::mem::{align_of, size_of, MaybeUninit};

#[derive(Clone, Copy, Debug, Eq, PartialEq)]
struct Pair {
    left: u32,
    right: u16,
}

#[test]
fn arena_allocates_aligned_initialized_values_and_slices() {
    let mut storage = [MaybeUninit::<usize>::uninit(); 8];
    let mut arena = Arena::new(&mut storage);
    let pair = arena.alloc_one::<Pair>().unwrap();
    assert_eq!(pair, ArenaSpan { offset: 0, bytes: size_of::<Pair>(), count: 1 });
    assert_eq!(pair.offset % align_of::<Pair>(), 0);
    let words = arena.alloc_slice::<u16>(3).unwrap();
    assert_eq!(words.offset, size_of::<Pair>());
    assert_eq!(arena.used_bytes(), size_of::<Pair>() + 6);
    let next = arena.alloc_one::<u32>().unwrap();
    assert_eq!(next.offset % 4, 0);
    assert_eq!(next.offset, 16);
    assert_eq!(arena.remaining_bytes(), arena.capacity_bytes() - 20);
}

#[test]
fn arena_rejects_overflow_and_frozen_allocations() {
    let mut storage = [MaybeUninit::<usize>::uninit(); 1];
    let mut arena = Arena::new(&mut storage);
    assert!(matches!(arena.alloc_slice::<u64>(2), Err(ArenaError::OutOfMemory)));
    arena.freeze();
    assert!(matches!(arena.alloc_one::<u8>(), Err(ArenaError::Frozen)));
    assert!(arena.is_frozen());
    arena.reset();
    assert!(!arena.is_frozen());
    assert!(arena.alloc_one::<u8>().is_ok());
}

#[test]
fn arena_reports_unsupported_alignment() {
    let mut storage = [MaybeUninit::<usize>::uninit(); 4];
    let mut arena = Arena::new(&mut storage);
    assert!(align_of::<u128>() > align_of::<usize>());
    assert!(matches!(arena.alloc_one::<u128>(), Err(ArenaError::AlignmentTooLarge)));
}

#[test]
fn arena_reports_size_overflow() {
    let mut storage = [MaybeUninit::<usize>::uninit(); 1];
    let mut arena = Arena::new(&mut storage);
    assert!(matches!(arena.alloc_slice::<u32>(usize::MAX), Err(ArenaError::SizeOverflow)));
    assert_eq!(arena.used_bytes(), 0);
}
