use lib::frame_pool::{FramePool, FramePoolError};

#[test]
fn pool_is_fixed_and_reuses_slots() {
    let mut pool = FramePool::<2, 64>::new();
    let first = pool.acquire(1, 2, 3).unwrap();
    let second = pool.acquire(4, 5, 6).unwrap();
    assert_eq!(pool.in_use(), 2);
    assert_eq!(pool.acquire(7, 8, 9), Err(FramePoolError::SlotBusy));
    pool.release(first).unwrap();
    let reused = pool.acquire(10, 11, 12).unwrap();
    assert_eq!(reused.index(), first.index());
    assert_eq!(pool.slot(second).unwrap().sequence, 4);
}

#[test]
fn pool_rejects_invalid_sizes_and_double_release() {
    let mut empty = FramePool::<0, 8>::new();
    assert_eq!(empty.acquire(0, 0, 0), Err(FramePoolError::TooManySlots));
    let mut pool = FramePool::<1, 8>::new();
    let handle = pool.acquire(1, 1, 1).unwrap();
    assert_eq!(pool.slot(handle).unwrap().deadline_ns, 1);
    pool.release(handle).unwrap();
    assert_eq!(pool.release(handle), Err(FramePoolError::InvalidHandle));
    assert_eq!(pool.slot(handle).unwrap().sequence, 0);
    assert_eq!(pool.in_use(), 0);
}
