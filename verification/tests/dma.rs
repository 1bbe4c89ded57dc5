use lib::dma::{DmaCacheOps, DmaDescriptor, DmaDescriptorRing, DmaOwner, DmaRingError, NoopDmaCache, DMA_ALIGNMENT};
use std::mem::size_of;

#[derive(Clone, Copy, Debug, Eq, PartialEq)]
enum CacheCall {
    CleanBuffer(usize),
    CleanDescriptor(usize),
    InvalidateBuffer(usize),
    InvalidateDescriptor(usize),
    BeforeDmaSubmit,
    AfterDmaComplete,
}

struct RecordingCache {
    calls: [Option<CacheCall>; 16],
    count: usize,
}

impl RecordingCache {
    fn new() -> Self {
        Self { calls: [None; 16], count: 0 }
    }

    fn push(&mut self, call: CacheCall) {
        self.calls[self.count] = Some(call);
        self.count += 1;
    }
}

impl DmaCacheOps for RecordingCache {
    fn clean_buffer(&mut self, _: usize, length: usize) {
        self.push(CacheCall::CleanBuffer(length));
    }

    fn clean_descriptor(&mut self, _: usize, length: usize) {
        self.push(CacheCall::CleanDescriptor(length));
    }

    fn invalidate_buffer(&mut self, _: usize, length: usize) {
        self.push(CacheCall::InvalidateBuffer(length));
    }

    fn invalidate_descriptor(&mut self, _: usize, length: usize) {
        self.push(CacheCall::InvalidateDescriptor(length));
    }

    fn before_dma_submit(&mut self) {
        self.push(CacheCall::BeforeDmaSubmit);
    }

    fn after_dma_complete(&mut self) {
        self.push(CacheCall::AfterDmaComplete);
    }
}

#[test]
fn tx_ownership_requires_cache_clean_and_ordered_reclaim() {
    let mut ring = DmaDescriptorRing::<1, 0, 64>::new();
    let mut cache = RecordingCache::new();
    let handle = ring.tx_acquire().unwrap();
    ring.tx_buffer_mut(handle).unwrap()[..4].copy_from_slice(b"ESOP");
    assert_eq!(ring.tx_owner(handle), Ok(DmaOwner::CpuOwned));
    ring.tx_submit(handle, 4, &mut cache).unwrap();
    assert_eq!(ring.tx_owner(handle), Ok(DmaOwner::DmaOwned));
    assert_eq!(cache.calls[0], Some(CacheCall::CleanBuffer(4)));
    assert_eq!(cache.calls[1], Some(CacheCall::CleanDescriptor(size_of::<DmaDescriptor<64>>())));
    assert_eq!(cache.calls[2], Some(CacheCall::BeforeDmaSubmit));
    assert_eq!(ring.tx_reclaim(handle), Err(DmaRingError::InvalidState { actual: DmaOwner::DmaOwned }));
    ring.tx_complete(handle, &mut cache).unwrap();
    ring.tx_reclaim(handle).unwrap();
    assert_eq!(ring.tx_in_flight(), 0);
    assert_eq!(ring.tx_owner(handle), Ok(DmaOwner::Free));
}

#[test]
fn rx_poll_invalidates_and_rearms_without_free_window() {
    let mut ring = DmaDescriptorRing::<0, 1, 64>::new();
    let mut cache = RecordingCache::new();
    let handle = ring.rx_acquire().unwrap();
    ring.rx_buffer_mut(handle).unwrap()[..3].copy_from_slice(b"RX!");
    ring.rx_submit(handle, &mut cache).unwrap();
    assert_eq!(ring.rx_complete(handle, 3), Ok(()));
    let completed = ring.rx_poll(&mut cache).unwrap().unwrap();
    assert_eq!(completed, handle);
    assert_eq!(ring.rx_buffer(handle).unwrap(), b"RX!");
    assert_eq!(ring.rx_owner(handle), Ok(DmaOwner::Completed));
    assert_eq!(cache.calls[2], Some(CacheCall::BeforeDmaSubmit));
    assert_eq!(cache.calls[3], Some(CacheCall::AfterDmaComplete));
    ring.rx_rearm(handle, &mut cache).unwrap();
    assert_eq!(ring.rx_owner(handle), Ok(DmaOwner::DmaOwned));
    assert_eq!(ring.rx_in_flight(), 1);
    assert!(cache.calls.contains(&Some(CacheCall::InvalidateDescriptor(size_of::<DmaDescriptor<64>>()))));
}

#[test]
fn stale_handles_cannot_control_reused_descriptors() {
    let mut ring = DmaDescriptorRing::<1, 0, 32>::new();
    let first = ring.tx_acquire().unwrap();
    ring.tx_buffer_mut(first).unwrap()[0] = 1;
    let mut cache = NoopDmaCache;
    ring.tx_submit(first, 1, &mut cache).unwrap();
    ring.tx_complete(first, &mut cache).unwrap();
    ring.tx_reclaim(first).unwrap();
    let second = ring.tx_acquire().unwrap();
    assert_ne!(first.generation(), second.generation());
    assert_eq!(ring.tx_complete(first, &mut cache), Err(DmaRingError::StaleHandle));
}

#[test]
fn invalid_lengths_do_not_change_ownership() {
    let mut ring = DmaDescriptorRing::<1, 1, 16>::new();
    let tx = ring.tx_acquire().unwrap();
    let mut cache = NoopDmaCache;
    assert_eq!(ring.tx_submit(tx, 0, &mut cache), Err(DmaRingError::InvalidLength));
    assert_eq!(ring.tx_owner(tx), Ok(DmaOwner::CpuOwned));
    let rx = ring.rx_acquire().unwrap();
    ring.rx_submit(rx, &mut cache).unwrap();
    assert_eq!(ring.rx_complete(rx, 17), Err(DmaRingError::InvalidLength));
    assert_eq!(ring.rx_owner(rx), Ok(DmaOwner::DmaOwned));
}

#[test]
fn zero_capacity_or_mtu_is_rejected_by_try_new() {
    assert!(matches!(DmaDescriptorRing::<0, 0, 0>::try_new(), Err(DmaRingError::InvalidConfiguration)));
    assert!(matches!(DmaDescriptorRing::<256, 1, 64>::try_new(), Err(DmaRingError::InvalidConfiguration)));
}

#[test]
fn frame_storage_is_cache_line_aligned() {
    let mut ring = DmaDescriptorRing::<1, 1, 64>::new();
    let tx = ring.tx_acquire().unwrap();
    let address = ring.tx_buffer_mut(tx).unwrap().as_ptr() as usize;
    assert_eq!(address % DMA_ALIGNMENT, 0);
}

#[test]
fn tx_buffer_is_the_submitted_prefix_and_cancel_returns_to_free() {
    let mut ring = DmaDescriptorRing::<2, 1, 16>::new();
    let mut cache = NoopDmaCache;
    let handle = ring.tx_acquire().unwrap();
    assert_eq!(handle.index(), 0);
    assert_eq!(ring.tx_buffer(handle).unwrap(), &[] as &[u8]);
    ring.tx_buffer_mut(handle).unwrap()[..2].copy_from_slice(&[7, 8]);
    ring.tx_submit(handle, 2, &mut cache).unwrap();
    assert_eq!(ring.tx_length(handle), Ok(2));
    assert_eq!(ring.tx_buffer(handle).unwrap(), &[7, 8]);
    assert_eq!(ring.tx_cancel(handle), Err(DmaRingError::InvalidState { actual: DmaOwner::DmaOwned }));
    ring.tx_abort(handle).unwrap();
    assert_eq!(ring.tx_owner(handle), Ok(DmaOwner::Free));
    let next = ring.tx_acquire().unwrap();
    assert_eq!(next.index(), 1);
    ring.tx_cancel(next).unwrap();
    assert_eq!(ring.tx_in_flight(), 0);
    assert_eq!(ring.tx_capacity(), 2);
    assert_eq!(ring.rx_capacity(), 1);
}

#[test]
fn exhausted_rings_report_no_descriptor_and_release_frees() {
    let mut ring = DmaDescriptorRing::<1, 1, 8>::new();
    let mut cache = NoopDmaCache;
    let _tx = ring.tx_acquire().unwrap();
    assert_eq!(ring.tx_acquire(), Err(DmaRingError::NoTxDescriptor));
    let rx = ring.rx_acquire().unwrap();
    assert_eq!(ring.rx_acquire(), Err(DmaRingError::NoRxDescriptor));
    assert_eq!(ring.rx_poll(&mut cache), Ok(None));
    ring.rx_submit(rx, &mut cache).unwrap();
    ring.rx_complete(rx, 8).unwrap();
    assert_eq!(ring.rx_poll(&mut cache), Ok(Some(rx)));
    ring.rx_release(rx).unwrap();
    assert_eq!(ring.rx_owner(rx), Ok(DmaOwner::Free));
    assert_eq!(ring.rx_buffer(rx), Err(DmaRingError::InvalidState { actual: DmaOwner::Free }));
}
