//! Fixed-capacity DMA descriptor ownership and cache-maintenance contract.
//!
//! The core cannot know how a particular MAC represents ownership or cache
//! lines. The rings keep the descriptor lifecycle explicit and bounded:
//! Free -> CpuOwned -> DmaOwned -> Completed -> Free, with stale handles
//! refused by a per-descriptor generation. The register layout of the
//! native descriptors stays with the platform port.
use vstd::prelude::*;

verus! {

pub const DMA_ALIGNMENT: usize = 32;

#[derive(Clone, Copy, Debug, PartialEq, Eq, Structural)]
pub enum DmaOwner {
    Free,
    CpuOwned,
    DmaOwned,
    Completed,
}

#[derive(Clone, Copy, Debug, PartialEq, Eq, Structural)]
pub enum DmaRingError {
    InvalidConfiguration,
    NoTxDescriptor,
    NoRxDescriptor,
    InvalidHandle,
    StaleHandle,
    InvalidState { actual: DmaOwner },
    InvalidLength,
}

/// The cache operations at descriptor ownership edges.
#[derive(Clone, Copy, Debug, PartialEq, Eq, Structural)]
pub enum CacheOp {
    CleanBuffer,
    CleanDescriptor,
    InvalidateBuffer,
    InvalidateDescriptor,
    BeforeSubmit,
    AfterComplete,
}

/// One cache operation as a `DmaCacheOps` received it; the two fences carry
/// no range and are logged with address and length zero.
pub struct CacheCall {
    pub op: CacheOp,
    pub address: usize,
    pub length: usize,
}

/// Platform cache operations required at descriptor ownership edges. An
/// implementation performs the clean or invalidate for the address range
/// before returning; coherent memory can use `NoopDmaCache`.
pub trait DmaCacheOps {
    /// Whether the implementation keeps a log of the operations asked of
    /// it; one that does records every call in `calls`.
    open spec fn logs_calls(&self) -> bool {
        false
    }

    /// The operations asked so far, oldest first, when `logs_calls`.
    open spec fn calls(&self) -> Seq<CacheCall> {
        Seq::empty()
    }

    fn clean_buffer(&mut self, address: usize, length: usize)
        ensures
            old(self).logs_calls() ==> final(self).logs_calls() && final(self).calls() == old(self).calls().push(
                (CacheCall { op: CacheOp::CleanBuffer, address, length }),
            ),
    ;

    fn clean_descriptor(&mut self, address: usize, length: usize)
        ensures
            old(self).logs_calls() ==> final(self).logs_calls() && final(self).calls() == old(self).calls().push(
                (CacheCall { op: CacheOp::CleanDescriptor, address, length }),
            ),
    ;

    fn invalidate_buffer(&mut self, address: usize, length: usize)
        ensures
            old(self).logs_calls() ==> final(self).logs_calls() && final(self).calls() == old(self).calls().push(
                (CacheCall { op: CacheOp::InvalidateBuffer, address, length }),
            ),
    ;

    fn invalidate_descriptor(&mut self, address: usize, length: usize)
        ensures
            old(self).logs_calls() ==> final(self).logs_calls() && final(self).calls() == old(self).calls().push(
                (CacheCall { op: CacheOp::InvalidateDescriptor, address, length }),
            ),
    ;

    /// Publish cleaned descriptor and buffer contents before DMA ownership.
    fn before_dma_submit(&mut self)
        ensures
            old(self).logs_calls() ==> final(self).logs_calls() && final(self).calls() == old(self).calls().push(
                (CacheCall { op: CacheOp::BeforeSubmit, address: 0, length: 0 }),
            ),
    ;

    /// Acquire hardware-written contents before CPU access.
    fn after_dma_complete(&mut self)
        ensures
            old(self).logs_calls() ==> final(self).logs_calls() && final(self).calls() == old(self).calls().push(
                (CacheCall { op: CacheOp::AfterComplete, address: 0, length: 0 }),
            ),
    ;
}

/// A logging cache's log grew by calls whose operations and lengths are
/// `expected`, in that order, at whatever addresses.
pub open spec fn logged_calls<C: DmaCacheOps>(before: C, after: C, expected: Seq<(CacheOp, usize)>) -> bool {
    before.logs_calls() ==> {
        let added = after.calls().subrange(before.calls().len() as int, after.calls().len() as int);
        &&& after.logs_calls()
        &&& after.calls() == before.calls() + added
        &&& added.len() == expected.len()
        &&& forall|k: int|
            0 <= k < expected.len() ==> (#[trigger] added[k]).op == expected[k].0 && added[k].length == expected[k].1
    }
}

/// The size of a descriptor, as the cache operations on it are given.
pub open spec fn descriptor_size<const MTU: usize>() -> usize {
    vstd::layout::size_of::<DmaDescriptor<MTU>>() as usize
}

/// The calls that hand a descriptor to DMA: clean or invalidate the buffer
/// as `buffer_op` over `length` bytes, clean the descriptor, then publish.
pub open spec fn submit_calls<const MTU: usize>(buffer_op: CacheOp, length: usize) -> Seq<(CacheOp, usize)> {
    seq![(buffer_op, length), (CacheOp::CleanDescriptor, descriptor_size::<MTU>()), (CacheOp::BeforeSubmit, 0usize)]
}

/// Cache operations for coherent memory: nothing to do.
#[derive(Default)]
pub struct NoopDmaCache;

impl DmaCacheOps for NoopDmaCache {
    fn clean_buffer(&mut self, address: usize, length: usize) {
    }

    fn clean_descriptor(&mut self, address: usize, length: usize) {
    }

    fn invalidate_buffer(&mut self, address: usize, length: usize) {
    }

    fn invalidate_descriptor(&mut self, address: usize, length: usize) {
    }

    fn before_dma_submit(&mut self) {
    }

    fn after_dma_complete(&mut self) {
    }
}

#[derive(Clone, Copy, Debug, PartialEq, Eq, Structural)]
pub struct DmaTxHandle {
    index: u8,
    generation: u16,
}

impl DmaTxHandle {
    pub closed spec fn spec_index(self) -> usize {
        self.index as usize
    }

    pub closed spec fn spec_generation(self) -> u16 {
        self.generation
    }

    #[verifier::when_used_as_spec(spec_index)]
    pub fn index(self) -> (index: usize)
        ensures
            index == self.spec_index(),
            index < 256,
    {
        self.index as usize
    }

    #[verifier::when_used_as_spec(spec_generation)]
    pub fn generation(self) -> (generation: u16)
        ensures
            generation == self.spec_generation(),
    {
        self.generation
    }
}

#[derive(Clone, Copy, Debug, PartialEq, Eq, Structural)]
pub struct DmaRxHandle {
    index: u8,
    generation: u16,
}

impl DmaRxHandle {
    pub closed spec fn spec_index(self) -> usize {
        self.index as usize
    }

    pub closed spec fn spec_generation(self) -> u16 {
        self.generation
    }

    #[verifier::when_used_as_spec(spec_index)]
    pub fn index(self) -> (index: usize)
        ensures
            index == self.spec_index(),
            index < 256,
    {
        self.index as usize
    }

    #[verifier::when_used_as_spec(spec_generation)]
    pub fn generation(self) -> (generation: u16)
        ensures
            generation == self.spec_generation(),
    {
        self.generation
    }
}

/// `<[u8]>::as_ptr`, taken as an integer: the memory address of the first
/// byte of `bytes`. Nothing is stated of the value, which depends on where
/// the bytes live.
#[verifier::external_body]
fn slice_address(bytes: &[u8]) -> usize {
    bytes.as_ptr() as usize
}

/// `std::ptr::from_ref`, taken as an integer: the memory address of
/// `value`. Nothing is stated of the value, which depends on where `value`
/// lives.
#[verifier::external_body]
fn value_address<T>(value: &T) -> usize {
    std::ptr::from_ref(value) as usize
}

/// Frame storage whose usable bytes start on a cache-line boundary: the
/// storage holds `MTU + DMA_ALIGNMENT - 1` bytes and the frame starts at
/// `offset`.
pub struct DmaFrame<const MTU: usize> {
    storage: Vec<u8>,
    offset: usize,
}

impl<const MTU: usize> DmaFrame<MTU> {
    pub closed spec fn wf(&self) -> bool {
        &&& self.offset < DMA_ALIGNMENT
        &&& self.storage@.len() == MTU + DMA_ALIGNMENT - 1
    }

    /// The frame bytes.
    pub closed spec fn view_bytes(&self) -> Seq<u8> {
        self.storage@.subrange(self.offset as int, self.offset + MTU)
    }

    fn new() -> (frame: Self)
        requires
            MTU + DMA_ALIGNMENT <= usize::MAX,
        ensures
            frame.wf(),
            frame.view_bytes() == Seq::new(MTU as nat, |i: int| 0u8),
    {
        let storage = vec![0u8; MTU + DMA_ALIGNMENT - 1];
        let address = slice_address(storage.as_slice());
        let offset = (DMA_ALIGNMENT - address % DMA_ALIGNMENT) % DMA_ALIGNMENT;
        let frame = DmaFrame { storage, offset };
        assert(frame.view_bytes() =~= Seq::new(MTU as nat, |i: int| 0u8));
        frame
    }

    fn bytes(&self) -> (bytes: &[u8])
        requires
            self.wf(),
        ensures
            bytes@ == self.view_bytes(),
    {
        let all = self.storage.as_slice();
        let _len = all.len();
        &all[self.offset..self.offset + MTU]
    }
}

/// One descriptor: its frame, the valid length, the owner and the
/// generation that handles must carry.
pub struct DmaDescriptor<const MTU: usize> {
    frame: DmaFrame<MTU>,
    length: usize,
    owner: DmaOwner,
    generation: u16,
}

/// A descriptor as seen by the ring's contracts.
pub struct DescriptorView {
    pub bytes: Seq<u8>,
    pub length: usize,
    pub owner: DmaOwner,
    pub generation: u16,
}

impl<const MTU: usize> DmaDescriptor<MTU> {
    pub closed spec fn view_descriptor(&self) -> DescriptorView {
        DescriptorView {
            bytes: self.frame.view_bytes(),
            length: self.length,
            owner: self.owner,
            generation: self.generation,
        }
    }

    pub closed spec fn wf(&self) -> bool {
        self.frame.wf() && self.length <= MTU
    }

    fn new() -> (descriptor: Self)
        requires
            MTU + DMA_ALIGNMENT <= usize::MAX,
        ensures
            descriptor.wf(),
            descriptor.view_descriptor().owner == DmaOwner::Free,
            descriptor.view_descriptor().length == 0,
            descriptor.view_descriptor().generation == 0,
            descriptor.view_descriptor().bytes == Seq::new(MTU as nat, |i: int| 0u8),
    {
        DmaDescriptor { frame: DmaFrame::new(), length: 0, owner: DmaOwner::Free, generation: 0 }
    }
}

/// The next generation of a descriptor: it counts up and skips zero.
pub open spec fn next_generation(current: u16) -> u16 {
    if current == u16::MAX {
        1
    } else {
        (current + 1) as u16
    }
}

fn next_generation_exec(current: u16) -> (next: u16)
    ensures
        next == next_generation(current),
{
    if current == u16::MAX {
        1
    } else {
        current + 1
    }
}

/// The first descriptor at or after `cursor` (wrapping) whose owner is
/// `wanted`, scanning offsets from `k`.
pub open spec fn find_owner_from(owners: Seq<DmaOwner>, cursor: int, wanted: DmaOwner, k: int) -> Option<int>
    decreases owners.len() - k,
{
    if k >= owners.len() || k < 0 {
        None
    } else if owners[(cursor + k) % (owners.len() as int)] == wanted {
        Some((cursor + k) % (owners.len() as int))
    } else {
        find_owner_from(owners, cursor, wanted, k + 1)
    }
}

/// A descriptor a scan finds is in range and has the owner searched for.
pub proof fn lemma_find_owner_from_found(owners: Seq<DmaOwner>, cursor: int, wanted: DmaOwner, k: int)
    requires
        0 <= cursor,
    ensures
        find_owner_from(owners, cursor, wanted, k) matches Some(i) ==> 0 <= i < owners.len() && owners[i] == wanted,
    decreases owners.len() - k,
{
    if k >= owners.len() || k < 0 {
    } else if owners[(cursor + k) % (owners.len() as int)] == wanted {
    } else {
        lemma_find_owner_from_found(owners, cursor, wanted, k + 1);
    }
}

/// The descriptor a scan from `cursor` finds for `wanted`, if any.
pub open spec fn find_owner(owners: Seq<DmaOwner>, cursor: int, wanted: DmaOwner) -> Option<int> {
    find_owner_from(owners, cursor, wanted, 0)
}

pub open spec fn owners_of(descriptors: Seq<DescriptorView>) -> Seq<DmaOwner> {
    descriptors.map_values(|d: DescriptorView| d.owner)
}

/// How many of the first `n` descriptors are not free.
pub open spec fn count_in_flight(descriptors: Seq<DescriptorView>, n: int) -> nat
    decreases n,
{
    if n <= 0 {
        0
    } else {
        count_in_flight(descriptors, n - 1) + if descriptors[n - 1].owner != DmaOwner::Free {
            1nat
        } else {
            0nat
        }
    }
}

/// The slot a handle names, or why it names none.
pub open spec fn spec_validate(descriptors: Seq<DescriptorView>, index: int, generation: u16) -> Result<int, DmaRingError> {
    if index >= descriptors.len() {
        Err(DmaRingError::InvalidHandle)
    } else if descriptors[index].generation != generation {
        Err(DmaRingError::StaleHandle)
    } else {
        Ok(index)
    }
}

/// The descriptor with a new owner and length.
pub open spec fn with_owner(d: DescriptorView, owner: DmaOwner, length: usize) -> DescriptorView {
    DescriptorView { owner, length, ..d }
}

/// The outcome of a transition guarded by the descriptor's owner: a valid
/// handle whose descriptor has an accepted owner moves it to `owner` with
/// `length`; anything else is refused without change.
pub open spec fn owner_transition(
    before: Seq<DescriptorView>,
    after: Seq<DescriptorView>,
    index: int,
    generation: u16,
    accepted: spec_fn(DmaOwner) -> bool,
    owner: DmaOwner,
    length: usize,
    result: Result<(), DmaRingError>,
) -> bool {
    match spec_validate(before, index, generation) {
        Err(e) => result == Err::<(), DmaRingError>(e) && after == before,
        Ok(i) => if !accepted(before[i].owner) {
            result == Err::<(), DmaRingError>(DmaRingError::InvalidState { actual: before[i].owner })
                && after == before
        } else {
            result is Ok && after == before.update(i, with_owner(before[i], owner, length))
        },
    }
}

/// Bounded TX and RX descriptor rings with explicit ownership. Each acquire
/// or poll scans at most one ring's worth of descriptors.
pub struct DmaDescriptorRing<const TX: usize, const RX: usize, const MTU: usize> {
    tx: Vec<DmaDescriptor<MTU>>,
    rx: Vec<DmaDescriptor<MTU>>,
    tx_cursor: usize,
    rx_cursor: usize,
}

/// At most 255 descriptors per ring (handles carry a byte index) and a
/// non-empty frame that fits, with its alignment slack, in memory.
pub open spec fn ring_config_valid(tx: usize, rx: usize, mtu: usize) -> bool {
    tx <= u8::MAX && rx <= u8::MAX && mtu != 0 && mtu + DMA_ALIGNMENT <= usize::MAX
}

impl<const TX: usize, const RX: usize, const MTU: usize> DmaDescriptorRing<TX, RX, MTU> {
    pub closed spec fn view_tx(&self) -> Seq<DescriptorView> {
        self.tx@.map_values(|d: DmaDescriptor<MTU>| d.view_descriptor())
    }

    pub closed spec fn view_rx(&self) -> Seq<DescriptorView> {
        self.rx@.map_values(|d: DmaDescriptor<MTU>| d.view_descriptor())
    }

    pub closed spec fn spec_tx_cursor(&self) -> usize {
        self.tx_cursor
    }

    pub closed spec fn spec_rx_cursor(&self) -> usize {
        self.rx_cursor
    }

    pub closed spec fn wf(&self) -> bool {
        &&& ring_config_valid(TX, RX, MTU)
        &&& self.tx@.len() == TX
        &&& self.rx@.len() == RX
        &&& forall|i: int| 0 <= i < TX ==> (#[trigger] self.tx@[i]).wf()
        &&& forall|i: int| 0 <= i < RX ==> (#[trigger] self.rx@[i]).wf()
    }

    /// The shape of a well-formed ring: `TX` and `RX` descriptors, each with
    /// `MTU` frame bytes and a recorded length of at most `MTU`.
    pub proof fn lemma_wf_shape(&self)
        requires
            self.wf(),
        ensures
            self.view_tx().len() == TX,
            self.view_rx().len() == RX,
            forall|i: int| 0 <= i < TX ==> (#[trigger] self.view_tx()[i]).bytes.len() == MTU && self.view_tx()[i].length <= MTU,
            forall|i: int| 0 <= i < RX ==> (#[trigger] self.view_rx()[i]).bytes.len() == MTU && self.view_rx()[i].length <= MTU,
    {
        assert forall|i: int| 0 <= i < TX implies (#[trigger] self.view_tx()[i]).bytes.len() == MTU && self.view_tx()[i].length <= MTU by {
            assert(self.tx@[i].wf());
        }
        assert forall|i: int| 0 <= i < RX implies (#[trigger] self.view_rx()[i]).bytes.len() == MTU && self.view_rx()[i].length <= MTU by {
            assert(self.rx@[i].wf());
        }
    }

    pub fn try_new() -> (result: Result<Self, DmaRingError>)
        ensures
            !ring_config_valid(TX, RX, MTU) ==> result == Err::<Self, DmaRingError>(
                DmaRingError::InvalidConfiguration,
            ),
            ring_config_valid(TX, RX, MTU) ==> (result matches Ok(ring) && ring.wf()
                && ring.spec_tx_cursor() == 0 && ring.spec_rx_cursor() == 0
                && (forall|i: int| 0 <= i < TX ==> (#[trigger] ring.view_tx()[i]).owner == DmaOwner::Free
                    && ring.view_tx()[i].generation == 0 && ring.view_tx()[i].length == 0)
                && (forall|i: int| 0 <= i < RX ==> (#[trigger] ring.view_rx()[i]).owner == DmaOwner::Free
                    && ring.view_rx()[i].generation == 0 && ring.view_rx()[i].length == 0)),
    {
        if TX > u8::MAX as usize || RX > u8::MAX as usize || MTU == 0 {
            return Err(DmaRingError::InvalidConfiguration);
        }
        if MTU > usize::MAX - DMA_ALIGNMENT {
            return Err(DmaRingError::InvalidConfiguration);
        }
        Ok(Self::build())
    }

    /// Both rings with every descriptor free, at generation zero.
    fn build() -> (ring: Self)
        requires
            ring_config_valid(TX, RX, MTU),
        ensures
            ring.wf(),
            ring.spec_tx_cursor() == 0 && ring.spec_rx_cursor() == 0,
            forall|i: int| 0 <= i < TX ==> (#[trigger] ring.view_tx()[i]).owner == DmaOwner::Free
                && ring.view_tx()[i].generation == 0 && ring.view_tx()[i].length == 0,
            forall|i: int| 0 <= i < RX ==> (#[trigger] ring.view_rx()[i]).owner == DmaOwner::Free
                && ring.view_rx()[i].generation == 0 && ring.view_rx()[i].length == 0,
    {
        let mut tx: Vec<DmaDescriptor<MTU>> = Vec::new();
        let mut i: usize = 0;
        while i < TX
            invariant
                i <= TX,
                MTU + DMA_ALIGNMENT <= usize::MAX,
                tx@.len() == i,
                forall|k: int| 0 <= k < i ==> (#[trigger] tx@[k]).wf() && tx@[k].view_descriptor().owner
                    == DmaOwner::Free && tx@[k].view_descriptor().generation == 0
                    && tx@[k].view_descriptor().length == 0,
            decreases TX - i,
        {
            tx.push(DmaDescriptor::new());
            i = i + 1;
        }
        let mut rx: Vec<DmaDescriptor<MTU>> = Vec::new();
        let mut j: usize = 0;
        while j < RX
            invariant
                j <= RX,
                MTU + DMA_ALIGNMENT <= usize::MAX,
                rx@.len() == j,
                forall|k: int| 0 <= k < j ==> (#[trigger] rx@[k]).wf() && rx@[k].view_descriptor().owner
                    == DmaOwner::Free && rx@[k].view_descriptor().generation == 0
                    && rx@[k].view_descriptor().length == 0,
            decreases RX - j,
        {
            rx.push(DmaDescriptor::new());
            j = j + 1;
        }
        DmaDescriptorRing { tx, rx, tx_cursor: 0, rx_cursor: 0 }
    }

    /// Release-mode constructor; the configuration must be valid.
    pub fn new() -> (ring: Self)
        requires
            ring_config_valid(TX, RX, MTU),
        ensures
            ring.wf(),
            ring.spec_tx_cursor() == 0,
            ring.spec_rx_cursor() == 0,
            forall|i: int| 0 <= i < TX ==> (#[trigger] ring.view_tx()[i]).owner == DmaOwner::Free
                && ring.view_tx()[i].generation == 0,
            forall|i: int| 0 <= i < RX ==> (#[trigger] ring.view_rx()[i]).owner == DmaOwner::Free
                && ring.view_rx()[i].generation == 0,
    {
        Self::build()
    }

    pub fn tx_capacity(&self) -> (capacity: usize)
        ensures
            capacity == TX,
    {
        TX
    }

    pub fn rx_capacity(&self) -> (capacity: usize)
        ensures
            capacity == RX,
    {
        RX
    }

    pub fn tx_in_flight(&self) -> (count: usize)
        requires
            self.wf(),
        ensures
            count == count_in_flight(self.view_tx(), TX as int),
    {
        count_non_free(&self.tx)
    }

    pub fn rx_in_flight(&self) -> (count: usize)
        requires
            self.wf(),
        ensures
            count == count_in_flight(self.view_rx(), RX as int),
    {
        count_non_free(&self.rx)
    }

    pub fn tx_owner(&self, handle: DmaTxHandle) -> (result: Result<DmaOwner, DmaRingError>)
        ensures
            match spec_validate(self.view_tx(), handle.spec_index() as int, handle.spec_generation()) {
                Err(e) => result == Err::<DmaOwner, DmaRingError>(e),
                Ok(i) => result == Ok::<DmaOwner, DmaRingError>(self.view_tx()[i].owner),
            },
    {
        let index = match validate_handle(&self.tx, handle.index(), handle.generation()) {
            Ok(index) => index,
            Err(error) => return Err(error),
        };
        Ok(self.tx[index].owner)
    }

    pub fn rx_owner(&self, handle: DmaRxHandle) -> (result: Result<DmaOwner, DmaRingError>)
        ensures
            match spec_validate(self.view_rx(), handle.spec_index() as int, handle.spec_generation()) {
                Err(e) => result == Err::<DmaOwner, DmaRingError>(e),
                Ok(i) => result == Ok::<DmaOwner, DmaRingError>(self.view_rx()[i].owner),
            },
    {
        let index = match validate_handle(&self.rx, handle.index(), handle.generation()) {
            Ok(index) => index,
            Err(error) => return Err(error),
        };
        Ok(self.rx[index].owner)
    }

    /// Take the first free TX descriptor from the cursor on, with a new
    /// generation.
    pub fn tx_acquire(&mut self) -> (result: Result<DmaTxHandle, DmaRingError>)
        requires
            old(self).wf(),
        ensures
            final(self).wf(),
            acquire_outcome(old(self).view_tx(), final(self).view_tx(), old(self).spec_tx_cursor() as int,
                final(self).spec_tx_cursor() as int, tx_handle_view(result), DmaRingError::NoTxDescriptor),
            final(self).view_rx() == old(self).view_rx(),
            final(self).spec_rx_cursor() == old(self).spec_rx_cursor(),
    {
        proof {
            lemma_find_owner_from_found(owners_of(self.view_tx()), self.tx_cursor as int, DmaOwner::Free, 0);
        }
        let index = match find_owner_exec(&self.tx, self.tx_cursor, DmaOwner::Free) {
            Some(index) => index,
            None => return Err(DmaRingError::NoTxDescriptor),
        };
        let ghost before = self.view_tx();
        let mut descriptor = self.tx.remove(index);
        descriptor.generation = next_generation_exec(descriptor.generation);
        descriptor.length = 0;
        descriptor.owner = DmaOwner::CpuOwned;
        let generation = descriptor.generation;
        let ghost updated = descriptor.view_descriptor();
        self.tx.insert(index, descriptor);
        assert(self.view_tx() =~= before.update(index as int, updated));
        self.tx_cursor = (index + 1) % TX;
        Ok(DmaTxHandle { index: byte_index(index), generation })
    }

    /// The frame storage of a CPU-owned TX descriptor.
    pub fn tx_buffer_mut(&mut self, handle: DmaTxHandle) -> (result: Result<&mut [u8], DmaRingError>)
        requires
            old(self).wf(),
        ensures
            result is Err ==> final(self).wf(),
            match spec_validate(old(self).view_tx(), handle.spec_index() as int, handle.spec_generation()) {
                Err(e) => (result matches Err(x) && x == e) && final(self).view_tx() == old(self).view_tx(),
                Ok(i) => if old(self).view_tx()[i].owner != DmaOwner::CpuOwned {
                    (result matches Err(x) && x == (DmaRingError::InvalidState { actual: old(self).view_tx()[i].owner }))
                        && final(self).view_tx() == old(self).view_tx()
                } else {
                    (result matches Ok(bytes) && bytes@ == old(self).view_tx()[i].bytes
                        && (final(bytes)@.len() == MTU ==> final(self).wf() && final(self).view_tx() == old(self).view_tx().update(
                            i, DescriptorView { bytes: final(bytes)@, ..old(self).view_tx()[i] })))
                },
            },
            final(self).view_rx() == old(self).view_rx(),
            final(self).spec_tx_cursor() == old(self).spec_tx_cursor(),
            final(self).spec_rx_cursor() == old(self).spec_rx_cursor(),
    {
        let index = match validate_handle(&self.tx, handle.index(), handle.generation()) {
            Ok(index) => index,
            Err(error) => return Err(error),
        };
        if self.tx[index].owner != DmaOwner::CpuOwned {
            return Err(DmaRingError::InvalidState { actual: self.tx[index].owner });
        }
        Ok(frame_bytes_mut(&mut self.tx, index))
    }

    /// The recorded frame of a TX descriptor that is not free; empty until
    /// `tx_submit` records a length.
    pub fn tx_buffer(&self, handle: DmaTxHandle) -> (result: Result<&[u8], DmaRingError>)
        requires
            self.wf(),
        ensures
            match spec_validate(self.view_tx(), handle.spec_index() as int, handle.spec_generation()) {
                Err(e) => result matches Err(x) && x == e,
                Ok(i) => if self.view_tx()[i].owner == DmaOwner::Free {
                    result matches Err(x) && x == (DmaRingError::InvalidState { actual: DmaOwner::Free })
                } else {
                    result matches Ok(bytes) && bytes@ == self.view_tx()[i].bytes.subrange(0, self.view_tx()[i].length as int)
                },
            },
    {
        let index = match validate_handle(&self.tx, handle.index(), handle.generation()) {
            Ok(index) => index,
            Err(error) => return Err(error),
        };
        let descriptor = &self.tx[index];
        if descriptor.owner == DmaOwner::Free {
            return Err(DmaRingError::InvalidState { actual: descriptor.owner });
        }
        let bytes = descriptor.frame.bytes();
        Ok(&bytes[0..descriptor.length])
    }

    pub fn tx_length(&self, handle: DmaTxHandle) -> (result: Result<usize, DmaRingError>)
        requires
            self.wf(),
        ensures
            match spec_validate(self.view_tx(), handle.spec_index() as int, handle.spec_generation()) {
                Err(e) => result == Err::<usize, DmaRingError>(e),
                Ok(i) => if self.view_tx()[i].owner == DmaOwner::Free {
                    result == Err::<usize, DmaRingError>(DmaRingError::InvalidState { actual: DmaOwner::Free })
                } else {
                    result == Ok::<usize, DmaRingError>(self.view_tx()[i].length)
                },
            },
    {
        let index = match validate_handle(&self.tx, handle.index(), handle.generation()) {
            Ok(index) => index,
            Err(error) => return Err(error),
        };
        let descriptor = &self.tx[index];
        if descriptor.owner == DmaOwner::Free {
            return Err(DmaRingError::InvalidState { actual: descriptor.owner });
        }
        Ok(descriptor.length)
    }

    /// Hand a CPU-owned TX descriptor holding `length` frame bytes to DMA,
    /// cleaning the buffer and the descriptor first.
    pub fn tx_submit<C: DmaCacheOps>(&mut self, handle: DmaTxHandle, length: usize, cache: &mut C) -> (result: Result<(), DmaRingError>)
        requires
            old(self).wf(),
        ensures
            final(self).wf(),
            final(self).view_rx() == old(self).view_rx(),
            final(self).spec_tx_cursor() == old(self).spec_tx_cursor(),
            final(self).spec_rx_cursor() == old(self).spec_rx_cursor(),
            length == 0 || length > MTU ==> result == Err::<(), DmaRingError>(DmaRingError::InvalidLength)
                && final(self).view_tx() == old(self).view_tx(),
            !(length == 0 || length > MTU) ==> owner_transition(old(self).view_tx(), final(self).view_tx(),
                handle.spec_index() as int, handle.spec_generation(), |o: DmaOwner| o == DmaOwner::CpuOwned,
                DmaOwner::DmaOwned, length, result),
            result is Ok ==> logged_calls(*old(cache), *final(cache), submit_calls::<MTU>(CacheOp::CleanBuffer, length)),
            result is Err ==> *final(cache) == *old(cache),
    {
        if length == 0 || length > MTU {
            return Err(DmaRingError::InvalidLength);
        }
        let index = match validate_handle(&self.tx, handle.index(), handle.generation()) {
            Ok(index) => index,
            Err(error) => return Err(error),
        };
        if self.tx[index].owner != DmaOwner::CpuOwned {
            return Err(DmaRingError::InvalidState { actual: self.tx[index].owner });
        }
        let buffer_address = slice_address(self.tx[index].frame.bytes());
        let descriptor_address = value_address(&self.tx[index]);
        let ghost c0 = *cache;
        cache.clean_buffer(buffer_address, length);
        cache.clean_descriptor(descriptor_address, core::mem::size_of::<DmaDescriptor<MTU>>());
        cache.before_dma_submit();
        proof {
            if c0.logs_calls() {
                let added = cache.calls().subrange(c0.calls().len() as int, cache.calls().len() as int);
                assert(cache.calls() =~= c0.calls() + added);
            }
        }
        set_owner(&mut self.tx, index, DmaOwner::DmaOwned, length);
        Ok(())
    }

    /// Mark a DMA-owned TX descriptor complete once the platform saw the
    /// hardware completion; it still has to be reclaimed.
    pub fn tx_complete<C: DmaCacheOps>(&mut self, handle: DmaTxHandle, cache: &mut C) -> (result: Result<(), DmaRingError>)
        requires
            old(self).wf(),
        ensures
            final(self).wf(),
            final(self).view_rx() == old(self).view_rx(),
            final(self).spec_tx_cursor() == old(self).spec_tx_cursor(),
            final(self).spec_rx_cursor() == old(self).spec_rx_cursor(),
            match spec_validate(old(self).view_tx(), handle.spec_index() as int, handle.spec_generation()) {
                Err(e) => result == Err::<(), DmaRingError>(e) && final(self).view_tx() == old(self).view_tx(),
                Ok(i) => owner_transition(old(self).view_tx(), final(self).view_tx(), i, handle.spec_generation(),
                    |o: DmaOwner| o == DmaOwner::DmaOwned, DmaOwner::Completed, old(self).view_tx()[i].length, result),
            },
            result is Ok ==> logged_calls(*old(cache), *final(cache), seq![(CacheOp::AfterComplete, 0usize)]),
            result is Err ==> *final(cache) == *old(cache),
    {
        let index = match validate_handle(&self.tx, handle.index(), handle.generation()) {
            Ok(index) => index,
            Err(error) => return Err(error),
        };
        if self.tx[index].owner != DmaOwner::DmaOwned {
            return Err(DmaRingError::InvalidState { actual: self.tx[index].owner });
        }
        let ghost c0 = *cache;
        cache.after_dma_complete();
        proof {
            if c0.logs_calls() {
                let added = cache.calls().subrange(c0.calls().len() as int, cache.calls().len() as int);
                assert(cache.calls() =~= c0.calls() + added);
            }
        }
        let length = self.tx[index].length;
        set_owner(&mut self.tx, index, DmaOwner::Completed, length);
        Ok(())
    }

    /// Free a completed TX descriptor.
    pub fn tx_reclaim(&mut self, handle: DmaTxHandle) -> (result: Result<(), DmaRingError>)
        requires
            old(self).wf(),
        ensures
            final(self).wf(),
            final(self).view_rx() == old(self).view_rx(),
            final(self).spec_tx_cursor() == old(self).spec_tx_cursor(),
            final(self).spec_rx_cursor() == old(self).spec_rx_cursor(),
            owner_transition(old(self).view_tx(), final(self).view_tx(), handle.spec_index() as int,
                handle.spec_generation(), |o: DmaOwner| o == DmaOwner::Completed, DmaOwner::Free, 0, result),
    {
        let index = match validate_handle(&self.tx, handle.index(), handle.generation()) {
            Ok(index) => index,
            Err(error) => return Err(error),
        };
        if self.tx[index].owner != DmaOwner::Completed {
            return Err(DmaRingError::InvalidState { actual: self.tx[index].owner });
        }
        set_owner(&mut self.tx, index, DmaOwner::Free, 0);
        Ok(())
    }

    /// Free a TX descriptor whose frame build was abandoned while the CPU
    /// still owned it; a DMA-owned descriptor must complete first.
    pub fn tx_cancel(&mut self, handle: DmaTxHandle) -> (result: Result<(), DmaRingError>)
        requires
            old(self).wf(),
        ensures
            final(self).wf(),
            final(self).view_rx() == old(self).view_rx(),
            final(self).spec_tx_cursor() == old(self).spec_tx_cursor(),
            final(self).spec_rx_cursor() == old(self).spec_rx_cursor(),
            owner_transition(old(self).view_tx(), final(self).view_tx(), handle.spec_index() as int,
                handle.spec_generation(), |o: DmaOwner| o == DmaOwner::CpuOwned, DmaOwner::Free, 0, result),
    {
        let index = match validate_handle(&self.tx, handle.index(), handle.generation()) {
            Ok(index) => index,
            Err(error) => return Err(error),
        };
        if self.tx[index].owner != DmaOwner::CpuOwned {
            return Err(DmaRingError::InvalidState { actual: self.tx[index].owner });
        }
        set_owner(&mut self.tx, index, DmaOwner::Free, 0);
        Ok(())
    }

    /// Free a TX descriptor the port did not hand to hardware.
    pub fn tx_abort(&mut self, handle: DmaTxHandle) -> (result: Result<(), DmaRingError>)
        requires
            old(self).wf(),
        ensures
            final(self).wf(),
            final(self).view_rx() == old(self).view_rx(),
            final(self).spec_tx_cursor() == old(self).spec_tx_cursor(),
            final(self).spec_rx_cursor() == old(self).spec_rx_cursor(),
            owner_transition(old(self).view_tx(), final(self).view_tx(), handle.spec_index() as int,
                handle.spec_generation(), |o: DmaOwner| o == DmaOwner::CpuOwned || o == DmaOwner::DmaOwned,
                DmaOwner::Free, 0, result),
    {
        let index = match validate_handle(&self.tx, handle.index(), handle.generation()) {
            Ok(index) => index,
            Err(error) => return Err(error),
        };
        if !(self.tx[index].owner == DmaOwner::CpuOwned || self.tx[index].owner == DmaOwner::DmaOwned) {
            return Err(DmaRingError::InvalidState { actual: self.tx[index].owner });
        }
        set_owner(&mut self.tx, index, DmaOwner::Free, 0);
        Ok(())
    }

    /// Take the first free RX descriptor from the cursor on, with a new
    /// generation.
    pub fn rx_acquire(&mut self) -> (result: Result<DmaRxHandle, DmaRingError>)
        requires
            old(self).wf(),
        ensures
            final(self).wf(),
            acquire_outcome(old(self).view_rx(), final(self).view_rx(), old(self).spec_rx_cursor() as int,
                final(self).spec_rx_cursor() as int, rx_handle_view(result), DmaRingError::NoRxDescriptor),
            final(self).view_tx() == old(self).view_tx(),
            final(self).spec_tx_cursor() == old(self).spec_tx_cursor(),
    {
        proof {
            lemma_find_owner_from_found(owners_of(self.view_rx()), self.rx_cursor as int, DmaOwner::Free, 0);
        }
        let index = match find_owner_exec(&self.rx, self.rx_cursor, DmaOwner::Free) {
            Some(index) => index,
            None => return Err(DmaRingError::NoRxDescriptor),
        };
        let ghost before = self.view_rx();
        let mut descriptor = self.rx.remove(index);
        descriptor.generation = next_generation_exec(descriptor.generation);
        descriptor.length = 0;
        descriptor.owner = DmaOwner::CpuOwned;
        let generation = descriptor.generation;
        let ghost updated = descriptor.view_descriptor();
        self.rx.insert(index, descriptor);
        assert(self.view_rx() =~= before.update(index as int, updated));
        self.rx_cursor = (index + 1) % RX;
        Ok(DmaRxHandle { index: byte_index(index), generation })
    }

    /// The frame storage of a CPU-owned RX descriptor.
    pub fn rx_buffer_mut(&mut self, handle: DmaRxHandle) -> (result: Result<&mut [u8], DmaRingError>)
        requires
            old(self).wf(),
        ensures
            result is Err ==> final(self).wf(),
            match spec_validate(old(self).view_rx(), handle.spec_index() as int, handle.spec_generation()) {
                Err(e) => (result matches Err(x) && x == e) && final(self).view_rx() == old(self).view_rx(),
                Ok(i) => if old(self).view_rx()[i].owner != DmaOwner::CpuOwned {
                    (result matches Err(x) && x == (DmaRingError::InvalidState { actual: old(self).view_rx()[i].owner }))
                        && final(self).view_rx() == old(self).view_rx()
                } else {
                    (result matches Ok(bytes) && bytes@ == old(self).view_rx()[i].bytes
                        && (final(bytes)@.len() == MTU ==> final(self).wf() && final(self).view_rx() == old(self).view_rx().update(
                            i, DescriptorView { bytes: final(bytes)@, ..old(self).view_rx()[i] })))
                },
            },
            final(self).view_tx() == old(self).view_tx(),
            final(self).spec_tx_cursor() == old(self).spec_tx_cursor(),
            final(self).spec_rx_cursor() == old(self).spec_rx_cursor(),
    {
        let index = match validate_handle(&self.rx, handle.index(), handle.generation()) {
            Ok(index) => index,
            Err(error) => return Err(error),
        };
        if self.rx[index].owner != DmaOwner::CpuOwned {
            return Err(DmaRingError::InvalidState { actual: self.rx[index].owner });
        }
        Ok(frame_bytes_mut(&mut self.rx, index))
    }

    /// Hand a CPU-owned RX descriptor to DMA after invalidating stale cache
    /// lines.
    pub fn rx_submit<C: DmaCacheOps>(&mut self, handle: DmaRxHandle, cache: &mut C) -> (result: Result<(), DmaRingError>)
        requires
            old(self).wf(),
        ensures
            final(self).wf(),
            final(self).view_tx() == old(self).view_tx(),
            final(self).spec_tx_cursor() == old(self).spec_tx_cursor(),
            final(self).spec_rx_cursor() == old(self).spec_rx_cursor(),
            match spec_validate(old(self).view_rx(), handle.spec_index() as int, handle.spec_generation()) {
                Err(e) => result == Err::<(), DmaRingError>(e) && final(self).view_rx() == old(self).view_rx(),
                Ok(i) => owner_transition(old(self).view_rx(), final(self).view_rx(), i, handle.spec_generation(),
                    |o: DmaOwner| o == DmaOwner::CpuOwned, DmaOwner::DmaOwned, old(self).view_rx()[i].length, result),
            },
            result is Ok ==> logged_calls(*old(cache), *final(cache), submit_calls::<MTU>(CacheOp::InvalidateBuffer, MTU)),
            result is Err ==> *final(cache) == *old(cache),
    {
        let index = match validate_handle(&self.rx, handle.index(), handle.generation()) {
            Ok(index) => index,
            Err(error) => return Err(error),
        };
        if self.rx[index].owner != DmaOwner::CpuOwned {
            return Err(DmaRingError::InvalidState { actual: self.rx[index].owner });
        }
        let buffer_address = slice_address(self.rx[index].frame.bytes());
        let descriptor_address = value_address(&self.rx[index]);
        let ghost c0 = *cache;
        cache.invalidate_buffer(buffer_address, MTU);
        cache.clean_descriptor(descriptor_address, core::mem::size_of::<DmaDescriptor<MTU>>());
        cache.before_dma_submit();
        proof {
            if c0.logs_calls() {
                let added = cache.calls().subrange(c0.calls().len() as int, cache.calls().len() as int);
                assert(cache.calls() =~= c0.calls() + added);
            }
        }
        let length = self.rx[index].length;
        set_owner(&mut self.rx, index, DmaOwner::DmaOwned, length);
        Ok(())
    }

    /// Record the hardware length of a DMA-owned RX descriptor and mark it
    /// complete; the buffer stays hidden until `rx_poll`.
    pub fn rx_complete(&mut self, handle: DmaRxHandle, length: usize) -> (result: Result<(), DmaRingError>)
        requires
            old(self).wf(),
        ensures
            final(self).wf(),
            final(self).view_tx() == old(self).view_tx(),
            final(self).spec_tx_cursor() == old(self).spec_tx_cursor(),
            final(self).spec_rx_cursor() == old(self).spec_rx_cursor(),
            length == 0 || length > MTU ==> result == Err::<(), DmaRingError>(DmaRingError::InvalidLength)
                && final(self).view_rx() == old(self).view_rx(),
            !(length == 0 || length > MTU) ==> owner_transition(old(self).view_rx(), final(self).view_rx(),
                handle.spec_index() as int, handle.spec_generation(), |o: DmaOwner| o == DmaOwner::DmaOwned,
                DmaOwner::Completed, length, result),
    {
        if length == 0 || length > MTU {
            return Err(DmaRingError::InvalidLength);
        }
        let index = match validate_handle(&self.rx, handle.index(), handle.generation()) {
            Ok(index) => index,
            Err(error) => return Err(error),
        };
        if self.rx[index].owner != DmaOwner::DmaOwned {
            return Err(DmaRingError::InvalidState { actual: self.rx[index].owner });
        }
        set_owner(&mut self.rx, index, DmaOwner::Completed, length);
        Ok(())
    }

    /// The first completed RX descriptor from the cursor on, if any; the
    /// cursor moves past it.
    pub fn rx_poll<C: DmaCacheOps>(&mut self, cache: &mut C) -> (result: Result<Option<DmaRxHandle>, DmaRingError>)
        requires
            old(self).wf(),
        ensures
            final(self).wf(),
            final(self).view_tx() == old(self).view_tx(),
            final(self).view_rx() == old(self).view_rx(),
            final(self).spec_tx_cursor() == old(self).spec_tx_cursor(),
            match find_owner(owners_of(old(self).view_rx()), old(self).spec_rx_cursor() as int, DmaOwner::Completed) {
                None => result == Ok::<Option<DmaRxHandle>, DmaRingError>(None) && final(self).spec_rx_cursor() == old(self).spec_rx_cursor(),
                Some(i) => (result matches Ok(Some(h)) && h.spec_index() == i && h.spec_generation() == old(self).view_rx()[i].generation)
                    && final(self).spec_rx_cursor() == (i + 1) % (RX as int),
            },
            match find_owner(owners_of(old(self).view_rx()), old(self).spec_rx_cursor() as int, DmaOwner::Completed) {
                None => *final(cache) == *old(cache),
                Some(i) => logged_calls(*old(cache), *final(cache), seq![
                    (CacheOp::AfterComplete, 0usize),
                    (CacheOp::InvalidateDescriptor, descriptor_size::<MTU>()),
                    (CacheOp::InvalidateBuffer, old(self).view_rx()[i].length),
                ]),
            },
    {
        let index = match find_owner_exec(&self.rx, self.rx_cursor, DmaOwner::Completed) {
            Some(index) => index,
            None => return Ok(None),
        };
        let buffer_address = slice_address(self.rx[index].frame.bytes());
        let descriptor_address = value_address(&self.rx[index]);
        let ghost c0 = *cache;
        cache.after_dma_complete();
        cache.invalidate_descriptor(descriptor_address, core::mem::size_of::<DmaDescriptor<MTU>>());
        cache.invalidate_buffer(buffer_address, self.rx[index].length);
        proof {
            if c0.logs_calls() {
                let added = cache.calls().subrange(c0.calls().len() as int, cache.calls().len() as int);
                assert(cache.calls() =~= c0.calls() + added);
            }
        }
        self.rx_cursor = (index + 1) % RX;
        Ok(Some(DmaRxHandle { index: byte_index(index), generation: self.rx[index].generation }))
    }

    /// The received frame of a completed RX descriptor.
    pub fn rx_buffer(&self, handle: DmaRxHandle) -> (result: Result<&[u8], DmaRingError>)
        requires
            self.wf(),
        ensures
            match spec_validate(self.view_rx(), handle.spec_index() as int, handle.spec_generation()) {
                Err(e) => result matches Err(x) && x == e,
                Ok(i) => if self.view_rx()[i].owner != DmaOwner::Completed {
                    result matches Err(x) && x == (DmaRingError::InvalidState { actual: self.view_rx()[i].owner })
                } else {
                    result matches Ok(bytes) && bytes@ == self.view_rx()[i].bytes.subrange(0, self.view_rx()[i].length as int)
                },
            },
    {
        let index = match validate_handle(&self.rx, handle.index(), handle.generation()) {
            Ok(index) => index,
            Err(error) => return Err(error),
        };
        let descriptor = &self.rx[index];
        if descriptor.owner != DmaOwner::Completed {
            return Err(DmaRingError::InvalidState { actual: descriptor.owner });
        }
        let bytes = descriptor.frame.bytes();
        Ok(&bytes[0..descriptor.length])
    }

    /// Give a completed RX descriptor straight back to DMA, never exposing
    /// it as free.
    pub fn rx_rearm<C: DmaCacheOps>(&mut self, handle: DmaRxHandle, cache: &mut C) -> (result: Result<(), DmaRingError>)
        requires
            old(self).wf(),
        ensures
            final(self).wf(),
            final(self).view_tx() == old(self).view_tx(),
            final(self).spec_tx_cursor() == old(self).spec_tx_cursor(),
            final(self).spec_rx_cursor() == old(self).spec_rx_cursor(),
            owner_transition(old(self).view_rx(), final(self).view_rx(), handle.spec_index() as int,
                handle.spec_generation(), |o: DmaOwner| o == DmaOwner::Completed, DmaOwner::DmaOwned, 0, result),
            result is Ok ==> logged_calls(*old(cache), *final(cache), submit_calls::<MTU>(CacheOp::InvalidateBuffer, MTU)),
            result is Err ==> *final(cache) == *old(cache),
    {
        let index = match validate_handle(&self.rx, handle.index(), handle.generation()) {
            Ok(index) => index,
            Err(error) => return Err(error),
        };
        if self.rx[index].owner != DmaOwner::Completed {
            return Err(DmaRingError::InvalidState { actual: self.rx[index].owner });
        }
        let buffer_address = slice_address(self.rx[index].frame.bytes());
        let descriptor_address = value_address(&self.rx[index]);
        let ghost c0 = *cache;
        cache.invalidate_buffer(buffer_address, MTU);
        cache.clean_descriptor(descriptor_address, core::mem::size_of::<DmaDescriptor<MTU>>());
        cache.before_dma_submit();
        proof {
            if c0.logs_calls() {
                let added = cache.calls().subrange(c0.calls().len() as int, cache.calls().len() as int);
                assert(cache.calls() =~= c0.calls() + added);
            }
        }
        set_owner(&mut self.rx, index, DmaOwner::DmaOwned, 0);
        Ok(())
    }

    /// Free a completed RX descriptor.
    pub fn rx_release(&mut self, handle: DmaRxHandle) -> (result: Result<(), DmaRingError>)
        requires
            old(self).wf(),
        ensures
            final(self).wf(),
            final(self).view_tx() == old(self).view_tx(),
            final(self).spec_tx_cursor() == old(self).spec_tx_cursor(),
            final(self).spec_rx_cursor() == old(self).spec_rx_cursor(),
            owner_transition(old(self).view_rx(), final(self).view_rx(), handle.spec_index() as int,
                handle.spec_generation(), |o: DmaOwner| o == DmaOwner::Completed, DmaOwner::Free, 0, result),
    {
        let index = match validate_handle(&self.rx, handle.index(), handle.generation()) {
            Ok(index) => index,
            Err(error) => return Err(error),
        };
        if self.rx[index].owner != DmaOwner::Completed {
            return Err(DmaRingError::InvalidState { actual: self.rx[index].owner });
        }
        set_owner(&mut self.rx, index, DmaOwner::Free, 0);
        Ok(())
    }
}


pub open spec fn tx_handle_view(result: Result<DmaTxHandle, DmaRingError>) -> Result<(int, u16), DmaRingError> {
    match result {
        Ok(h) => Ok((h.spec_index() as int, h.spec_generation())),
        Err(e) => Err(e),
    }
}

pub open spec fn rx_handle_view(result: Result<DmaRxHandle, DmaRingError>) -> Result<(int, u16), DmaRingError> {
    match result {
        Ok(h) => Ok((h.spec_index() as int, h.spec_generation())),
        Err(e) => Err(e),
    }
}

/// The ring after an acquire: the first free descriptor from the cursor is
/// handed to the CPU with the next generation and the cursor moves past it.
pub open spec fn acquire_outcome(
    before: Seq<DescriptorView>,
    after: Seq<DescriptorView>,
    cursor_before: int,
    cursor_after: int,
    result: Result<(int, u16), DmaRingError>,
    none_error: DmaRingError,
) -> bool {
    match find_owner(owners_of(before), cursor_before, DmaOwner::Free) {
        None => result == Err::<(int, u16), DmaRingError>(none_error) && after == before && cursor_after
            == cursor_before,
        Some(i) => {
            let generation = next_generation(before[i].generation);
            &&& 0 <= i < before.len()
            &&& before[i].owner == DmaOwner::Free
            &&& result == Ok::<(int, u16), DmaRingError>((i, generation))
            &&& after == before.update(
                i,
                DescriptorView { owner: DmaOwner::CpuOwned, length: 0, generation, ..before[i] },
            )
            &&& cursor_after == (i + 1) % (before.len() as int)
        },
    }
}

fn byte_index(index: usize) -> (byte: u8)
    requires
        index <= u8::MAX,
    ensures
        byte as usize == index,
{
    index as u8
}

fn count_non_free<const MTU: usize>(descriptors: &Vec<DmaDescriptor<MTU>>) -> (count: usize)
    ensures
        count == count_in_flight(descriptors@.map_values(|d: DmaDescriptor<MTU>| d.view_descriptor()), descriptors@.len() as int),
{
    let ghost views = descriptors@.map_values(|d: DmaDescriptor<MTU>| d.view_descriptor());
    let mut count: usize = 0;
    let mut i: usize = 0;
    while i < descriptors.len()
        invariant
            i <= descriptors@.len(),
            views == descriptors@.map_values(|d: DmaDescriptor<MTU>| d.view_descriptor()),
            count == count_in_flight(views, i as int),
            count <= i,
        decreases descriptors@.len() - i,
    {
        if descriptors[i].owner != DmaOwner::Free {
            count = count + 1;
        }
        i = i + 1;
    }
    count
}

fn find_owner_exec<const MTU: usize>(descriptors: &Vec<DmaDescriptor<MTU>>, cursor: usize, wanted: DmaOwner) -> (found: Option<usize>)
    ensures
        found is None <==> find_owner(owners_of(descriptors@.map_values(|d: DmaDescriptor<MTU>| d.view_descriptor())), cursor as int, wanted) is None,
        found matches Some(i) ==> i < descriptors@.len() && find_owner(
            owners_of(descriptors@.map_values(|d: DmaDescriptor<MTU>| d.view_descriptor())),
            cursor as int,
            wanted,
        ) == Some(i as int),
{
    let ghost owners = owners_of(descriptors@.map_values(|d: DmaDescriptor<MTU>| d.view_descriptor()));
    let len = descriptors.len();
    if len == 0 {
        return None;
    }
    let start = cursor % len;
    let mut offset: usize = 0;
    while offset < len
        invariant
            len == descriptors@.len(),
            len > 0,
            owners.len() == len,
            start == cursor % len,
            start < len,
            offset <= len,
            owners == owners_of(descriptors@.map_values(|d: DmaDescriptor<MTU>| d.view_descriptor())),
            find_owner(owners, cursor as int, wanted) == find_owner_from(owners, cursor as int, wanted, offset as int),
        decreases len - offset,
    {
        let index = if offset >= len - start {
            offset - (len - start)
        } else {
            start + offset
        };
        proof {
            lemma_wrap_index(cursor as int, offset as int, len as int);
        }
        assert(owners[index as int] == descriptors@[index as int].view_descriptor().owner);
        if descriptors[index].owner == wanted {
            return Some(index);
        }
        offset = offset + 1;
    }
    None
}

proof fn lemma_wrap_index(cursor: int, offset: int, len: int)
    requires
        0 <= cursor,
        0 <= offset < len,
    ensures
        (if cursor % len + offset >= len { cursor % len + offset - len } else { cursor % len + offset }) == (cursor + offset) % len,
{
    vstd::arithmetic::div_mod::lemma_add_mod_noop(cursor, offset, len);
    vstd::arithmetic::div_mod::lemma_small_mod(offset as nat, len as nat);
    let s = cursor % len + offset;
    if s >= len {
        vstd::arithmetic::div_mod::lemma_mod_sub_multiples_vanish(s, len);
        vstd::arithmetic::div_mod::lemma_small_mod((s - len) as nat, len as nat);
    } else {
        vstd::arithmetic::div_mod::lemma_small_mod(s as nat, len as nat);
    }
}

fn validate_handle<const MTU: usize>(descriptors: &Vec<DmaDescriptor<MTU>>, index: usize, generation: u16) -> (result: Result<usize, DmaRingError>)
    ensures
        match spec_validate(descriptors@.map_values(|d: DmaDescriptor<MTU>| d.view_descriptor()), index as int, generation) {
            Ok(i) => result == Ok::<usize, DmaRingError>(i as usize),
            Err(e) => result == Err::<usize, DmaRingError>(e),
        },
{
    if index >= descriptors.len() {
        return Err(DmaRingError::InvalidHandle);
    }
    if descriptors[index].generation != generation {
        return Err(DmaRingError::StaleHandle);
    }
    Ok(index)
}

fn set_owner<const MTU: usize>(descriptors: &mut Vec<DmaDescriptor<MTU>>, index: usize, owner: DmaOwner, length: usize)
    requires
        index < old(descriptors)@.len(),
        length <= MTU,
        old(descriptors)@[index as int].wf(),
    ensures
        final(descriptors)@.len() == old(descriptors)@.len(),
        final(descriptors)@[index as int].wf(),
        forall|k: int| 0 <= k < old(descriptors)@.len() && k != index ==> #[trigger] final(descriptors)@[k] == old(descriptors)@[k],
        final(descriptors)@.map_values(|d: DmaDescriptor<MTU>| d.view_descriptor()) == old(descriptors)@.map_values(
            |d: DmaDescriptor<MTU>| d.view_descriptor(),
        ).update(index as int, with_owner(old(descriptors)@[index as int].view_descriptor(), owner, length)),
{
    let mut descriptor = descriptors.remove(index);
    descriptor.owner = owner;
    descriptor.length = length;
    descriptors.insert(index, descriptor);
    assert(final_views_equal::<MTU>(descriptors@, old(descriptors)@, index as int, owner, length));
}

spec fn final_views_equal<const MTU: usize>(now: Seq<DmaDescriptor<MTU>>, before: Seq<DmaDescriptor<MTU>>, index: int, owner: DmaOwner, length: usize) -> bool {
    now.map_values(|d: DmaDescriptor<MTU>| d.view_descriptor()) =~= before.map_values(
        |d: DmaDescriptor<MTU>| d.view_descriptor(),
    ).update(index, with_owner(before[index].view_descriptor(), owner, length))
}

fn frame_bytes_mut<const MTU: usize>(descriptors: &mut Vec<DmaDescriptor<MTU>>, index: usize) -> (bytes: &mut [u8])
    requires
        index < old(descriptors)@.len(),
        old(descriptors)@[index as int].wf(),
    ensures
        bytes@ == old(descriptors)@[index as int].view_descriptor().bytes,
        final(descriptors)@.len() == old(descriptors)@.len(),
        forall|k: int| 0 <= k < old(descriptors)@.len() && k != index ==> #[trigger] final(descriptors)@[k] == old(descriptors)@[k],
        final(bytes)@.len() == MTU ==> final(descriptors)@[index as int].wf()
            && final(descriptors)@[index as int].view_descriptor() == (DescriptorView {
                bytes: final(bytes)@,
                ..old(descriptors)@[index as int].view_descriptor()
            }),
{
    let descriptor = &mut descriptors[index];
    let offset = descriptor.frame.offset;
    let storage = descriptor.frame.storage.as_mut_slice();
    let ghost storage_final = final(storage)@;
    let (head, tail) = storage.split_at_mut(offset);
    let (bytes, rest) = tail.split_at_mut(MTU);
    proof {
        assert(has_resolved(head));
        assert(has_resolved(rest));
        assert(final(bytes)@.len() == MTU ==> storage_final.subrange(offset as int, offset + MTU) =~= final(bytes)@);
    }
    bytes
}

} // verus!
