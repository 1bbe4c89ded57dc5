//! Precomputed cyclic frame plans: which process-image ranges go into which
//! datagrams, and how a datagram sequence is split into frames.
use vstd::prelude::*;
use crate::bytes::{splice, zeros};
use crate::wire::{
    body_size, frame_bytes, frame_len, lemma_body_size_push, Command, DatagramImage,
    FrameBuilder, WireError, MAX_ETHERNET_FRAME_LEN, MIN_ETHERNET_FRAME_LEN,
};

verus! {

#[derive(Clone, Copy, Debug, PartialEq, Eq, Structural)]
pub struct DatagramPlan {
    pub command: Command,
    pub index: u8,
    pub address: u32,
    pub payload_offset: usize,
    pub payload_len: usize,
    pub expected_wkc: u16,
}

impl DatagramPlan {
    pub fn empty() -> (plan: Self)
        ensures
            plan == (DatagramPlan {
                command: Command::Lrw,
                index: 0,
                address: 0,
                payload_offset: 0,
                payload_len: 0,
                expected_wkc: 0,
            }),
    {
        DatagramPlan {
            command: Command::Lrw,
            index: 0,
            address: 0,
            payload_offset: 0,
            payload_len: 0,
            expected_wkc: 0,
        }
    }
}

#[derive(Clone, Copy, Debug, PartialEq, Eq, Structural)]
pub enum PlanError {
    CapacityExceeded,
    DuplicateIndex,
    DatagramLengthOutOfBounds,
    FrameTooLarge,
    BufferTooSmall,
    ProcessImageOutOfBounds,
    Wire(WireError),
}

/// Encoded EtherCAT body size of the first `k` planned datagrams.
pub open spec fn plan_body_size(ds: Seq<DatagramPlan>, k: int) -> int
    decreases k,
{
    if k <= 0 {
        0
    } else {
        plan_body_size(ds, k - 1) + 12 + ds[k - 1].payload_len
    }
}

/// No two planned datagrams share an index.
pub open spec fn distinct_indices(ds: Seq<DatagramPlan>) -> bool {
    forall|i: int, j: int| 0 <= i < j < ds.len() ==> ds[i].index != ds[j].index
}

/// Whether a datagram index is already planned among `ds`.
pub open spec fn index_planned(ds: Seq<DatagramPlan>, index: u8) -> bool {
    exists|i: int| 0 <= i < ds.len() && (#[trigger] ds[i]).index == index
}

/// Why `datagram` cannot join a frame already planning `ds`, if it cannot.
pub open spec fn spec_push_error(ds: Seq<DatagramPlan>, capacity: int, datagram: DatagramPlan) -> Option<PlanError> {
    let next = plan_body_size(ds, ds.len() as int) + 12 + datagram.payload_len;
    if ds.len() >= capacity {
        Some(PlanError::CapacityExceeded)
    } else if index_planned(ds, datagram.index) {
        Some(PlanError::DuplicateIndex)
    } else if datagram.payload_len > 0x07FF {
        Some(PlanError::DatagramLengthOutOfBounds)
    } else if next > 0x07FF {
        Some(PlanError::FrameTooLarge)
    } else if 16 + next > MAX_ETHERNET_FRAME_LEN {
        Some(PlanError::FrameTooLarge)
    } else {
        None
    }
}

/// The datagram images a plan encodes from `image`.
pub open spec fn plan_images(ds: Seq<DatagramPlan>, image: Seq<u8>) -> Seq<DatagramImage> {
    Seq::new(
        ds.len(),
        |i: int|
            (
                ds[i].command,
                ds[i].index,
                ds[i].address,
                image.subrange(ds[i].payload_offset as int, ds[i].payload_offset + ds[i].payload_len),
            ),
    )
}

/// The error encoding datagram `i` would raise, given the earlier ones fit.
pub open spec fn plan_error_at(ds: Seq<DatagramPlan>, image_len: int, capacity: int, i: int) -> Option<PlanError> {
    if ds[i].payload_offset + ds[i].payload_len > image_len {
        Some(PlanError::ProcessImageOutOfBounds)
    } else if 16 + plan_body_size(ds, i + 1) > capacity {
        Some(PlanError::Wire(WireError::BufferTooSmall))
    } else {
        None
    }
}

/// The first error encoding the first `k` datagrams raises.
pub open spec fn first_plan_error(ds: Seq<DatagramPlan>, image_len: int, capacity: int, k: int) -> Option<PlanError>
    decreases k,
{
    if k <= 0 {
        None
    } else {
        match first_plan_error(ds, image_len, capacity, k - 1) {
            Some(e) => Some(e),
            None => plan_error_at(ds, image_len, capacity, k - 1),
        }
    }
}

pub proof fn lemma_plan_body_size_images(ds: Seq<DatagramPlan>, image: Seq<u8>, k: int)
    requires
        0 <= k <= ds.len(),
        forall|i: int| 0 <= i < k ==> (#[trigger] ds[i]).payload_offset + ds[i].payload_len <= image.len(),
    ensures
        body_size(plan_images(ds, image), k) == plan_body_size(ds, k),
    decreases k,
{
    if k > 0 {
        lemma_plan_body_size_images(ds, image, k - 1);
    }
}

pub proof fn lemma_plan_body_size_push(ds: Seq<DatagramPlan>, d: DatagramPlan, k: int)
    requires
        0 <= k <= ds.len(),
    ensures
        plan_body_size(ds.push(d), k) == plan_body_size(ds, k),
    decreases k,
{
    if k > 0 {
        lemma_plan_body_size_push(ds, d, k - 1);
        assert(ds.push(d)[k - 1] == ds[k - 1]);
    }
}

pub proof fn lemma_plan_body_size_monotone(ds: Seq<DatagramPlan>, j: int, k: int)
    requires
        0 <= j <= k <= ds.len(),
    ensures
        plan_body_size(ds, j) <= plan_body_size(ds, k),
    decreases k,
{
    if j < k {
        lemma_plan_body_size_monotone(ds, j, k - 1);
    }
}

pub proof fn lemma_first_plan_error_persists(ds: Seq<DatagramPlan>, image_len: int, capacity: int, k: int, m: int)
    requires
        0 <= k <= m,
        first_plan_error(ds, image_len, capacity, k) is Some,
    ensures
        first_plan_error(ds, image_len, capacity, m) == first_plan_error(ds, image_len, capacity, k),
    decreases m,
{
    if m > k {
        lemma_first_plan_error_persists(ds, image_len, capacity, k, m - 1);
    }
}

pub proof fn lemma_first_plan_error_none(ds: Seq<DatagramPlan>, image_len: int, capacity: int, k: int)
    requires
        0 <= k <= ds.len(),
        first_plan_error(ds, image_len, capacity, k) is None,
    ensures
        forall|i: int| 0 <= i < k ==> (#[trigger] ds[i]).payload_offset + ds[i].payload_len <= image_len,
        k > 0 ==> 16 + plan_body_size(ds, k) <= capacity,
    decreases k,
{
    if k > 0 {
        lemma_first_plan_error_none(ds, image_len, capacity, k - 1);
    }
}

/// What building the planned datagrams `ds` into a buffer does: an empty
/// plan or a buffer below the Ethernet minimum is refused, then the first
/// datagram that does not fit the image or the buffer; otherwise the whole
/// frame is written at the start of the buffer. A refused build leaves the
/// buffer as it was.
pub open spec fn build_outcome(
    ds: Seq<DatagramPlan>,
    before: Seq<u8>,
    after: Seq<u8>,
    destination: Seq<u8>,
    source: Seq<u8>,
    image: Seq<u8>,
    result: Result<usize, PlanError>,
) -> bool {
    let capacity = if before.len() < MAX_ETHERNET_FRAME_LEN {
        before.len() as int
    } else {
        MAX_ETHERNET_FRAME_LEN as int
    };
    &&& (result is Err ==> after == before)
    &&& after.len() == before.len()
    &&& if ds.len() == 0 {
        result == Err::<usize, PlanError>(PlanError::Wire(WireError::DatagramHeaderTruncated))
    } else if before.len() < MIN_ETHERNET_FRAME_LEN {
        result == Err::<usize, PlanError>(PlanError::BufferTooSmall)
    } else {
        match first_plan_error(ds, image.len() as int, capacity, ds.len() as int) {
            Some(e) => result == Err::<usize, PlanError>(e),
            None => {
                let images = plan_images(ds, image);
                result matches Ok(length) && length == frame_len(images) && after == splice(
                    before,
                    0,
                    frame_bytes(destination, source, images) + zeros(
                        (length - 16 - body_size(images, images.len() as int)) as nat,
                    ),
                )
            },
        }
    }
}

#[derive(Clone, Debug, PartialEq, Eq)]
pub struct FramePlan<const DATAGRAMS: usize> {
    datagrams: Vec<DatagramPlan>,
    payload_len: usize,
}

impl<const DATAGRAMS: usize> FramePlan<DATAGRAMS> {
    pub closed spec fn spec_datagrams(&self) -> Seq<DatagramPlan> {
        self.datagrams@
    }

    pub closed spec fn wf(&self) -> bool {
        &&& self.payload_len == plan_body_size(self.datagrams@, self.datagrams@.len() as int)
        &&& self.payload_len <= 0x07FF
        &&& 16 + self.payload_len <= MAX_ETHERNET_FRAME_LEN
        &&& self.datagrams@.len() <= DATAGRAMS
        &&& distinct_indices(self.datagrams@)
    }

    /// A well-formed plan never repeats a datagram index.
    pub proof fn lemma_distinct(&self)
        requires
            self.wf(),
        ensures
            distinct_indices(self.spec_datagrams()),
    {
    }

    pub fn new() -> (plan: Self)
        ensures
            plan.wf(),
            plan.spec_datagrams() == Seq::<DatagramPlan>::empty(),
    {
        FramePlan { datagrams: Vec::new(), payload_len: 0 }
    }

    /// An independent copy of this plan.
    pub fn duplicate(&self) -> (copy: Self)
        requires
            self.wf(),
        ensures
            copy.wf(),
            copy.spec_datagrams() == self.spec_datagrams(),
    {
        let mut datagrams: Vec<DatagramPlan> = Vec::new();
        let mut i: usize = 0;
        while i < self.datagrams.len()
            invariant
                i <= self.datagrams@.len(),
                datagrams@ == self.datagrams@.subrange(0, i as int),
            decreases self.datagrams@.len() - i,
        {
            datagrams.push(self.datagrams[i]);
            i = i + 1;
            assert(datagrams@ =~= self.datagrams@.subrange(0, i as int));
        }
        assert(datagrams@ =~= self.datagrams@);
        FramePlan { datagrams, payload_len: self.payload_len }
    }

    /// Append one datagram when it fits the frame's datagram capacity and
    /// EtherCAT/Ethernet size limits and its index is new to the frame.
    #[verifier::loop_isolation(false)]
    pub fn push(&mut self, datagram: DatagramPlan) -> (result: Result<(), PlanError>)
        requires
            old(self).wf(),
        ensures
            final(self).wf(),
            match spec_push_error(old(self).spec_datagrams(), DATAGRAMS as int, datagram) {
                Some(e) => result == Err::<(), PlanError>(e) && final(self).spec_datagrams() == old(self).spec_datagrams(),
                None => result is Ok && final(self).spec_datagrams() == old(self).spec_datagrams().push(datagram),
            },
    {
        let count = self.datagrams.len();
        if count >= DATAGRAMS {
            return Err(PlanError::CapacityExceeded);
        }
        let mut i: usize = 0;
        while i < count
            invariant
                i <= count,
                forall|k: int| 0 <= k < i ==> self.datagrams@[k].index != datagram.index,
            decreases count - i,
        {
            if self.datagrams[i].index == datagram.index {
                return Err(PlanError::DuplicateIndex);
            }
            i = i + 1;
        }
        if datagram.payload_len > 0x07FF {
            return Err(PlanError::DatagramLengthOutOfBounds);
        }
        let next = self.payload_len + 12 + datagram.payload_len;
        if next > 0x07FF {
            return Err(PlanError::FrameTooLarge);
        }
        if 16 + next > MAX_ETHERNET_FRAME_LEN {
            return Err(PlanError::FrameTooLarge);
        }
        let ghost before = self.datagrams@;
        self.datagrams.push(datagram);
        self.payload_len = next;
        proof {
            lemma_plan_body_size_push(before, datagram, before.len() as int);
        }
        Ok(())
    }

    pub fn len(&self) -> (len: usize)
        ensures
            len == self.spec_datagrams().len(),
    {
        self.datagrams.len()
    }

    pub fn is_empty(&self) -> (empty: bool)
        ensures
            empty == (self.spec_datagrams().len() == 0),
    {
        self.datagrams.len() == 0
    }

    /// Encoded EtherCAT body size of the planned datagrams.
    pub fn payload_len(&self) -> (len: usize)
        requires
            self.wf(),
        ensures
            len == plan_body_size(self.spec_datagrams(), self.spec_datagrams().len() as int),
    {
        self.payload_len
    }

    pub fn datagrams(&self) -> (datagrams: &[DatagramPlan])
        ensures
            datagrams@ == self.spec_datagrams(),
    {
        self.datagrams.as_slice()
    }

    /// Encode the planned datagrams with payloads taken from `process_image`.
    #[verifier::loop_isolation(false)]
    pub fn build(&self, buffer: &mut [u8], destination: [u8; 6], source: [u8; 6], process_image: &[u8]) -> (result: Result<usize, PlanError>)
        requires
            self.wf(),
        ensures
            build_outcome(self.spec_datagrams(), old(buffer)@, final(buffer)@, destination@, source@, process_image@, result),
    {
        let count = self.datagrams.len();
        if count == 0 {
            return Err(PlanError::Wire(WireError::DatagramHeaderTruncated));
        }
        if buffer.len() < MIN_ETHERNET_FRAME_LEN {
            return Err(PlanError::BufferTooSmall);
        }
        let ghost ds = self.datagrams@;
        let ghost capacity = if buffer@.len() < MAX_ETHERNET_FRAME_LEN {
            buffer@.len() as int
        } else {
            MAX_ETHERNET_FRAME_LEN as int
        };
        let ghost image_len = process_image@.len() as int;
        let _image_len = process_image.len();
        let mut builder = match FrameBuilder::new(buffer.len(), destination, source) {
            Ok(builder) => builder,
            Err(error) => return Err(PlanError::Wire(error)),
        };
        let mut i: usize = 0;
        while i < count
            invariant
                i <= count,
                builder.wf(),
                builder.spec_destination() == destination@,
                builder.spec_source() == source@,
                builder.spec_capacity() == capacity,
                first_plan_error(ds, image_len, capacity, i as int) is None,
                builder.images() == plan_images(ds, process_image@).subrange(0, i as int),
            decreases count - i,
        {
            let datagram = self.datagrams[i];
            proof {
                lemma_first_plan_error_none(ds, image_len, capacity, i as int);
                lemma_plan_body_size_images(ds, process_image@, i as int);
                assert(plan_images(ds, process_image@).subrange(0, i as int) =~= plan_images(ds.subrange(0, i as int), process_image@));
            }
            let end = match datagram.payload_offset.checked_add(datagram.payload_len) {
                Some(end) => end,
                None => {
                    proof { lemma_first_plan_error_persists(ds, image_len, capacity, i + 1, count as int); }
                    return Err(PlanError::ProcessImageOutOfBounds);
                },
            };
            if end > process_image.len() {
                proof { lemma_first_plan_error_persists(ds, image_len, capacity, i + 1, count as int); }
                return Err(PlanError::ProcessImageOutOfBounds);
            }
            let payload = &process_image[datagram.payload_offset..end];
            proof {
                assert(body_size(builder.images(), builder.images().len() as int) == plan_body_size(ds, i as int)) by {
                    lemma_plan_body_size_images(ds, process_image@, i as int);
                    assert forall|j: int| 0 <= j < i implies body_size(builder.images(), j) == body_size(plan_images(ds, process_image@), j) by {
                        lemma_body_size_prefix(builder.images(), plan_images(ds, process_image@), j);
                    }
                    lemma_body_size_prefix(builder.images(), plan_images(ds, process_image@), i as int);
                }
                lemma_plan_body_size_monotone(ds, i + 1, count as int);
            }
            proof { crate::wire::lemma_body_bytes_len(builder.images(), builder.images().len() as int); }
            let ghost nb = body_size(builder.images(), builder.images().len() as int) + 12 + payload@.len();
            assert(nb == plan_body_size(ds, i + 1));
            assert(nb <= 0x07FF);
            match builder.push(datagram.command, datagram.index, datagram.address, payload) {
                Ok(()) => {},
                Err(error) => {
                    assert(payload@.len() == ds[i as int].payload_len);
                    assert(plan_body_size(ds, i + 1) == plan_body_size(ds, i as int) + 12 + ds[i as int].payload_len);
                    assert(error == WireError::BufferTooSmall);
                    assert(plan_error_at(ds, image_len, capacity, i as int) == Some(PlanError::Wire(WireError::BufferTooSmall)));
                    proof { lemma_first_plan_error_persists(ds, image_len, capacity, i + 1, count as int); }
                    return Err(PlanError::Wire(error));
                },
            }
            i = i + 1;
            assert(builder.images() =~= plan_images(ds, process_image@).subrange(0, i as int));
        }
        assert(builder.images() =~= plan_images(ds, process_image@));
        proof {
            lemma_first_plan_error_none(ds, image_len, capacity, count as int);
            lemma_plan_body_size_images(ds, process_image@, count as int);
        }
        match builder.finish(buffer) {
            Ok(length) => Ok(length),
            Err(error) => Err(PlanError::Wire(error)),
        }
    }
}

/// `body_size` only depends on the first `k` images.
pub proof fn lemma_body_size_prefix(left: Seq<DatagramImage>, right: Seq<DatagramImage>, k: int)
    requires
        0 <= k <= left.len(),
        k <= right.len(),
        forall|j: int| 0 <= j < k ==> left[j] == right[j],
    ensures
        body_size(left, k) == body_size(right, k),
    decreases k,
{
    if k > 0 {
        lemma_body_size_prefix(left, right, k - 1);
    }
}

#[derive(Clone, Copy, Debug, PartialEq, Eq, Structural)]
pub enum FramePlanSetError {
    CapacityExceeded,
    DuplicateIndex,
    Plan(PlanError),
}

/// Whether any frame of `frames` already plans datagram `index`.
pub open spec fn set_has_index(frames: Seq<Seq<DatagramPlan>>, index: u8) -> bool {
    exists|f: int| 0 <= f < frames.len() && index_planned(#[trigger] frames[f], index)
}

/// Append one datagram to the frame set: into the last frame while it fits,
/// otherwise into a new frame.
pub open spec fn spec_append_one(frames: Seq<Seq<DatagramPlan>>, max_frames: int, capacity: int, d: DatagramPlan) -> Result<Seq<Seq<DatagramPlan>>, FramePlanSetError> {
    if set_has_index(frames, d.index) {
        Err(FramePlanSetError::DuplicateIndex)
    } else if frames.len() == 0 && max_frames == 0 {
        Err(FramePlanSetError::CapacityExceeded)
    } else {
        let opened = if frames.len() == 0 { seq![Seq::<DatagramPlan>::empty()] } else { frames };
        let last = opened.len() - 1;
        match spec_push_error(opened[last], capacity, d) {
            None => Ok(opened.update(last, opened[last].push(d))),
            Some(PlanError::CapacityExceeded) | Some(PlanError::FrameTooLarge) => if opened.len() >= max_frames {
                Err(FramePlanSetError::CapacityExceeded)
            } else {
                match spec_push_error(Seq::<DatagramPlan>::empty(), capacity, d) {
                    None => Ok(opened.push(seq![d])),
                    Some(e) => Err(FramePlanSetError::Plan(e)),
                }
            },
            Some(PlanError::DuplicateIndex) => Err(FramePlanSetError::DuplicateIndex),
            Some(e) => Err(FramePlanSetError::Plan(e)),
        }
    }
}

/// Append the first `k` datagrams of `ds` in order, stopping at the first error.
pub open spec fn spec_append_all(frames: Seq<Seq<DatagramPlan>>, max_frames: int, capacity: int, ds: Seq<DatagramPlan>, k: int) -> Result<Seq<Seq<DatagramPlan>>, FramePlanSetError>
    decreases k,
{
    if k <= 0 {
        Ok(frames)
    } else {
        match spec_append_all(frames, max_frames, capacity, ds, k - 1) {
            Err(e) => Err(e),
            Ok(prior) => spec_append_one(prior, max_frames, capacity, ds[k - 1]),
        }
    }
}

pub proof fn lemma_append_all_error_persists(frames: Seq<Seq<DatagramPlan>>, max_frames: int, capacity: int, ds: Seq<DatagramPlan>, k: int, m: int)
    requires
        0 <= k <= m,
        spec_append_all(frames, max_frames, capacity, ds, k) is Err,
    ensures
        spec_append_all(frames, max_frames, capacity, ds, m) == spec_append_all(frames, max_frames, capacity, ds, k),
    decreases m,
{
    if m > k {
        lemma_append_all_error_persists(frames, max_frames, capacity, ds, k, m - 1);
    }
}

/// Fixed-capacity collection of frames produced from one deterministic
/// datagram sequence. A failed append leaves every frame unchanged.
#[derive(Clone, Debug, PartialEq, Eq)]
pub struct FramePlanSet<const FRAMES: usize, const DATAGRAMS: usize> {
    plans: Vec<FramePlan<DATAGRAMS>>,
}

impl<const FRAMES: usize, const DATAGRAMS: usize> FramePlanSet<FRAMES, DATAGRAMS> {
    /// The datagrams of each frame.
    pub closed spec fn spec_frames(&self) -> Seq<Seq<DatagramPlan>> {
        self.plans@.map_values(|p: FramePlan<DATAGRAMS>| p.spec_datagrams())
    }

    pub closed spec fn wf(&self) -> bool {
        &&& self.plans@.len() <= FRAMES
        &&& forall|i: int| 0 <= i < self.plans@.len() ==> (#[trigger] self.plans@[i]).wf()
    }

    pub fn new() -> (set: Self)
        ensures
            set.wf(),
            set.spec_frames() == Seq::<Seq<DatagramPlan>>::empty(),
    {
        let set = FramePlanSet { plans: Vec::new() };
        assert(set.spec_frames() =~= Seq::<Seq<DatagramPlan>>::empty());
        set
    }

    /// A well-formed set has at most `FRAMES` frames.
    pub proof fn lemma_wf_frames(&self)
        requires
            self.wf(),
        ensures
            self.spec_frames().len() <= FRAMES,
    {
    }

    pub fn frame_count(&self) -> (count: usize)
        ensures
            count == self.spec_frames().len(),
    {
        self.plans.len()
    }

    pub fn len(&self) -> (count: usize)
        ensures
            count == self.spec_frames().len(),
    {
        self.plans.len()
    }

    pub fn is_empty(&self) -> (empty: bool)
        ensures
            empty == (self.spec_frames().len() == 0),
    {
        self.plans.len() == 0
    }

    pub fn plans(&self) -> (plans: &[FramePlan<DATAGRAMS>])
        ensures
            plans@.map_values(|p: FramePlan<DATAGRAMS>| p.spec_datagrams()) == self.spec_frames(),
            self.wf() ==> forall|i: int| 0 <= i < plans@.len() ==> (#[trigger] plans@[i]).wf(),
    {
        self.plans.as_slice()
    }

    pub fn plan(&self, index: usize) -> (plan: Option<&FramePlan<DATAGRAMS>>)
        ensures
            index < self.spec_frames().len() ==> (plan matches Some(p) && p.spec_datagrams() == self.spec_frames()[index as int]
                && (self.wf() ==> p.wf())),
            index >= self.spec_frames().len() ==> plan is None,
    {
        if index < self.plans.len() {
            Some(&self.plans[index])
        } else {
            None
        }
    }

    /// Number of planned datagrams across all frames (saturating).
    pub fn datagram_count(&self) -> (count: usize)
        ensures
            count == if total_datagrams(self.spec_frames(), self.spec_frames().len() as int) > usize::MAX {
                usize::MAX as int
            } else {
                total_datagrams(self.spec_frames(), self.spec_frames().len() as int)
            },
    {
        let mut count: usize = 0;
        let mut i: usize = 0;
        while i < self.plans.len()
            invariant
                i <= self.plans@.len(),
                count == if total_datagrams(self.spec_frames(), i as int) > usize::MAX {
                    usize::MAX as int
                } else {
                    total_datagrams(self.spec_frames(), i as int)
                },
            decreases self.plans@.len() - i,
        {
            assert(self.spec_frames()[i as int] == self.plans@[i as int].spec_datagrams());
            proof { lemma_total_datagrams_nonneg(self.spec_frames(), i as int); }
            count = count.saturating_add(self.plans[i].len());
            i = i + 1;
        }
        count
    }

    /// Append one datagram (see `append_datagrams`).
    pub fn push(&mut self, datagram: DatagramPlan) -> (result: Result<(), FramePlanSetError>)
        requires
            old(self).wf(),
        ensures
            final(self).wf(),
            match spec_append_one(old(self).spec_frames(), FRAMES as int, DATAGRAMS as int, datagram) {
                Ok(frames) => result is Ok && final(self).spec_frames() == frames,
                Err(e) => result == Err::<(), FramePlanSetError>(e) && final(self).spec_frames() == old(self).spec_frames(),
            },
    {
        self.append_datagram(datagram)
    }

    /// Append one datagram (see `append_datagrams`).
    pub fn append_datagram(&mut self, datagram: DatagramPlan) -> (result: Result<(), FramePlanSetError>)
        requires
            old(self).wf(),
        ensures
            final(self).wf(),
            match spec_append_one(old(self).spec_frames(), FRAMES as int, DATAGRAMS as int, datagram) {
                Ok(frames) => result is Ok && final(self).spec_frames() == frames,
                Err(e) => result == Err::<(), FramePlanSetError>(e) && final(self).spec_frames() == old(self).spec_frames(),
            },
    {
        let one = [datagram];
        assert(one@[0] == datagram);
        assert(spec_append_all(old(self).spec_frames(), FRAMES as int, DATAGRAMS as int, one@, 0) == Ok::<Seq<Seq<DatagramPlan>>, FramePlanSetError>(old(self).spec_frames()));
        let result = self.append_datagrams(one.as_slice());
        match result {
            Ok(_) => Ok(()),
            Err(e) => Err(e),
        }
    }

    /// Append datagrams in order. A new frame is opened only when the
    /// current one cannot take the next datagram; on any error nothing is
    /// published.
    pub fn append_datagrams(&mut self, datagrams: &[DatagramPlan]) -> (result: Result<usize, FramePlanSetError>)
        requires
            old(self).wf(),
        ensures
            final(self).wf(),
            match spec_append_all(old(self).spec_frames(), FRAMES as int, DATAGRAMS as int, datagrams@, datagrams@.len() as int) {
                Ok(frames) => result == Ok::<usize, FramePlanSetError>(datagrams@.len() as usize) && final(self).spec_frames() == frames,
                Err(e) => result == Err::<usize, FramePlanSetError>(e) && final(self).spec_frames() == old(self).spec_frames(),
            },
    {
        let mut next: Vec<FramePlan<DATAGRAMS>> = Vec::new();
        let mut c: usize = 0;
        while c < self.plans.len()
            invariant
                old(self).wf(),
                self.plans@ == old(self).plans@,
                c <= self.plans@.len(),
                next@.len() == c,
                forall|i: int| 0 <= i < c ==> (#[trigger] next@[i]).wf() && next@[i].spec_datagrams() == self.plans@[i].spec_datagrams(),
            decreases self.plans@.len() - c,
        {
            next.push(self.plans[c].duplicate());
            c = c + 1;
        }
        let ghost start = self.spec_frames();
        assert(next@.map_values(|p: FramePlan<DATAGRAMS>| p.spec_datagrams()) =~= start);
        let count = datagrams.len();
        let mut appended: usize = 0;
        while appended < count
            invariant
                count == datagrams@.len(),
                appended <= count,
                old(self).wf(),
                next@.len() <= FRAMES,
                forall|i: int| 0 <= i < next@.len() ==> (#[trigger] next@[i]).wf(),
                self.plans@ == old(self).plans@,
                start == old(self).spec_frames(),
                spec_append_all(start, FRAMES as int, DATAGRAMS as int, datagrams@, appended as int)
                    == Ok::<Seq<Seq<DatagramPlan>>, FramePlanSetError>(next@.map_values(|p: FramePlan<DATAGRAMS>| p.spec_datagrams())),
            decreases count - appended,
        {
            let datagram = datagrams[appended];
            let step = append_one_exec::<FRAMES, DATAGRAMS>(&mut next, datagram);
            match step {
                Ok(()) => {},
                Err(e) => {
                    proof {
                        lemma_append_all_error_persists(start, FRAMES as int, DATAGRAMS as int, datagrams@, appended + 1, count as int);
                    }
                    return Err(e);
                },
            }
            appended = appended + 1;
        }
        self.plans = next;
        Ok(appended)
    }
}

pub proof fn lemma_total_datagrams_nonneg(frames: Seq<Seq<DatagramPlan>>, n: int)
    ensures
        total_datagrams(frames, n) >= 0,
    decreases n,
{
    if n > 0 {
        lemma_total_datagrams_nonneg(frames, n - 1);
    }
}

pub proof fn lemma_set_has_index(frames: Seq<Seq<DatagramPlan>>, f: int, j: int)
    requires
        0 <= f < frames.len(),
        0 <= j < frames[f].len(),
    ensures
        set_has_index(frames, frames[f][j].index),
{
    assert(index_planned(frames[f], frames[f][j].index));
}

/// Append one datagram to `frames` as `spec_append_one` describes.
#[verifier::loop_isolation(false)]
fn append_one_exec<const FRAMES: usize, const DATAGRAMS: usize>(frames: &mut Vec<FramePlan<DATAGRAMS>>, datagram: DatagramPlan) -> (result: Result<(), FramePlanSetError>)
    requires
        old(frames)@.len() <= FRAMES,
        forall|i: int| 0 <= i < old(frames)@.len() ==> (#[trigger] old(frames)@[i]).wf(),
    ensures
        final(frames)@.len() <= FRAMES,
        forall|i: int| 0 <= i < final(frames)@.len() ==> (#[trigger] final(frames)@[i]).wf(),
        match spec_append_one(old(frames)@.map_values(|p: FramePlan<DATAGRAMS>| p.spec_datagrams()), FRAMES as int, DATAGRAMS as int, datagram) {
            Ok(next) => result is Ok && final(frames)@.map_values(|p: FramePlan<DATAGRAMS>| p.spec_datagrams()) == next,
            Err(e) => result == Err::<(), FramePlanSetError>(e),
        },
{
    let ghost view = frames@.map_values(|p: FramePlan<DATAGRAMS>| p.spec_datagrams());
    let count = frames.len();
    let mut f: usize = 0;
    while f < count
        invariant
            f <= count,
            frames@.len() == count,
            forall|g: int| 0 <= g < f ==> !index_planned(#[trigger] view[g], datagram.index),
        decreases count - f,
    {
        let plan = &frames[f];
        let items = plan.datagrams();
        let mut j: usize = 0;
        while j < items.len()
            invariant
                j <= items@.len(),
                items@ == view[f as int],
                forall|k: int| 0 <= k < j ==> items@[k].index != datagram.index,
            decreases items@.len() - j,
        {
            if items[j].index == datagram.index {
                proof { lemma_set_has_index(view, f as int, j as int); }
                return Err(FramePlanSetError::DuplicateIndex);
            }
            j = j + 1;
        }
        f = f + 1;
    }
    assert(!set_has_index(view, datagram.index));
    if count == 0 {
        if FRAMES == 0 {
            return Err(FramePlanSetError::CapacityExceeded);
        }
        frames.push(FramePlan::new());
        assert(frames@.map_values(|p: FramePlan<DATAGRAMS>| p.spec_datagrams()) =~= seq![Seq::<DatagramPlan>::empty()]);
    } else {
        assert(frames@.map_values(|p: FramePlan<DATAGRAMS>| p.spec_datagrams()) =~= view);
    }
    let ghost opened = frames@.map_values(|p: FramePlan<DATAGRAMS>| p.spec_datagrams());
    let ghost before = frames@;
    let mut last = frames.pop().unwrap();
    assert(before[before.len() - 1] == last);
    assert(last.wf());
    match last.push(datagram) {
        Ok(()) => {
            frames.push(last);
            assert(frames@.map_values(|p: FramePlan<DATAGRAMS>| p.spec_datagrams()) =~= opened.update(opened.len() - 1, opened[opened.len() - 1].push(datagram)));
            Ok(())
        },
        Err(PlanError::CapacityExceeded) | Err(PlanError::FrameTooLarge) => {
            frames.push(last);
            assert(frames@.map_values(|p: FramePlan<DATAGRAMS>| p.spec_datagrams()) =~= opened);
            if frames.len() >= FRAMES {
                return Err(FramePlanSetError::CapacityExceeded);
            }
            let mut fresh: FramePlan<DATAGRAMS> = FramePlan::new();
            match fresh.push(datagram) {
                Ok(()) => {},
                Err(e) => return Err(FramePlanSetError::Plan(e)),
            }
            frames.push(fresh);
            assert(frames@.map_values(|p: FramePlan<DATAGRAMS>| p.spec_datagrams()) =~= opened.push(seq![datagram]));
            Ok(())
        },
        Err(PlanError::DuplicateIndex) => Err(FramePlanSetError::DuplicateIndex),
        Err(e) => Err(FramePlanSetError::Plan(e)),
    }
}

/// Number of datagrams in the first `n` frames.
pub open spec fn total_datagrams(frames: Seq<Seq<DatagramPlan>>, n: int) -> int
    decreases n,
{
    if n <= 0 {
        0
    } else {
        total_datagrams(frames, n - 1) + frames[n - 1].len()
    }
}

} // verus!
