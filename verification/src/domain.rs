//! Fixed-layout EtherCAT Domain with a staging page.
//!
//! A received page is never published until every configured segment for its
//! generation has been staged. Failed or incomplete receives retain the last
//! committed input image and only update quality metadata.
use vstd::prelude::*;
use crate::bytes::{splice, write_bytes};
use crate::engine::RxDatagramConsumer;
use crate::rx_index::RxMatch;
use crate::wire::DatagramHeader;

verus! {

#[derive(Clone, Copy, Debug, PartialEq, Eq, Structural)]
pub struct DomainSegment {
    pub datagram_index: u8,
    pub input_offset: usize,
    pub len: usize,
    pub expected_wkc: u16,
}

#[derive(Clone, Copy, Debug, PartialEq, Eq, Structural)]
pub struct DomainQuality {
    pub expected_wkc: u16,
    pub actual_wkc: u16,
    pub valid: bool,
    pub complete: bool,
    pub last_valid_cycle: u64,
    pub input_age_cycles: u64,
}

impl DomainQuality {
    pub open spec fn spec_empty() -> DomainQuality {
        DomainQuality {
            expected_wkc: 0,
            actual_wkc: 0,
            valid: false,
            complete: false,
            last_valid_cycle: 0,
            input_age_cycles: 0,
        }
    }

    pub fn empty() -> (quality: Self)
        ensures
            quality == Self::spec_empty(),
    {
        DomainQuality {
            expected_wkc: 0,
            actual_wkc: 0,
            valid: false,
            complete: false,
            last_valid_cycle: 0,
            input_age_cycles: 0,
        }
    }
}

#[derive(Clone, Copy, Debug, PartialEq, Eq, Structural)]
pub enum DomainError {
    TooManySegments,
    EmptyDomain,
    DuplicateDatagramIndex,
    SegmentOutOfBounds,
    ExpectedWkcOverflow,
    NoActiveReceive,
    GenerationMismatch,
    UnknownDatagramIndex,
    DuplicateDatagram,
    PayloadLengthMismatch,
}

/// The first segment staged by the datagram with `index`, if any.
pub open spec fn spec_segment_position(segments: Seq<DomainSegment>, index: u8) -> Option<int> {
    if exists|i: int| 0 <= i < segments.len() && (#[trigger] segments[i]).datagram_index == index {
        Some(
            choose|i: int|
                0 <= i < segments.len() && (#[trigger] segments[i]).datagram_index == index
                    && forall|k: int| 0 <= k < i ==> segments[k].datagram_index != index,
        )
    } else {
        None
    }
}

/// Every flag is set.
pub open spec fn all_true(flags: Seq<bool>) -> bool {
    forall|i: int| 0 <= i < flags.len() ==> #[trigger] flags[i]
}

pub proof fn lemma_all_true_push(flags: Seq<bool>, flag: bool)
    ensures
        all_true(flags.push(flag)) == (all_true(flags) && flag),
{
    if all_true(flags) && flag {
        assert forall|i: int| 0 <= i < flags.push(flag).len() implies #[trigger] flags.push(flag)[i] by {
            if i < flags.len() {
                assert(flags.push(flag)[i] == flags[i]);
            }
        }
    }
    if all_true(flags.push(flag)) {
        assert(flags.push(flag)[flags.len() as int] == flag);
        assert forall|i: int| 0 <= i < flags.len() implies #[trigger] flags[i] by {
            assert(flags.push(flag)[i] == flags[i]);
        }
    }
}

pub open spec fn sum_expected_wkc(segments: Seq<DomainSegment>, n: int) -> int
    decreases n,
{
    if n <= 0 {
        0
    } else {
        sum_expected_wkc(segments, n - 1) + segments[n - 1].expected_wkc
    }
}

/// The staging bookkeeping of a receive: which segments arrived, whether a
/// datagram was refused, and the working counters added up so far.
pub struct DomainStage {
    pub received: Seq<bool>,
    pub staging_error: bool,
    pub actual_wkc: u16,
}

/// The bookkeeping and the result after staging a datagram with `index`,
/// `len` payload bytes and working counter `wkc` under `generation`, on a
/// Domain with `segments` whose active receive is `active`.
pub open spec fn staged(
    segments: Seq<DomainSegment>,
    active: Option<u16>,
    s: DomainStage,
    generation: u16,
    index: u8,
    len: nat,
    wkc: u16,
) -> (DomainStage, Result<(), DomainError>) {
    if active != Some(generation) {
        (s, Err(DomainError::GenerationMismatch))
    } else {
        match spec_segment_position(segments, index) {
            None => (s, Err(DomainError::UnknownDatagramIndex)),
            Some(i) => if s.received[i] {
                (DomainStage { staging_error: true, ..s }, Err(DomainError::DuplicateDatagram))
            } else if len != segments[i].len {
                (DomainStage { staging_error: true, ..s }, Err(DomainError::PayloadLengthMismatch))
            } else {
                (
                    DomainStage {
                        received: s.received.update(i, true),
                        actual_wkc: if s.actual_wkc + wkc > u16::MAX {
                            u16::MAX
                        } else {
                            (s.actual_wkc + wkc) as u16
                        },
                        ..s
                    },
                    Ok(()),
                )
            },
        }
    }
}

/// The staging page after staging `payload` as the datagram with `index`:
/// the payload lands at its segment's offset when staging succeeds.
pub open spec fn staged_page(
    segments: Seq<DomainSegment>,
    staging: Seq<u8>,
    index: u8,
    payload: Seq<u8>,
    accepted: bool,
) -> Seq<u8> {
    if accepted {
        splice(staging, segments[spec_segment_position(segments, index)->Some_0].input_offset as int, payload)
    } else {
        staging
    }
}

pub struct Domain<const BYTES: usize, const SEGMENTS: usize> {
    logical_address: u32,
    segments: Vec<DomainSegment>,
    expected_wkc: u16,
    output: Vec<u8>,
    staging: Vec<u8>,
    committed: Vec<u8>,
    active_generation: Option<u16>,
    received: Vec<bool>,
    staging_error: bool,
    actual_wkc: u16,
    quality: DomainQuality,
}

impl<const BYTES: usize, const SEGMENTS: usize> Domain<BYTES, SEGMENTS> {
    pub closed spec fn spec_logical_address(&self) -> u32 {
        self.logical_address
    }

    pub closed spec fn spec_segments(&self) -> Seq<DomainSegment> {
        self.segments@
    }

    pub closed spec fn spec_expected_wkc(&self) -> u16 {
        self.expected_wkc
    }

    pub closed spec fn spec_committed(&self) -> Seq<u8> {
        self.committed@
    }

    pub closed spec fn spec_staging(&self) -> Seq<u8> {
        self.staging@
    }

    pub closed spec fn spec_output(&self) -> Seq<u8> {
        self.output@
    }

    pub closed spec fn spec_quality(&self) -> DomainQuality {
        self.quality
    }

    pub closed spec fn spec_active_generation(&self) -> Option<u16> {
        self.active_generation
    }

    pub closed spec fn spec_received(&self) -> Seq<bool> {
        self.received@
    }

    pub closed spec fn spec_staging_error(&self) -> bool {
        self.staging_error
    }

    pub closed spec fn spec_actual_wkc(&self) -> u16 {
        self.actual_wkc
    }

    pub open spec fn spec_stage(&self) -> DomainStage {
        DomainStage {
            received: self.spec_received(),
            staging_error: self.spec_staging_error(),
            actual_wkc: self.spec_actual_wkc(),
        }
    }

    pub closed spec fn wf(&self) -> bool {
        &&& self.output@.len() == BYTES
        &&& self.staging@.len() == BYTES
        &&& self.committed@.len() == BYTES
        &&& self.received@.len() == self.segments@.len()
        &&& self.segments@.len() <= SEGMENTS
        &&& self.segments@.len() <= 64
        &&& self.expected_wkc == sum_expected_wkc(self.segments@, self.segments@.len() as int)
        &&& self.quality.expected_wkc == self.expected_wkc
        &&& forall|i: int|
            0 <= i < self.segments@.len() ==> (#[trigger] self.segments@[i]).input_offset
                + self.segments@[i].len <= BYTES
    }

    pub fn new(logical_address: u32) -> (domain: Self)
        ensures
            domain.wf(),
            domain.spec_logical_address() == logical_address,
            domain.spec_segments() == Seq::<DomainSegment>::empty(),
            domain.spec_committed() == Seq::new(BYTES as nat, |i: int| 0u8),
            domain.spec_output() == Seq::new(BYTES as nat, |i: int| 0u8),
            domain.spec_quality() == DomainQuality::spec_empty(),
            domain.spec_active_generation() is None,
    {
        let domain = Domain {
            logical_address,
            segments: Vec::new(),
            expected_wkc: 0,
            output: vec![0u8; BYTES],
            staging: vec![0u8; BYTES],
            committed: vec![0u8; BYTES],
            active_generation: None,
            received: Vec::new(),
            staging_error: false,
            actual_wkc: 0,
            quality: DomainQuality::empty(),
        };
        assert(domain.committed@ =~= Seq::new(BYTES as nat, |i: int| 0u8));
        assert(domain.output@ =~= Seq::new(BYTES as nat, |i: int| 0u8));
        domain
    }

    pub fn logical_address(&self) -> (address: u32)
        ensures
            address == self.spec_logical_address(),
    {
        self.logical_address
    }

    pub fn segment_count(&self) -> (count: usize)
        ensures
            count == self.spec_segments().len(),
    {
        self.segments.len()
    }

    pub fn expected_wkc(&self) -> (wkc: u16)
        ensures
            wkc == self.spec_expected_wkc(),
    {
        self.expected_wkc
    }

    pub fn quality(&self) -> (quality: DomainQuality)
        ensures
            quality == self.spec_quality(),
    {
        self.quality
    }

    /// Generation of the receive in progress, if any.
    pub fn receive_generation(&self) -> (generation: Option<u16>)
        ensures
            generation == self.spec_active_generation(),
    {
        self.active_generation
    }

    /// The last committed input image.
    pub fn input(&self) -> (input: &[u8])
        ensures
            input@ == self.spec_committed(),
    {
        self.committed.as_slice()
    }

    /// The output image.
    pub fn output(&self) -> (output: &[u8])
        ensures
            output@ == self.spec_output(),
    {
        self.output.as_slice()
    }

    /// The output image, to be written in place.
    pub fn output_mut(&mut self) -> (output: &mut [u8])
        requires
            old(self).wf(),
        ensures
            output@ == old(self).spec_output(),
            final(self).spec_output() == final(output)@,
            final(output)@.len() == output@.len() ==> final(self).wf(),
            final(self).spec_logical_address() == old(self).spec_logical_address(),
            final(self).spec_committed() == old(self).spec_committed(),
            final(self).spec_segments() == old(self).spec_segments(),
            final(self).spec_quality() == old(self).spec_quality(),
    {
        self.output.as_mut_slice()
    }

    /// Write `bytes` into the output image at `offset`.
    pub fn write_output(&mut self, offset: usize, bytes: &[u8]) -> (result: Result<(), DomainError>)
        requires
            old(self).wf(),
        ensures
            final(self).spec_logical_address() == old(self).spec_logical_address(),
            final(self).wf(),
            offset + bytes@.len() > BYTES ==> result == Err::<(), DomainError>(DomainError::SegmentOutOfBounds) && final(self).spec_output() == old(self).spec_output(),
            offset + bytes@.len() <= BYTES ==> result is Ok && final(self).spec_output() == splice(old(self).spec_output(), offset as int, bytes@),
            final(self).spec_committed() == old(self).spec_committed(),
            final(self).spec_segments() == old(self).spec_segments(),
            final(self).spec_quality() == old(self).spec_quality(),
    {
        if offset > BYTES || bytes.len() > BYTES - offset {
            return Err(DomainError::SegmentOutOfBounds);
        }
        write_bytes(self.output.as_mut_slice(), offset, bytes);
        Ok(())
    }

    pub fn segments(&self) -> (segments: &[DomainSegment])
        ensures
            segments@ == self.spec_segments(),
    {
        self.segments.as_slice()
    }

    /// Add the segment staged by one datagram of this domain.
    #[verifier::loop_isolation(false)]
    pub fn add_segment(&mut self, segment: DomainSegment) -> (result: Result<(), DomainError>)
        requires
            old(self).wf(),
        ensures
            final(self).spec_logical_address() == old(self).spec_logical_address(),
            final(self).wf(),
            final(self).spec_committed() == old(self).spec_committed(),
            final(self).spec_active_generation() == old(self).spec_active_generation(),
            ({
                let segments = old(self).spec_segments();
                if SEGMENTS == 0 || SEGMENTS > 64 || segments.len() >= SEGMENTS {
                    result == Err::<(), DomainError>(DomainError::TooManySegments)
                } else if exists|i: int| 0 <= i < segments.len() && (#[trigger] segments[i]).datagram_index == segment.datagram_index {
                    result == Err::<(), DomainError>(DomainError::DuplicateDatagramIndex)
                } else if segment.input_offset + segment.len > BYTES {
                    result == Err::<(), DomainError>(DomainError::SegmentOutOfBounds)
                } else if old(self).spec_expected_wkc() + segment.expected_wkc > u16::MAX {
                    result == Err::<(), DomainError>(DomainError::ExpectedWkcOverflow)
                } else {
                    result is Ok
                }
            }),
            result is Ok ==> final(self).spec_segments() == old(self).spec_segments().push(segment)
                && final(self).spec_expected_wkc() == old(self).spec_expected_wkc() + segment.expected_wkc,
            result is Err ==> final(self).spec_segments() == old(self).spec_segments()
                && final(self).spec_expected_wkc() == old(self).spec_expected_wkc()
                && final(self).spec_quality() == old(self).spec_quality(),
    {
        let count = self.segments.len();
        if SEGMENTS == 0 || SEGMENTS > 64 || count >= SEGMENTS {
            return Err(DomainError::TooManySegments);
        }
        let mut i: usize = 0;
        while i < count
            invariant
                i <= count,
                forall|k: int| 0 <= k < i ==> self.segments@[k].datagram_index != segment.datagram_index,
            decreases count - i,
        {
            if self.segments[i].datagram_index == segment.datagram_index {
                return Err(DomainError::DuplicateDatagramIndex);
            }
            i = i + 1;
        }
        let end = match segment.input_offset.checked_add(segment.len) {
            Some(end) => end,
            None => return Err(DomainError::SegmentOutOfBounds),
        };
        if end > BYTES {
            return Err(DomainError::SegmentOutOfBounds);
        }
        let expected = match self.expected_wkc.checked_add(segment.expected_wkc) {
            Some(expected) => expected,
            None => return Err(DomainError::ExpectedWkcOverflow),
        };
        let ghost old_segments = self.segments@;
        self.expected_wkc = expected;
        self.segments.push(segment);
        self.received.push(false);
        self.quality.expected_wkc = expected;
        assert(self.segments@.subrange(0, count as int) =~= old_segments);
        assert(sum_expected_wkc(self.segments@, count as int) == sum_expected_wkc(old_segments, count as int)) by {
            lemma_sum_expected_wkc_prefix(old_segments, segment, count as int);
        }
        Ok(())
    }

    /// Start staging the receive of `generation` from the committed image.
    pub fn begin_receive(&mut self, generation: u16) -> (result: Result<(), DomainError>)
        requires
            old(self).wf(),
        ensures
            final(self).spec_expected_wkc() == old(self).spec_expected_wkc(),
            old(self).spec_segments().len() > 0 ==> final(self).spec_stage() == (DomainStage {
                received: Seq::new(old(self).spec_segments().len(), |i: int| false),
                staging_error: false,
                actual_wkc: 0,
            }),
            final(self).spec_logical_address() == old(self).spec_logical_address(),
            final(self).wf(),
            final(self).spec_segments() == old(self).spec_segments(),
            final(self).spec_committed() == old(self).spec_committed(),
            final(self).spec_output() == old(self).spec_output(),
            old(self).spec_segments().len() == 0 ==> result == Err::<(), DomainError>(DomainError::EmptyDomain)
                && final(self).spec_active_generation() == old(self).spec_active_generation()
                && final(self).spec_quality() == old(self).spec_quality()
                && final(self).spec_stage() == old(self).spec_stage(),
            old(self).spec_segments().len() > 0 ==> {
                &&& result is Ok
                &&& final(self).spec_staging() == old(self).spec_committed()
                &&& final(self).spec_active_generation() == Some(generation)
                &&& forall|i: int| 0 <= i < final(self).spec_received().len() ==> !final(self).spec_received()[i]
                &&& !final(self).spec_staging_error()
                &&& final(self).spec_actual_wkc() == 0
                &&& final(self).spec_quality() == DomainQuality {
                    complete: false,
                    actual_wkc: 0,
                    ..old(self).spec_quality()
                }
            },
    {
        let count = self.segments.len();
        if count == 0 {
            return Err(DomainError::EmptyDomain);
        }
        self.staging = self.committed.clone();
        let mut received: Vec<bool> = Vec::new();
        let mut i: usize = 0;
        while i < count
            invariant
                i <= count,
                received@.len() == i,
                forall|k: int| 0 <= k < i ==> !received@[k],
            decreases count - i,
        {
            received.push(false);
            i = i + 1;
        }
        self.received = received;
        self.active_generation = Some(generation);
        self.staging_error = false;
        self.actual_wkc = 0;
        self.quality.complete = false;
        self.quality.actual_wkc = 0;
        assert(self.received@ =~= Seq::new(count as nat, |i: int| false));
        Ok(())
    }

    /// Stage one received datagram of the active generation.
    #[verifier::loop_isolation(false)]
    pub fn stage_datagram(&mut self, generation: u16, header: DatagramHeader, payload: &[u8], working_counter: u16) -> (result: Result<(), DomainError>)
        requires
            old(self).wf(),
        ensures
            final(self).spec_expected_wkc() == old(self).spec_expected_wkc(),
            (final(self).spec_stage(), result) == staged(old(self).spec_segments(), old(self).spec_active_generation(),
                old(self).spec_stage(), generation, header.index, payload@.len(), working_counter),
            final(self).spec_staging() == staged_page(old(self).spec_segments(), old(self).spec_staging(), header.index,
                payload@, result is Ok),
            final(self).spec_logical_address() == old(self).spec_logical_address(),
            final(self).wf(),
            final(self).spec_segments() == old(self).spec_segments(),
            final(self).spec_committed() == old(self).spec_committed(),
            final(self).spec_output() == old(self).spec_output(),
            final(self).spec_quality() == old(self).spec_quality(),
            final(self).spec_active_generation() == old(self).spec_active_generation(),
            old(self).spec_active_generation() != Some(generation) ==> result == Err::<(), DomainError>(DomainError::GenerationMismatch)
                && final(self).spec_staging() == old(self).spec_staging()
                && final(self).spec_received() == old(self).spec_received()
                && final(self).spec_staging_error() == old(self).spec_staging_error(),
            old(self).spec_active_generation() == Some(generation) ==> match spec_segment_position(old(self).spec_segments(), header.index) {
                None => result == Err::<(), DomainError>(DomainError::UnknownDatagramIndex)
                    && final(self).spec_staging() == old(self).spec_staging()
                    && final(self).spec_received() == old(self).spec_received()
                    && final(self).spec_staging_error() == old(self).spec_staging_error(),
                Some(i) => {
                    let segment = old(self).spec_segments()[i];
                    if old(self).spec_received()[i] {
                        result == Err::<(), DomainError>(DomainError::DuplicateDatagram)
                            && final(self).spec_staging_error()
                            && final(self).spec_staging() == old(self).spec_staging()
                            && final(self).spec_received() == old(self).spec_received()
                    } else if payload@.len() != segment.len {
                        result == Err::<(), DomainError>(DomainError::PayloadLengthMismatch)
                            && final(self).spec_staging_error()
                            && final(self).spec_staging() == old(self).spec_staging()
                            && final(self).spec_received() == old(self).spec_received()
                    } else {
                        &&& result is Ok
                        &&& final(self).spec_staging() == splice(old(self).spec_staging(), segment.input_offset as int, payload@)
                        &&& final(self).spec_received() == old(self).spec_received().update(i, true)
                        &&& final(self).spec_staging_error() == old(self).spec_staging_error()
                        &&& final(self).spec_actual_wkc() == if old(self).spec_actual_wkc() + working_counter > u16::MAX {
                            u16::MAX as int
                        } else {
                            old(self).spec_actual_wkc() + working_counter
                        }
                    }
                },
            },
    {
        if self.active_generation != Some(generation) {
            return Err(DomainError::GenerationMismatch);
        }
        let count = self.segments.len();
        let mut position: usize = 0;
        while position < count && self.segments[position].datagram_index != header.index
            invariant
                position <= count,
                forall|k: int| 0 <= k < position ==> self.segments@[k].datagram_index != header.index,
            decreases count - position,
        {
            position = position + 1;
        }
        if position == count {
            return Err(DomainError::UnknownDatagramIndex);
        }
        proof {
            let ghost chosen = choose|i: int|
                0 <= i < self.segments@.len() && (#[trigger] self.segments@[i]).datagram_index == header.index
                    && forall|k: int| 0 <= k < i ==> self.segments@[k].datagram_index != header.index;
            assert(self.segments@[position as int].datagram_index == header.index);
            if chosen < position {
            } else if chosen > position {
                assert(self.segments@[position as int].datagram_index != header.index);
            }
            assert(chosen == position);
        }
        if self.received[position] {
            self.staging_error = true;
            return Err(DomainError::DuplicateDatagram);
        }
        let segment = self.segments[position];
        if payload.len() != segment.len {
            self.staging_error = true;
            return Err(DomainError::PayloadLengthMismatch);
        }
        write_bytes(self.staging.as_mut_slice(), segment.input_offset, payload);
        self.received.set(position, true);
        self.actual_wkc = self.actual_wkc.saturating_add(working_counter);
        Ok(())
    }

    /// Close the receive of `generation`: publish the staged page only when
    /// every segment arrived exactly once and the working counters add up.
    #[verifier::loop_isolation(false)]
    pub fn finish_receive(&mut self, generation: u16, cycle: u64) -> (result: Result<bool, DomainError>)
        requires
            old(self).wf(),
        ensures
            final(self).spec_expected_wkc() == old(self).spec_expected_wkc(),
            final(self).spec_stage() == old(self).spec_stage(),
            final(self).spec_logical_address() == old(self).spec_logical_address(),
            final(self).wf(),
            final(self).spec_segments() == old(self).spec_segments(),
            final(self).spec_output() == old(self).spec_output(),
            old(self).spec_active_generation() != Some(generation) ==> result == Err::<bool, DomainError>(DomainError::NoActiveReceive)
                && final(self).spec_committed() == old(self).spec_committed()
                && final(self).spec_quality() == old(self).spec_quality()
                && final(self).spec_active_generation() == old(self).spec_active_generation(),
            old(self).spec_active_generation() == Some(generation) ==> {
                let complete = !old(self).spec_staging_error()
                    && all_true(old(self).spec_received())
                    && old(self).spec_actual_wkc() == old(self).spec_expected_wkc();
                &&& result == Ok::<bool, DomainError>(complete)
                &&& final(self).spec_active_generation() is None
                &&& final(self).spec_quality().actual_wkc == old(self).spec_actual_wkc()
                &&& final(self).spec_quality().complete == complete
                &&& final(self).spec_quality().expected_wkc == old(self).spec_quality().expected_wkc
                &&& (complete ==> final(self).spec_committed() == old(self).spec_staging()
                    && final(self).spec_quality().valid
                    && final(self).spec_quality().last_valid_cycle == cycle
                    && final(self).spec_quality().input_age_cycles == 0)
                &&& (!complete ==> final(self).spec_committed() == old(self).spec_committed()
                    && !final(self).spec_quality().valid
                    && final(self).spec_quality().last_valid_cycle == old(self).spec_quality().last_valid_cycle
                    && final(self).spec_quality().input_age_cycles == if old(self).spec_quality().input_age_cycles == u64::MAX {
                        u64::MAX as int
                    } else {
                        old(self).spec_quality().input_age_cycles + 1
                    })
            },
    {
        if self.active_generation != Some(generation) {
            return Err(DomainError::NoActiveReceive);
        }
        let count = self.received.len();
        let mut all = true;
        let mut i: usize = 0;
        while i < count
            invariant
                i <= count,
                count == self.received@.len(),
                all == all_true(self.received@.subrange(0, i as int)),
            decreases count - i,
        {
            assert(self.received@.subrange(0, i + 1) =~= self.received@.subrange(0, i as int).push(self.received@[i as int]));
            proof { lemma_all_true_push(self.received@.subrange(0, i as int), self.received@[i as int]); }
            all = all && self.received[i];
            i = i + 1;
        }
        assert(self.received@.subrange(0, count as int) =~= self.received@);
        let complete = !self.staging_error && all && self.actual_wkc == self.expected_wkc;
        self.quality.actual_wkc = self.actual_wkc;
        self.quality.complete = complete;
        self.active_generation = None;
        if complete {
            self.committed = self.staging.clone();
            self.quality.valid = true;
            self.quality.last_valid_cycle = cycle;
            self.quality.input_age_cycles = 0;
            return Ok(true);
        }
        self.quality.valid = false;
        self.quality.input_age_cycles = self.quality.input_age_cycles.saturating_add(1);
        Ok(false)
    }
}

pub proof fn lemma_sum_expected_wkc_prefix(segments: Seq<DomainSegment>, segment: DomainSegment, n: int)
    requires
        0 <= n <= segments.len(),
    ensures
        sum_expected_wkc(segments.push(segment), n) == sum_expected_wkc(segments, n),
    decreases n,
{
    if n > 0 {
        lemma_sum_expected_wkc_prefix(segments, segment, n - 1);
        assert(segments.push(segment)[n - 1] == segments[n - 1]);
    }
}

impl<const BYTES: usize, const SEGMENTS: usize> RxDatagramConsumer for Domain<BYTES, SEGMENTS> {
    open spec fn consumer_ready(&self) -> bool {
        self.wf()
    }

    /// Stage the datagram into the active generation; it is consumed when
    /// staging succeeds.
    fn accept(
        &mut self,
        cycle: u64,
        received_at_ns: u64,
        completion: RxMatch,
        header: DatagramHeader,
        payload: &[u8],
    ) -> (accepted: bool)
        ensures
            final(self).spec_expected_wkc() == old(self).spec_expected_wkc(),
            final(self).spec_stage() == staged(old(self).spec_segments(), old(self).spec_active_generation(),
                old(self).spec_stage(), completion.generation, header.index, payload@.len(), completion.working_counter).0,
            accepted == staged(old(self).spec_segments(), old(self).spec_active_generation(), old(self).spec_stage(),
                completion.generation, header.index, payload@.len(), completion.working_counter).1 is Ok,
            final(self).spec_staging() == staged_page(old(self).spec_segments(), old(self).spec_staging(), header.index,
                payload@, accepted),
            final(self).spec_quality() == old(self).spec_quality(),
            final(self).spec_logical_address() == old(self).spec_logical_address(),
            final(self).spec_active_generation() == old(self).spec_active_generation(),
            final(self).spec_committed() == old(self).spec_committed(),
            final(self).spec_segments() == old(self).spec_segments(),
            accepted ==> old(self).spec_active_generation() == Some(completion.generation),
    {
        self.stage_datagram(completion.generation, header, payload, completion.working_counter).is_ok()
    }
}

} // verus!
