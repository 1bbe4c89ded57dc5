//! Fixed-layout PDO entry definitions and bit-level process-image access.
//!
//! PDO mapping is configured before activation. Runtime access only performs
//! bounded bit extraction/insertion against caller-owned process-image bytes.
use vstd::prelude::*;
use crate::bits::{
    byte_bit, has_bit, lemma_bits_extensional, lemma_byte_set, lemma_byte_test,
    lemma_high_bits_clear, lemma_zero_has_no_bits, set_bit, test_bit,
};

verus! {

#[derive(Clone, Copy, Debug, PartialEq, Eq, Structural)]
pub enum PdoDirection {
    Rx,
    Tx,
}

#[derive(Clone, Copy, Debug, PartialEq, Eq, Structural)]
pub struct PdoEntry {
    pub index: u16,
    pub subindex: u8,
    pub bit_offset: usize,
    pub bit_length: u8,
    pub signed: bool,
    pub direction: PdoDirection,
}

#[derive(Clone, Copy, Debug, PartialEq, Eq, Structural)]
pub enum PdoError {
    CapacityExceeded,
    DuplicateEntry,
    InvalidBitLength,
    ImageBounds,
    BitOverlap,
    UnknownEntry,
    BufferTooSmall,
    ValueOutOfRange,
    SignedEntryRequiresSignedValue,
    UnsignedEntryRequiresUnsignedValue,
}

/// Bit `position` of a process image (bit 0 = LSB of byte 0).
pub open spec fn image_bit(image: Seq<u8>, position: int) -> bool {
    byte_bit(image[position / 8], (position % 8) as u8)
}

/// Why an entry cannot address an image of `image_len` bytes, if it cannot.
pub open spec fn spec_validate(entry: PdoEntry, image_len: int) -> Option<PdoError> {
    if !(1 <= entry.bit_length <= 64) {
        Some(PdoError::InvalidBitLength)
    } else if entry.bit_offset + entry.bit_length > usize::MAX {
        Some(PdoError::ImageBounds)
    } else if entry.bit_offset + entry.bit_length > image_len * 8 {
        Some(PdoError::ImageBounds)
    } else {
        None
    }
}

/// `value` holds exactly the entry's bits of `image` as its low bits.
pub open spec fn holds_field(entry: PdoEntry, image: Seq<u8>, value: u64) -> bool {
    forall|b: u64|
        b < 64 ==> #[trigger] has_bit(value, b) == (b < entry.bit_length && image_bit(
            image,
            entry.bit_offset + b,
        ))
}

/// `after` is `before` with the entry's bits replaced by the low bits of `raw`.
pub open spec fn wrote_field(entry: PdoEntry, before: Seq<u8>, after: Seq<u8>, raw: u64) -> bool {
    &&& after.len() == before.len()
    &&& forall|p: int|
        0 <= p < after.len() * 8 ==> #[trigger] image_bit(after, p) == if entry.bit_offset <= p
            < entry.bit_offset + entry.bit_length {
            has_bit(raw, (p - entry.bit_offset) as u64)
        } else {
            image_bit(before, p)
        }
}

/// Sign extension of the low `len` bits of `value`.
pub open spec fn sign_extend(value: u64, len: u8) -> i64 {
    if 1 <= len < 64 && has_bit(value, (len - 1) as u64) {
        (value | !(((1u64 << len) - 1) as u64)) as i64
    } else {
        value as i64
    }
}

fn image_bit_exec(image: &[u8], position: usize) -> (set: bool)
    requires
        position / 8 < image@.len(),
    ensures
        set == image_bit(image@, position as int),
{
    let byte = image[position / 8];
    let bit = (position % 8) as u8;
    proof {
        lemma_byte_test(byte, bit);
    }
    byte & (1u8 << bit) != 0
}

fn set_image_bit(image: &mut [u8], position: usize, value: bool)
    requires
        position / 8 < old(image)@.len(),
    ensures
        final(image)@.len() == old(image)@.len(),
        forall|p: int|
            0 <= p < old(image)@.len() * 8 ==> #[trigger] image_bit(final(image)@, p) == if p
                == position {
                value
            } else {
                image_bit(old(image)@, p)
            },
{
    let index = position / 8;
    let bit = (position % 8) as u8;
    let byte = image[index];
    let updated = if value {
        byte | (1u8 << bit)
    } else {
        byte & !(1u8 << bit)
    };
    image[index] = updated;
    proof {
        assert forall|p: int| 0 <= p < old(image)@.len() * 8 implies #[trigger] image_bit(
            image@,
            p,
        ) == if p == position {
            value
        } else {
            image_bit(old(image)@, p)
        } by {
            if p / 8 == index as int {
                lemma_byte_set(byte, bit, (p % 8) as u8);
            }
        }
    }
}

impl PdoEntry {
    pub fn empty() -> (entry: Self)
        ensures
            entry == (PdoEntry {
                index: 0,
                subindex: 0,
                bit_offset: 0,
                bit_length: 0,
                signed: false,
                direction: PdoDirection::Rx,
            }),
    {
        PdoEntry {
            index: 0,
            subindex: 0,
            bit_offset: 0,
            bit_length: 0,
            signed: false,
            direction: PdoDirection::Rx,
        }
    }

    fn validate(&self, image_len: usize) -> (result: Result<(), PdoError>)
        ensures
            match spec_validate(*self, image_len as int) {
                Some(e) => result == Err::<(), PdoError>(e),
                None => result is Ok,
            },
    {
        if self.bit_length < 1 || self.bit_length > 64 {
            return Err(PdoError::InvalidBitLength);
        }
        let end = match self.bit_offset.checked_add(self.bit_length as usize) {
            Some(end) => end,
            None => return Err(PdoError::ImageBounds),
        };
        if image_len <= usize::MAX / 8 && end > image_len * 8 {
            return Err(PdoError::ImageBounds);
        }
        Ok(())
    }

    /// Read the entry's bits as an unsigned value.
    pub fn read_unsigned(&self, image: &[u8]) -> (result: Result<u64, PdoError>)
        ensures
            match spec_validate(*self, image@.len() as int) {
                Some(e) => result == Err::<u64, PdoError>(e),
                None => result matches Ok(value) && holds_field(*self, image@, value),
            },
    {
        self.validate(image.len())?;
        let len = self.bit_length as u64;
        let mut value: u64 = 0;
        let mut bit: u64 = 0;
        proof {
            assert forall|b: u64| b < 64 implies #[trigger] has_bit(0u64, b) == false by {
                lemma_zero_has_no_bits(b);
            }
        }
        while bit < len
            invariant
                spec_validate(*self, image@.len() as int) is None,
                len == self.bit_length,
                bit <= len <= 64,
                forall|b: u64|
                    b < 64 ==> #[trigger] has_bit(value, b) == (b < bit && image_bit(
                        image@,
                        self.bit_offset + b,
                    )),
            decreases len - bit,
        {
            let position = self.bit_offset + bit as usize;
            if image_bit_exec(image, position) {
                value = set_bit(value, bit);
            }
            bit = bit + 1;
        }
        Ok(value)
    }

    /// Read the entry's bits, sign-extended for signed entries.
    pub fn read_signed(&self, image: &[u8]) -> (result: Result<i64, PdoError>)
        ensures
            match spec_validate(*self, image@.len() as int) {
                Some(e) => result == Err::<i64, PdoError>(e),
                None => exists|raw: u64|
                    holds_field(*self, image@, raw) && result == Ok::<i64, PdoError>(
                        if self.signed {
                            sign_extend(raw, self.bit_length)
                        } else {
                            raw as i64
                        },
                    ),
            },
    {
        let value = self.read_unsigned(image)?;
        if !self.signed {
            return Ok(value as i64);
        }
        if self.bit_length == 64 {
            return Ok(value as i64);
        }
        let len = self.bit_length;
        let sign = test_bit(value, (len - 1) as u64);
        assert(1u64 << len >= 1) by (bit_vector)
            requires
                len < 64,
        ;
        let mask: u64 = (1u64 << len) - 1;
        if sign {
            Ok((value | !mask) as i64)
        } else {
            Ok(value as i64)
        }
    }

    /// Write an unsigned value into the entry's bits, leaving every other
    /// bit of the image unchanged.
    pub fn write_unsigned(&self, image: &mut [u8], value: u64) -> (result: Result<(), PdoError>)
        ensures
            match spec_validate(*self, old(image)@.len() as int) {
                Some(e) => result == Err::<(), PdoError>(e) && final(image)@ == old(image)@,
                None => if self.signed {
                    result == Err::<(), PdoError>(PdoError::SignedEntryRequiresSignedValue)
                        && final(image)@ == old(image)@
                } else if self.bit_length < 64 && value >= (1u64 << self.bit_length) {
                    result == Err::<(), PdoError>(PdoError::ValueOutOfRange) && final(image)@
                        == old(image)@
                } else {
                    result is Ok && wrote_field(*self, old(image)@, final(image)@, value)
                },
            },
    {
        self.validate(image.len())?;
        if self.signed {
            return Err(PdoError::SignedEntryRequiresSignedValue);
        }
        if self.bit_length < 64 && value >= (1u64 << self.bit_length) {
            return Err(PdoError::ValueOutOfRange);
        }
        self.write_raw(image, value);
        Ok(())
    }

    /// Write a signed value (two's complement) into the entry's bits.
    pub fn write_signed(&self, image: &mut [u8], value: i64) -> (result: Result<(), PdoError>)
        ensures
            match spec_validate(*self, old(image)@.len() as int) {
                Some(e) => result == Err::<(), PdoError>(e) && final(image)@ == old(image)@,
                None => if !self.signed {
                    result == Err::<(), PdoError>(PdoError::UnsignedEntryRequiresUnsignedValue)
                        && final(image)@ == old(image)@
                } else if self.bit_length < 64 && (value < -(1i64 << (self.bit_length - 1) as u64)
                    || value > (1i64 << (self.bit_length - 1) as u64) - 1) {
                    result == Err::<(), PdoError>(PdoError::ValueOutOfRange) && final(image)@
                        == old(image)@
                } else {
                    result is Ok && wrote_field(*self, old(image)@, final(image)@, value as u64)
                },
            },
    {
        self.validate(image.len())?;
        if !self.signed {
            return Err(PdoError::UnsignedEntryRequiresUnsignedValue);
        }
        if self.bit_length < 64 {
            let shift = (self.bit_length - 1) as u64;
            assert(1 <= 1i64 << shift <= 0x4000_0000_0000_0000) by (bit_vector)
                requires
                    shift < 63,
            ;
            let min = -(1i64 << shift);
            let max = (1i64 << shift) - 1;
            if value < min || value > max {
                return Err(PdoError::ValueOutOfRange);
            }
        }
        self.write_raw(image, value as u64);
        Ok(())
    }

    fn write_raw(&self, image: &mut [u8], raw: u64)
        requires
            spec_validate(*self, old(image)@.len() as int) is None,
        ensures
            wrote_field(*self, old(image)@, final(image)@, raw),
    {
        let ghost initial = image@;
        let len = self.bit_length as u64;
        let mut bit: u64 = 0;
        while bit < len
            invariant
                spec_validate(*self, initial.len() as int) is None,
                len == self.bit_length,
                bit <= len <= 64,
                image@.len() == initial.len(),
                forall|p: int|
                    0 <= p < initial.len() * 8 ==> #[trigger] image_bit(image@, p) == if self.bit_offset
                        <= p < self.bit_offset + bit {
                        has_bit(raw, (p - self.bit_offset) as u64)
                    } else {
                        image_bit(initial, p)
                    },
            decreases len - bit,
        {
            let position = self.bit_offset + bit as usize;
            let set = test_bit(raw, bit);
            set_image_bit(image, position, set);
            bit = bit + 1;
        }
    }
}

/// Reading a field gives back exactly what was written into it (for values
/// the write accepted): the written value's bits above the field are zero.
pub proof fn lemma_field_round_trip(entry: PdoEntry, before: Seq<u8>, after: Seq<u8>, value: u64, read: u64)
    requires
        spec_validate(entry, before.len() as int) is None,
        entry.bit_length == 64 || value < (1u64 << entry.bit_length),
        wrote_field(entry, before, after, value),
        holds_field(entry, after, read),
    ensures
        read == value,
{
    assert forall|b: u64| b < 64 implies #[trigger] has_bit(read, b) == has_bit(value, b) by {
        if b < entry.bit_length {
            let p = entry.bit_offset + b;
            assert(image_bit(after, p) == has_bit(value, (p - entry.bit_offset) as u64));
        } else {
            lemma_high_bits_clear(value, entry.bit_length as u64, b);
        }
    }
    lemma_bits_extensional(read, value);
}

/// Writing a field leaves every bit outside it unchanged.
pub proof fn lemma_write_preserves_neighbours(entry: PdoEntry, before: Seq<u8>, after: Seq<u8>, raw: u64, p: int)
    requires
        wrote_field(entry, before, after, raw),
        0 <= p < before.len() * 8,
        p < entry.bit_offset || p >= entry.bit_offset + entry.bit_length,
    ensures
        image_bit(after, p) == image_bit(before, p),
{
}

/// Two entries of the same direction share at least one bit.
pub open spec fn entries_overlap(left: PdoEntry, right: PdoEntry) -> bool {
    &&& left.direction == right.direction
    &&& right.bit_offset < left.bit_offset + left.bit_length
    &&& left.bit_offset < right.bit_offset + right.bit_length
}

/// Two entries name the same object in the same direction.
pub open spec fn entries_duplicate(left: PdoEntry, right: PdoEntry) -> bool {
    left.index == right.index && left.subindex == right.subindex && left.direction
        == right.direction
}

/// Why `entry` cannot join `entries` of a layout with `capacity` slots.
pub open spec fn spec_add_error(entries: Seq<PdoEntry>, capacity: int, entry: PdoEntry) -> Option<PdoError> {
    if capacity == 0 || entries.len() >= capacity {
        Some(PdoError::CapacityExceeded)
    } else if !(1 <= entry.bit_length <= 64) {
        Some(PdoError::InvalidBitLength)
    } else if exists|i: int| 0 <= i < entries.len() && entries_duplicate(#[trigger] entries[i], entry) {
        Some(PdoError::DuplicateEntry)
    } else if entry.bit_offset + entry.bit_length > usize::MAX {
        Some(PdoError::ImageBounds)
    } else if exists|i: int| 0 <= i < entries.len() && entries_overlap(#[trigger] entries[i], entry) {
        Some(PdoError::BitOverlap)
    } else {
        None
    }
}

#[derive(Clone, Debug, PartialEq, Eq)]
pub struct PdoLayout<const ENTRIES: usize> {
    entries: Vec<PdoEntry>,
    total_bits: usize,
}

impl<const ENTRIES: usize> PdoLayout<ENTRIES> {
    pub closed spec fn spec_entries(&self) -> Seq<PdoEntry> {
        self.entries@
    }

    pub closed spec fn spec_total_bits(&self) -> int {
        self.total_bits as int
    }

    /// Entries fit the capacity, are valid, and the total covers them all.
    pub closed spec fn wf(&self) -> bool {
        &&& self.entries@.len() <= ENTRIES
        &&& forall|i: int|
            0 <= i < self.entries@.len() ==> 1 <= (#[trigger] self.entries@[i]).bit_length <= 64
                && self.entries@[i].bit_offset + self.entries@[i].bit_length <= usize::MAX
                && self.entries@[i].bit_offset + self.entries@[i].bit_length <= self.total_bits
        &&& (self.entries@.len() == 0 ==> self.total_bits == 0)
        &&& (self.entries@.len() > 0 ==> exists|i: int|
            0 <= i < self.entries@.len() && self.total_bits == (#[trigger] self.entries@[i]).bit_offset
                + self.entries@[i].bit_length)
    }

    pub fn new() -> (layout: Self)
        ensures
            layout.wf(),
            layout.spec_entries() == Seq::<PdoEntry>::empty(),
            layout.spec_total_bits() == 0,
    {
        PdoLayout { entries: Vec::new(), total_bits: 0 }
    }

    pub fn len(&self) -> (len: usize)
        ensures
            len == self.spec_entries().len(),
    {
        self.entries.len()
    }

    pub fn is_empty(&self) -> (empty: bool)
        ensures
            empty == (self.spec_entries().len() == 0),
    {
        self.entries.len() == 0
    }

    /// One past the highest mapped bit.
    pub fn total_bits(&self) -> (bits: usize)
        ensures
            bits == self.spec_total_bits(),
    {
        self.total_bits
    }

    /// Bytes needed to hold every mapped bit.
    pub fn total_bytes(&self) -> (bytes: usize)
        ensures
            bytes == (self.spec_total_bits() + 7) / 8,
    {
        self.total_bits / 8 + if self.total_bits % 8 != 0 { 1 } else { 0 }
    }

    pub fn entries(&self) -> (entries: &[PdoEntry])
        ensures
            entries@ == self.spec_entries(),
    {
        self.entries.as_slice()
    }

    /// Add an entry that neither duplicates an object nor overlaps bits of
    /// its direction, and return its index.
    #[verifier::loop_isolation(false)]
    pub fn add(&mut self, entry: PdoEntry) -> (result: Result<usize, PdoError>)
        requires
            old(self).wf(),
        ensures
            final(self).wf(),
            match spec_add_error(old(self).spec_entries(), ENTRIES as int, entry) {
                Some(e) => result == Err::<usize, PdoError>(e) && final(self).spec_entries() == old(self).spec_entries()
                    && final(self).spec_total_bits() == old(self).spec_total_bits(),
                None => {
                    &&& result == Ok::<usize, PdoError>(old(self).spec_entries().len() as usize)
                    &&& final(self).spec_entries() == old(self).spec_entries().push(entry)
                    &&& final(self).spec_total_bits() == if old(self).spec_total_bits() < entry.bit_offset + entry.bit_length {
                        entry.bit_offset + entry.bit_length
                    } else {
                        old(self).spec_total_bits()
                    }
                },
            },
    {
        let count = self.entries.len();
        if ENTRIES == 0 || count >= ENTRIES {
            return Err(PdoError::CapacityExceeded);
        }
        if entry.bit_length < 1 || entry.bit_length > 64 {
            return Err(PdoError::InvalidBitLength);
        }
        let mut i: usize = 0;
        while i < count
            invariant
                count == self.entries@.len(),
                self.entries@ == old(self).entries@,
                i <= count,
                forall|k: int| 0 <= k < i ==> !entries_duplicate(self.entries@[k], entry),
            decreases count - i,
        {
            let existing = self.entries[i];
            if existing.index == entry.index && existing.subindex == entry.subindex
                && existing.direction == entry.direction {
                assert(entries_duplicate(self.entries@[i as int], entry));
                return Err(PdoError::DuplicateEntry);
            }
            i = i + 1;
        }
        let end = match entry.bit_offset.checked_add(entry.bit_length as usize) {
            Some(end) => end,
            None => return Err(PdoError::ImageBounds),
        };
        let mut i: usize = 0;
        while i < count
            invariant
                count == self.entries@.len(),
                self.entries@ == old(self).entries@,
                old(self).wf(),
                self.total_bits == old(self).total_bits,
                i <= count,
                end == entry.bit_offset + entry.bit_length,
                forall|k: int| 0 <= k < i ==> !entries_overlap(self.entries@[k], entry),
            decreases count - i,
        {
            let existing = self.entries[i];
            assert(existing == self.entries@[i as int]);
            if existing.direction == entry.direction {
                let existing_end = existing.bit_offset + existing.bit_length as usize;
                if entry.bit_offset < existing_end && existing.bit_offset < end {
                    assert(entries_overlap(self.entries@[i as int], entry));
                    return Err(PdoError::BitOverlap);
                }
            }
            i = i + 1;
        }
        self.entries.push(entry);
        if self.total_bits < end {
            self.total_bits = end;
        }
        proof {
            let n = self.entries@.len() - 1;
            if old(self).total_bits < end {
                assert(self.entries@[n] == entry);
            } else {
                let w = choose|w: int| 0 <= w < old(self).entries@.len() && old(self).total_bits == (#[trigger] old(self).entries@[w]).bit_offset + old(self).entries@[w].bit_length;
                assert(self.entries@[w] == old(self).entries@[w]);
            }
        }
        Ok(count)
    }

    /// The entry at `index`.
    pub fn entry(&self, index: usize) -> (result: Result<PdoEntry, PdoError>)
        ensures
            index < self.spec_entries().len() ==> result == Ok::<PdoEntry, PdoError>(self.spec_entries()[index as int]),
            index >= self.spec_entries().len() ==> result == Err::<PdoEntry, PdoError>(PdoError::UnknownEntry),
    {
        if index < self.entries.len() {
            Ok(self.entries[index])
        } else {
            Err(PdoError::UnknownEntry)
        }
    }

    /// The entries of one direction, in layout order.
    pub fn entries_in(&self, direction: PdoDirection) -> (entries: Vec<PdoEntry>)
        ensures
            entries@ == self.spec_entries().filter(|e: PdoEntry| e.direction == direction),
    {
        let mut result: Vec<PdoEntry> = Vec::new();
        let mut i: usize = 0;
        while i < self.entries.len()
            invariant
                i <= self.entries@.len(),
                result@ == self.entries@.subrange(0, i as int).filter(|e: PdoEntry| e.direction == direction),
            decreases self.entries@.len() - i,
        {
            let entry = self.entries[i];
            proof {
                reveal_with_fuel(Seq::filter, 1);
                assert(self.entries@.subrange(0, i + 1).drop_last() =~= self.entries@.subrange(0, i as int));
            }
            if entry.direction == direction {
                result.push(entry);
            }
            i = i + 1;
        }
        assert(self.entries@.subrange(0, i as int) =~= self.entries@);
        result
    }

    /// Input (TxPDO) entries in layout order.
    pub fn input_entries(&self) -> (entries: Vec<PdoEntry>)
        ensures
            entries@ == self.spec_entries().filter(|e: PdoEntry| e.direction == PdoDirection::Tx),
    {
        self.entries_in(PdoDirection::Tx)
    }

    /// Output (RxPDO) entries in layout order.
    pub fn output_entries(&self) -> (entries: Vec<PdoEntry>)
        ensures
            entries@ == self.spec_entries().filter(|e: PdoEntry| e.direction == PdoDirection::Rx),
    {
        self.entries_in(PdoDirection::Rx)
    }
}

/// Every layout a sequence of `add` calls builds has pairwise non-overlapping
/// entries within each direction.
pub open spec fn layout_disjoint(entries: Seq<PdoEntry>) -> bool {
    forall|i: int, j: int| 0 <= i < j < entries.len() ==> !entries_overlap(#[trigger] entries[i], #[trigger] entries[j])
}

/// `add` keeps a disjoint layout disjoint.
pub proof fn lemma_add_keeps_layout_disjoint(entries: Seq<PdoEntry>, capacity: int, entry: PdoEntry)
    requires
        layout_disjoint(entries),
        spec_add_error(entries, capacity, entry) is None,
    ensures
        layout_disjoint(entries.push(entry)),
{
    let next = entries.push(entry);
    assert forall|i: int, j: int| 0 <= i < j < next.len() implies !entries_overlap(#[trigger] next[i], #[trigger] next[j]) by {
        if j == entries.len() {
            assert(next[i] == entries[i]);
            assert(!entries_overlap(entries[i], entry));
        } else {
            assert(next[i] == entries[i] && next[j] == entries[j]);
        }
    }
}

} // verus!
