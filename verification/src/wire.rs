//! EtherCAT frame and datagram wire format.
//!
//! A frame is an Ethernet II header (EtherType 0x88A4), a two-byte EtherCAT
//! header (11-bit length, type 1) and a chain of datagrams. Each datagram is
//! a 10-byte header (command, index, 32-bit address, 11-bit length with the
//! "more follows" flag in bit 15, interrupt word), its payload and a 16-bit
//! working counter. Frames shorter than the Ethernet minimum are zero padded.
use vstd::prelude::*;
use crate::bytes::{
    get_le16, get_le32, le16, le16_bytes, le32, le32_bytes, read_u16_le, read_u32_le, splice,
    write_bytes, zero_bytes, zeros,
};

verus! {

pub const ETHERNET_HEADER_LEN: usize = 14;
pub const ETHERCAT_HEADER_LEN: usize = 2;
pub const FRAME_HEADER_LEN: usize = 16;
pub const DATAGRAM_HEADER_LEN: usize = 10;
pub const WORKING_COUNTER_LEN: usize = 2;
pub const DATAGRAM_OVERHEAD: usize = 12;
pub const MAX_ETHERCAT_LEN: usize = 0x07FF;
pub const MIN_ETHERNET_FRAME_LEN: usize = 60;
pub const MAX_ETHERNET_FRAME_LEN: usize = 1514;
pub const ETHERTYPE_HIGH: u8 = 0x88;
pub const ETHERTYPE_LOW: u8 = 0xA4;

#[derive(Clone, Copy, Debug, PartialEq, Eq, Structural)]
pub enum Command {
    Nop,
    Aprd,
    Apwr,
    Aprw,
    Fprd,
    Fpwr,
    Fprw,
    Brd,
    Bwr,
    Brw,
    Lrd,
    Lwr,
    Lrw,
    Armw,
    Frmw,
}

impl Command {
    /// The command byte on the wire.
    pub open spec fn spec_code(self) -> u8 {
        match self {
            Command::Nop => 0,
            Command::Aprd => 1,
            Command::Apwr => 2,
            Command::Aprw => 3,
            Command::Fprd => 4,
            Command::Fpwr => 5,
            Command::Fprw => 6,
            Command::Brd => 7,
            Command::Bwr => 8,
            Command::Brw => 9,
            Command::Lrd => 10,
            Command::Lwr => 11,
            Command::Lrw => 12,
            Command::Armw => 13,
            Command::Frmw => 14,
        }
    }

    pub open spec fn spec_from_code(code: u8) -> Option<Command> {
        if code == 0 {
            Some(Command::Nop)
        } else if code == 1 {
            Some(Command::Aprd)
        } else if code == 2 {
            Some(Command::Apwr)
        } else if code == 3 {
            Some(Command::Aprw)
        } else if code == 4 {
            Some(Command::Fprd)
        } else if code == 5 {
            Some(Command::Fpwr)
        } else if code == 6 {
            Some(Command::Fprw)
        } else if code == 7 {
            Some(Command::Brd)
        } else if code == 8 {
            Some(Command::Bwr)
        } else if code == 9 {
            Some(Command::Brw)
        } else if code == 10 {
            Some(Command::Lrd)
        } else if code == 11 {
            Some(Command::Lwr)
        } else if code == 12 {
            Some(Command::Lrw)
        } else if code == 13 {
            Some(Command::Armw)
        } else if code == 14 {
            Some(Command::Frmw)
        } else {
            None
        }
    }

    #[verifier::when_used_as_spec(spec_code)]
    pub fn code(self) -> (code: u8)
        ensures
            code == self.spec_code(),
    {
        match self {
            Command::Nop => 0,
            Command::Aprd => 1,
            Command::Apwr => 2,
            Command::Aprw => 3,
            Command::Fprd => 4,
            Command::Fpwr => 5,
            Command::Fprw => 6,
            Command::Brd => 7,
            Command::Bwr => 8,
            Command::Brw => 9,
            Command::Lrd => 10,
            Command::Lwr => 11,
            Command::Lrw => 12,
            Command::Armw => 13,
            Command::Frmw => 14,
        }
    }

    pub fn from_code(code: u8) -> (command: Option<Command>)
        ensures
            command == Self::spec_from_code(code),
    {
        match code {
            0 => Some(Command::Nop),
            1 => Some(Command::Aprd),
            2 => Some(Command::Apwr),
            3 => Some(Command::Aprw),
            4 => Some(Command::Fprd),
            5 => Some(Command::Fpwr),
            6 => Some(Command::Fprw),
            7 => Some(Command::Brd),
            8 => Some(Command::Bwr),
            9 => Some(Command::Brw),
            10 => Some(Command::Lrd),
            11 => Some(Command::Lwr),
            12 => Some(Command::Lrw),
            13 => Some(Command::Armw),
            14 => Some(Command::Frmw),
            _ => None,
        }
    }
}

/// Decoding a command's byte gives the command back.
pub proof fn lemma_command_code_round_trip(command: Command)
    ensures
        Command::spec_from_code(command.spec_code()) == Some(command),
{
}

#[derive(Clone, Copy, Debug, PartialEq, Eq, Structural)]
pub struct DatagramHeader {
    pub command: Command,
    pub index: u8,
    pub address: u32,
    pub length: u16,
    pub last: bool,
}

impl DatagramHeader {
    /// The header of a single (last) datagram.
    pub fn new(command: Command, index: u8, address: u32, length: u16) -> (header: Self)
        ensures
            header == (DatagramHeader { command, index, address, length, last: true }),
    {
        DatagramHeader { command, index, address, length, last: true }
    }
}

#[derive(Clone, Copy, Debug, PartialEq, Eq, Structural)]
pub enum WireError {
    BufferTooSmall,
    FrameTooShort,
    FrameTooLarge,
    NotEthercat,
    UnsupportedType,
    LengthOutOfBounds,
    DatagramHeaderTruncated,
    DatagramPayloadTruncated,
    PayloadTooLarge,
    UnknownCommand,
}

/// A datagram to be encoded: command, index, address and payload bytes.
pub type DatagramImage = (Command, u8, u32, Seq<u8>);

/// The bytes of one encoded datagram with a zero interrupt word and a zero
/// working counter.
pub open spec fn datagram_bytes(d: DatagramImage, more: bool) -> Seq<u8> {
    seq![d.0.spec_code(), d.1] + le32(d.2 as int) + le16(
        d.3.len() + if more {
            0x8000int
        } else {
            0
        },
    ) + seq![0u8, 0u8] + d.3 + seq![0u8, 0u8]
}

/// The encoding of the first `k` datagrams of a chain of `ds.len()`
/// datagrams; every datagram but the chain's last carries "more follows".
pub open spec fn body_bytes(ds: Seq<DatagramImage>, k: int) -> Seq<u8>
    decreases k,
{
    if k <= 0 {
        Seq::empty()
    } else {
        body_bytes(ds, k - 1) + datagram_bytes(ds[k - 1], k < ds.len())
    }
}

/// The encoded size of the first `k` datagrams.
pub open spec fn body_size(ds: Seq<DatagramImage>, k: int) -> int
    decreases k,
{
    if k <= 0 {
        0
    } else {
        body_size(ds, k - 1) + 12 + ds[k - 1].3.len()
    }
}

/// The 16 header bytes of a frame whose datagram body is `body_len` bytes.
pub open spec fn frame_header_bytes(dst: Seq<u8>, src: Seq<u8>, body_len: int) -> Seq<u8> {
    dst + src + seq![ETHERTYPE_HIGH, ETHERTYPE_LOW] + le16(body_len + 0x1000)
}

/// The frame carrying the datagram chain `ds`, before padding.
pub open spec fn frame_bytes(dst: Seq<u8>, src: Seq<u8>, ds: Seq<DatagramImage>) -> Seq<u8> {
    frame_header_bytes(dst, src, body_size(ds, ds.len() as int)) + body_bytes(ds, ds.len() as int)
}

/// The on-wire length of the frame carrying `ds`, padding included.
pub open spec fn frame_len(ds: Seq<DatagramImage>) -> int {
    let unpadded = 16 + body_size(ds, ds.len() as int);
    if unpadded < 60 {
        60
    } else {
        unpadded
    }
}

pub proof fn lemma_body_bytes_len(ds: Seq<DatagramImage>, k: int)
    requires
        0 <= k <= ds.len(),
    ensures
        body_bytes(ds, k).len() == body_size(ds, k),
        body_size(ds, k) >= 12 * k,
    decreases k,
{
    if k > 0 {
        lemma_body_bytes_len(ds, k - 1);
    }
}

pub proof fn lemma_body_size_monotone(ds: Seq<DatagramImage>, j: int, k: int)
    requires
        0 <= j <= k <= ds.len(),
    ensures
        body_size(ds, j) <= body_size(ds, k),
    decreases k,
{
    if j < k {
        lemma_body_size_monotone(ds, j, k - 1);
    }
}

/// Extending a chain only changes the "more follows" flag of its former
/// last datagram; the prefix before it is unchanged.
pub proof fn lemma_body_bytes_prefix_stable(ds: Seq<DatagramImage>, d: DatagramImage, k: int)
    requires
        0 <= k < ds.len(),
    ensures
        body_bytes(ds.push(d), k) == body_bytes(ds, k),
        body_size(ds.push(d), k) == body_size(ds, k),
    decreases k,
{
    if k > 0 {
        lemma_body_bytes_prefix_stable(ds, d, k - 1);
        assert(ds.push(d)[k - 1] == ds[k - 1]);
    }
}

pub proof fn lemma_body_size_push(ds: Seq<DatagramImage>, d: DatagramImage, k: int)
    requires
        0 <= k <= ds.len(),
    ensures
        body_size(ds.push(d), k) == body_size(ds, k),
    decreases k,
{
    if k > 0 {
        lemma_body_size_push(ds, d, k - 1);
        assert(ds.push(d)[k - 1] == ds[k - 1]);
    }
}

pub proof fn lemma_splice_append(s: Seq<u8>, at: int, a: Seq<u8>, b: Seq<u8>)
    requires
        0 <= at,
        at + a.len() + b.len() <= s.len(),
    ensures
        splice(splice(s, at, a), at + a.len(), b) == splice(s, at, a + b),
{
    assert(splice(splice(s, at, a), at + a.len(), b) =~= splice(s, at, a + b));
}

/// One datagram owned by a frame builder.
pub struct WireDatagram {
    pub command: Command,
    pub index: u8,
    pub address: u32,
    pub payload: Vec<u8>,
}

impl WireDatagram {
    pub open spec fn image(&self) -> DatagramImage {
        (self.command, self.index, self.address, self.payload@)
    }
}

/// Collects datagrams for one frame and encodes them into a caller buffer.
pub struct FrameBuilder {
    destination: [u8; 6],
    source: [u8; 6],
    capacity: usize,
    datagrams: Vec<WireDatagram>,
    body_len: usize,
}

impl FrameBuilder {
    /// The datagram chain collected so far.
    pub closed spec fn images(&self) -> Seq<DatagramImage> {
        self.datagrams@.map_values(|d: WireDatagram| d.image())
    }

    pub closed spec fn spec_destination(&self) -> Seq<u8> {
        self.destination@
    }

    pub closed spec fn spec_source(&self) -> Seq<u8> {
        self.source@
    }

    /// Usable frame bytes: the buffer size, at most one Ethernet frame.
    pub closed spec fn spec_capacity(&self) -> int {
        self.capacity as int
    }

    pub closed spec fn wf(&self) -> bool {
        &&& self.body_len == body_size(self.images(), self.images().len() as int)
        &&& 16 + self.body_len <= self.capacity
        &&& self.body_len <= MAX_ETHERCAT_LEN
        &&& self.capacity <= MAX_ETHERNET_FRAME_LEN
        &&& MIN_ETHERNET_FRAME_LEN <= self.capacity
    }

    /// Start a frame for a buffer of `capacity` bytes.
    pub fn new(capacity: usize, destination: [u8; 6], source: [u8; 6]) -> (result: Result<
        Self,
        WireError,
    >)
        ensures
            capacity < MIN_ETHERNET_FRAME_LEN <==> result is Err,
            result is Err ==> result == Err::<Self, WireError>(WireError::BufferTooSmall),
            result matches Ok(builder) ==> {
                &&& builder.wf()
                &&& builder.images() == Seq::<DatagramImage>::empty()
                &&& builder.spec_destination() == destination@
                &&& builder.spec_source() == source@
                &&& builder.spec_capacity() == if capacity < MAX_ETHERNET_FRAME_LEN {
                    capacity as int
                } else {
                    MAX_ETHERNET_FRAME_LEN as int
                }
            },
    {
        if capacity < MIN_ETHERNET_FRAME_LEN {
            return Err(WireError::BufferTooSmall);
        }
        let capacity = if capacity < MAX_ETHERNET_FRAME_LEN {
            capacity
        } else {
            MAX_ETHERNET_FRAME_LEN
        };
        let builder = FrameBuilder {
            destination,
            source,
            capacity,
            datagrams: Vec::new(),
            body_len: 0,
        };
        assert(builder.images() =~= Seq::<DatagramImage>::empty());
        Ok(builder)
    }

    pub fn len(&self) -> (count: usize)
        ensures
            count == self.images().len(),
    {
        self.datagrams.len()
    }

    pub fn is_empty(&self) -> (empty: bool)
        ensures
            empty == (self.images().len() == 0),
    {
        self.datagrams.len() == 0
    }

    /// Encoded EtherCAT body length so far.
    pub fn body_len(&self) -> (body_len: usize)
        requires
            self.wf(),
        ensures
            body_len == body_size(self.images(), self.images().len() as int),
    {
        self.body_len
    }

    /// Append one datagram. Fails without change when the payload, the
    /// EtherCAT length field or the buffer would overflow.
    pub fn push(&mut self, command: Command, index: u8, address: u32, payload: &[u8]) -> (result:
        Result<(), WireError>)
        requires
            old(self).wf(),
        ensures
            final(self).wf(),
            ({
                let next_body = body_size(old(self).images(), old(self).images().len() as int) + 12 + payload@.len();
                &&& (payload@.len() > MAX_ETHERCAT_LEN ==> result == Err::<(), WireError>(
                    WireError::PayloadTooLarge,
                ))
                &&& (payload@.len() <= MAX_ETHERCAT_LEN && next_body > MAX_ETHERCAT_LEN
                    ==> result == Err::<(), WireError>(WireError::FrameTooLarge))
                &&& (payload@.len() <= MAX_ETHERCAT_LEN && next_body <= MAX_ETHERCAT_LEN && 16
                    + next_body > old(self).spec_capacity() ==> result == Err::<(), WireError>(
                    WireError::BufferTooSmall,
                ))
                &&& (next_body <= MAX_ETHERCAT_LEN && 16 + next_body <= old(self).spec_capacity()
                    ==> result is Ok)
            }),
            result is Ok ==> final(self).images() == old(self).images().push(
                (command, index, address, payload@),
            ),
            result is Err ==> final(self).images() == old(self).images(),
            final(self).spec_destination() == old(self).spec_destination(),
            final(self).spec_source() == old(self).spec_source(),
            final(self).spec_capacity() == old(self).spec_capacity(),
    {
        let len = payload.len();
        if len > MAX_ETHERCAT_LEN {
            return Err(WireError::PayloadTooLarge);
        }
        let next_body = self.body_len + 12 + len;
        if next_body > MAX_ETHERCAT_LEN {
            return Err(WireError::FrameTooLarge);
        }
        if 16 + next_body > self.capacity {
            return Err(WireError::BufferTooSmall);
        }
        let ghost old_images = self.images();
        let copy = crate::bytes::copy_range(payload, 0, len);
        assert(copy@ =~= payload@);
        self.datagrams.push(WireDatagram { command, index, address, payload: copy });
        self.body_len = next_body;
        assert(self.images() =~= old_images.push((command, index, address, payload@)));
        proof {
            lemma_body_size_push(old_images, (command, index, address, payload@), old_images.len() as int);
        }
        Ok(())
    }

    /// Encode the collected datagrams into `buffer` and return the frame
    /// length, zero padding short frames to the Ethernet minimum.
    pub fn finish(&self, buffer: &mut [u8]) -> (result: Result<usize, WireError>)
        requires
            self.wf(),
        ensures
            self.images().len() == 0 ==> result == Err::<usize, WireError>(
                WireError::DatagramHeaderTruncated,
            ),
            self.images().len() > 0 && old(buffer)@.len() < frame_len(self.images())
                ==> result == Err::<usize, WireError>(WireError::BufferTooSmall),
            self.images().len() > 0 && old(buffer)@.len() >= frame_len(self.images())
                ==> result is Ok,
            result is Err ==> final(buffer)@ == old(buffer)@,
            final(buffer)@.len() == old(buffer)@.len(),
            result matches Ok(length) ==> {
                &&& length == frame_len(self.images())
                &&& final(buffer)@ == splice(
                    old(buffer)@,
                    0,
                    frame_bytes(self.spec_destination(), self.spec_source(), self.images())
                        + zeros((length - 16 - body_size(self.images(), self.images().len() as int)) as nat),
                )
            },
    {
        let count = self.datagrams.len();
        if count == 0 {
            return Err(WireError::DatagramHeaderTruncated);
        }
        let ghost ds = self.images();
        let unpadded = 16 + self.body_len;
        let length = if unpadded < MIN_ETHERNET_FRAME_LEN {
            MIN_ETHERNET_FRAME_LEN
        } else {
            unpadded
        };
        if buffer.len() < length {
            return Err(WireError::BufferTooSmall);
        }
        let ghost initial = buffer@;
        let ecat_header = le16_bytes((self.body_len + 0x1000) as u16);
        let ethertype: [u8; 2] = [ETHERTYPE_HIGH, ETHERTYPE_LOW];
        write_bytes(buffer, 0, self.destination.as_slice());
        write_bytes(buffer, 6, self.source.as_slice());
        proof {
            lemma_splice_append(initial, 0, self.destination@, self.source@);
        }
        write_bytes(buffer, 12, ethertype.as_slice());
        proof {
            lemma_splice_append(initial, 0, self.destination@ + self.source@, ethertype@);
        }
        write_bytes(buffer, 14, ecat_header.as_slice());
        proof {
            lemma_splice_append(
                initial,
                0,
                self.destination@ + self.source@ + ethertype@,
                ecat_header@,
            );
            assert(self.destination@ + self.source@ + ethertype@ + ecat_header@ =~= frame_header_bytes(
                self.destination@,
                self.source@,
                self.body_len as int,
            ));
            assert(body_bytes(ds, 0) =~= Seq::<u8>::empty());
            assert(frame_header_bytes(self.destination@, self.source@, self.body_len as int)
                + body_bytes(ds, 0) =~= frame_header_bytes(
                self.destination@,
                self.source@,
                self.body_len as int,
            ));
        }
        let mut pos: usize = 16;
        let mut i: usize = 0;
        while i < count
            invariant
                self.wf(),
                ds == self.images(),
                count == ds.len(),
                0 <= i <= count,
                initial.len() == old(buffer)@.len(),
                buffer@.len() == initial.len(),
                length <= initial.len(),
                unpadded <= length,
                self.destination@.len() == 6,
                self.source@.len() == 6,
                unpadded == 16 + body_size(ds, count as int),
                pos == 16 + body_size(ds, i as int),
                buffer@ == splice(
                    initial,
                    0,
                    frame_header_bytes(self.destination@, self.source@, self.body_len as int)
                        + body_bytes(ds, i as int),
                ),
            decreases count - i,
        {
            proof {
                lemma_body_bytes_len(ds, i as int);
                lemma_body_bytes_len(ds, i + 1);
                lemma_body_size_monotone(ds, i + 1, count as int);
            }
            let datagram = &self.datagrams[i];
            let more = i + 1 < count;
            assert(datagram.image() == ds[i as int]);
            assert(body_size(ds, i + 1) == body_size(ds, i as int) + 12 + ds[i as int].3.len());
            let next = write_datagram(buffer, pos, datagram, more);
            proof {
                let head = frame_header_bytes(self.destination@, self.source@, self.body_len as int);
                lemma_splice_append(
                    initial,
                    0,
                    head + body_bytes(ds, i as int),
                    datagram_bytes(ds[i as int], more),
                );
                assert(head + body_bytes(ds, i as int) + datagram_bytes(ds[i as int], more)
                    =~= head + body_bytes(ds, i + 1));
            }
            pos = next;
            i = i + 1;
        }
        proof {
            lemma_body_bytes_len(ds, count as int);
        }
        zero_bytes(buffer, unpadded, length - unpadded);
        proof {
            let head = frame_header_bytes(self.destination@, self.source@, self.body_len as int);
            lemma_splice_append(
                initial,
                0,
                head + body_bytes(ds, count as int),
                zeros((length - unpadded) as nat),
            );
        }
        Ok(length)
    }
}

/// Write one datagram at `at` and return the offset just past it.
fn write_datagram(buffer: &mut [u8], at: usize, datagram: &WireDatagram, more: bool) -> (next:
    usize)
    requires
        datagram.payload@.len() <= MAX_ETHERCAT_LEN,
        at + 12 + datagram.payload@.len() <= old(buffer)@.len(),
    ensures
        next == at + 12 + datagram.payload@.len(),
        final(buffer)@ == splice(old(buffer)@, at as int, datagram_bytes(datagram.image(), more)),
{
    let ghost initial = buffer@;
    let _buffer_len = buffer.len();
    let len = datagram.payload.len();
    let word: u16 = if more {
        (len + 0x8000) as u16
    } else {
        len as u16
    };
    let address = le32_bytes(datagram.address);
    let length = le16_bytes(word);
    let header: [u8; 10] = [
        datagram.command.code(),
        datagram.index,
        address[0],
        address[1],
        address[2],
        address[3],
        length[0],
        length[1],
        0,
        0,
    ];
    let trailer: [u8; 2] = [0, 0];
    write_bytes(buffer, at, header.as_slice());
    write_bytes(buffer, at + 10, datagram.payload.as_slice());
    proof {
        lemma_splice_append(initial, at as int, header@, datagram.payload@);
    }
    write_bytes(buffer, at + 10 + len, trailer.as_slice());
    proof {
        lemma_splice_append(initial, at as int, header@ + datagram.payload@, trailer@);
        assert(header@ + datagram.payload@ + trailer@ =~= datagram_bytes(datagram.image(), more));
    }
    at + 10 + len + 2
}

/// The EtherCAT body length a frame declares, or why it is not a frame.
pub open spec fn spec_parse_frame(s: Seq<u8>) -> Result<int, WireError> {
    if s.len() < 16 {
        Err(WireError::FrameTooShort)
    } else if s.len() > MAX_ETHERNET_FRAME_LEN {
        Err(WireError::FrameTooLarge)
    } else if s[12] != ETHERTYPE_HIGH || s[13] != ETHERTYPE_LOW {
        Err(WireError::NotEthercat)
    } else if get_le16(s, 14) / 0x1000 != 1 {
        Err(WireError::UnsupportedType)
    } else if 16 + get_le16(s, 14) % 0x800 > s.len() {
        Err(WireError::LengthOutOfBounds)
    } else {
        Ok(get_le16(s, 14) % 0x800)
    }
}

/// A decoded datagram: header, payload bytes and working counter.
pub type DecodedDatagram = (DatagramHeader, Seq<u8>, u16);

/// Decode the datagram at `off` of a body that ends at `end`.
pub open spec fn spec_decode_datagram(s: Seq<u8>, off: int, end: int) -> Result<
    DecodedDatagram,
    WireError,
> {
    if off + 10 > end {
        Err(WireError::DatagramHeaderTruncated)
    } else if Command::spec_from_code(s[off]) is None {
        Err(WireError::UnknownCommand)
    } else if off + 12 + get_le16(s, off + 6) % 0x800 > end {
        Err(WireError::DatagramPayloadTruncated)
    } else {
        let len = get_le16(s, off + 6) % 0x800;
        Ok(
            (
                DatagramHeader {
                    command: Command::spec_from_code(s[off])->0,
                    index: s[off + 1],
                    address: get_le32(s, off + 2) as u32,
                    length: len as u16,
                    last: get_le16(s, off + 6) < 0x8000,
                },
                s.subrange(off + 10, off + 10 + len),
                get_le16(s, off + 10 + len) as u16,
            ),
        )
    }
}

/// Decode the datagram chain from `off` until its last datagram, the end of
/// the body, or the first malformed datagram.
pub open spec fn spec_decode_chain(s: Seq<u8>, off: int, end: int) -> Seq<
    Result<DecodedDatagram, WireError>,
>
    decreases end - off,
{
    if off >= end {
        Seq::empty()
    } else {
        match spec_decode_datagram(s, off, end) {
            Err(e) => seq![Err(e)],
            Ok(d) => if d.0.last {
                seq![Ok(d)]
            } else {
                seq![Ok(d)] + spec_decode_chain(s, off + 12 + get_le16(s, off + 6) % 0x800, end)
            },
        }
    }
}

/// A decoded chain has at most one element per remaining body byte.
pub proof fn lemma_decode_chain_len(s: Seq<u8>, off: int, end: int)
    ensures
        spec_decode_chain(s, off, end).len() <= if off < end { end - off } else { 0 },
    decreases end - off,
{
    if off < end {
        match spec_decode_datagram(s, off, end) {
            Err(e) => {},
            Ok(d) => {
                if !d.0.last {
                    lemma_decode_chain_len(s, off + 12 + get_le16(s, off + 6) % 0x800, end);
                }
            },
        }
    }
}

/// Only the last element of a decoded chain can be an error.
pub proof fn lemma_decode_chain_error_last(s: Seq<u8>, off: int, end: int)
    ensures
        forall|k: int|
            0 <= k < spec_decode_chain(s, off, end).len() - 1 ==> (#[trigger] spec_decode_chain(s, off, end)[k]) is Ok,
    decreases end - off,
{
    if off < end {
        match spec_decode_datagram(s, off, end) {
            Err(e) => {},
            Ok(d) => {
                if !d.0.last {
                    let next = off + 12 + get_le16(s, off + 6) % 0x800;
                    lemma_decode_chain_error_last(s, next, end);
                    let tail = spec_decode_chain(s, next, end);
                    assert(spec_decode_chain(s, off, end) == seq![Ok(d)] + tail);
                    assert forall|k: int| 0 <= k < spec_decode_chain(s, off, end).len() - 1 implies (#[trigger] spec_decode_chain(s, off, end)[k]) is Ok by {
                        if k > 0 {
                            assert(spec_decode_chain(s, off, end)[k] == tail[k - 1]);
                        }
                    }
                }
            },
        }
    }
}

/// A datagram borrowed from a received frame.
#[derive(Clone, Copy, Debug, PartialEq, Eq)]
pub struct Datagram<'a> {
    pub header: DatagramHeader,
    pub payload: &'a [u8],
    pub working_counter: u16,
}

impl<'a> Datagram<'a> {
    pub open spec fn decoded(&self) -> DecodedDatagram {
        (self.header, self.payload@, self.working_counter)
    }
}

pub open spec fn decoded_view<'a>(r: Result<Datagram<'a>, WireError>) -> Result<
    DecodedDatagram,
    WireError,
> {
    match r {
        Ok(d) => Ok(d.decoded()),
        Err(e) => Err(e),
    }
}

/// Decode the datagram at `off` of a body that ends at `end`.
pub fn decode_datagram<'a>(bytes: &'a [u8], off: usize, end: usize) -> (result: Result<
    Datagram<'a>,
    WireError,
>)
    requires
        end <= bytes@.len(),
    ensures
        decoded_view(result) == spec_decode_datagram(bytes@, off as int, end as int),
{
    let _len = bytes.len();
    if off > end || end - off < 10 {
        return Err(WireError::DatagramHeaderTruncated);
    }
    let command = match Command::from_code(bytes[off]) {
        Some(command) => command,
        None => return Err(WireError::UnknownCommand),
    };
    let word = read_u16_le(bytes, off + 6);
    let len = (word % 0x800) as usize;
    if end - off < 12 + len {
        return Err(WireError::DatagramPayloadTruncated);
    }
    let address = read_u32_le(bytes, off + 2);
    let working_counter = read_u16_le(bytes, off + 10 + len);
    let header = DatagramHeader {
        command,
        index: bytes[off + 1],
        address,
        length: len as u16,
        last: word < 0x8000,
    };
    Ok(Datagram { header, payload: &bytes[off + 10..off + 10 + len], working_counter })
}

/// A received EtherCAT frame whose Ethernet and EtherCAT headers are valid.
#[derive(Clone, Copy, Debug)]
pub struct FrameView<'a> {
    bytes: &'a [u8],
    ethercat_len: usize,
}

impl<'a> FrameView<'a> {
    pub closed spec fn spec_bytes(&self) -> Seq<u8> {
        self.bytes@
    }

    pub closed spec fn spec_ethercat_len(&self) -> int {
        self.ethercat_len as int
    }

    /// Validate the Ethernet and EtherCAT headers of `bytes`.
    pub fn parse(bytes: &'a [u8]) -> (result: Result<FrameView<'a>, WireError>)
        ensures
            match spec_parse_frame(bytes@) {
                Ok(len) => result matches Ok(view) && view.spec_bytes() == bytes@
                    && view.spec_ethercat_len() == len,
                Err(e) => result == Err::<FrameView<'a>, WireError>(e),
            },
    {
        if bytes.len() < 16 {
            return Err(WireError::FrameTooShort);
        }
        if bytes.len() > MAX_ETHERNET_FRAME_LEN {
            return Err(WireError::FrameTooLarge);
        }
        if bytes[12] != ETHERTYPE_HIGH || bytes[13] != ETHERTYPE_LOW {
            return Err(WireError::NotEthercat);
        }
        let word = read_u16_le(bytes, 14);
        if word / 0x1000 != 1 {
            return Err(WireError::UnsupportedType);
        }
        let ethercat_len = (word % 0x800) as usize;
        if 16 + ethercat_len > bytes.len() {
            return Err(WireError::LengthOutOfBounds);
        }
        Ok(FrameView { bytes, ethercat_len })
    }

    /// Length of the datagram body the EtherCAT header declares.
    pub fn ethercat_len(&self) -> (len: usize)
        ensures
            len == self.spec_ethercat_len(),
    {
        self.ethercat_len
    }

    /// The decoded datagram chain, ending with the first decoding error.
    pub fn datagrams(&self) -> (result: Vec<Result<Datagram<'a>, WireError>>)
        requires
            16 + self.spec_ethercat_len() <= self.spec_bytes().len(),
        ensures
            result@.map_values(|r: Result<Datagram<'a>, WireError>| decoded_view(r))
                == spec_decode_chain(self.spec_bytes(), 16, 16 + self.spec_ethercat_len()),
    {
        let _bytes_len = self.bytes.len();
        let end = 16 + self.ethercat_len;
        let mut result: Vec<Result<Datagram<'a>, WireError>> = Vec::new();
        let mut off: usize = 16;
        let ghost s = self.bytes@;
        while off < end
            invariant
                s == self.bytes@,
                end == 16 + self.ethercat_len,
                end <= s.len(),
                16 <= off,
                result@.map_values(|r: Result<Datagram<'a>, WireError>| decoded_view(r))
                    + spec_decode_chain(s, off as int, end as int) == spec_decode_chain(
                    s,
                    16,
                    end as int,
                ),
            decreases end - off,
        {
            let ghost before = result@;
            let decoded = decode_datagram(self.bytes, off, end);
            match decoded {
                Err(error) => {
                    result.push(Err(error));
                    assert(result@.map_values(
                        |r: Result<Datagram<'a>, WireError>| decoded_view(r),
                    ) =~= before.map_values(|r: Result<Datagram<'a>, WireError>| decoded_view(r))
                        + spec_decode_chain(s, off as int, end as int));
                    return result;
                },
                Ok(datagram) => {
                    result.push(Ok(datagram));
                    let last = datagram.header.last;
                    let next = off + 12 + datagram.payload.len();
                    if last {
                        assert(result@.map_values(
                            |r: Result<Datagram<'a>, WireError>| decoded_view(r),
                        ) =~= before.map_values(
                            |r: Result<Datagram<'a>, WireError>| decoded_view(r),
                        ) + spec_decode_chain(s, off as int, end as int));
                        return result;
                    }
                    assert(result@.map_values(
                        |r: Result<Datagram<'a>, WireError>| decoded_view(r),
                    ) + spec_decode_chain(s, next as int, end as int) =~= before.map_values(
                        |r: Result<Datagram<'a>, WireError>| decoded_view(r),
                    ) + spec_decode_chain(s, off as int, end as int));
                    off = next;
                },
            }
        }
        assert(spec_decode_chain(s, off as int, end as int) =~= Seq::<
            Result<DecodedDatagram, WireError>,
        >::empty());
        assert(result@.map_values(|r: Result<Datagram<'a>, WireError>| decoded_view(r))
            =~= result@.map_values(|r: Result<Datagram<'a>, WireError>| decoded_view(r))
            + spec_decode_chain(s, off as int, end as int));
        result
    }
}

} // verus!
