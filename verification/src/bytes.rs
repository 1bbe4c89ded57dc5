//! Little-endian field codecs over byte slices.
use vstd::prelude::*;

verus! {

/// Two little-endian bytes of `v` (taken modulo 2^16).
pub open spec fn le16(v: int) -> Seq<u8> {
    seq![(v % 0x100) as u8, ((v / 0x100) % 0x100) as u8]
}

/// Four little-endian bytes of `v` (taken modulo 2^32).
pub open spec fn le32(v: int) -> Seq<u8> {
    seq![
        (v % 0x100) as u8,
        ((v / 0x100) % 0x100) as u8,
        ((v / 0x10000) % 0x100) as u8,
        ((v / 0x1000000) % 0x100) as u8,
    ]
}

/// Eight little-endian bytes of `v` (taken modulo 2^64).
pub open spec fn le64(v: int) -> Seq<u8> {
    le32(v % 0x1_0000_0000) + le32(v / 0x1_0000_0000)
}

/// The unsigned value of two little-endian bytes at `at`.
pub open spec fn get_le16(s: Seq<u8>, at: int) -> int {
    s[at] + 0x100 * s[at + 1]
}

/// The unsigned value of four little-endian bytes at `at`.
pub open spec fn get_le32(s: Seq<u8>, at: int) -> int {
    get_le16(s, at) + 0x10000 * get_le16(s, at + 2)
}

/// The unsigned value of eight little-endian bytes at `at`.
pub open spec fn get_le64(s: Seq<u8>, at: int) -> int {
    get_le32(s, at) + 0x1_0000_0000 * get_le32(s, at + 4)
}

/// `s` with the bytes `x` written at offset `at`.
pub open spec fn splice(s: Seq<u8>, at: int, x: Seq<u8>) -> Seq<u8> {
    s.subrange(0, at) + x + s.subrange(at + x.len(), s.len() as int)
}

/// `n` zero bytes.
pub open spec fn zeros(n: nat) -> Seq<u8> {
    Seq::new(n, |i: int| 0u8)
}

/// Decoding the little-endian bytes of a 16-bit value gives it back.
pub proof fn lemma_le16_round_trip(v: int)
    requires
        0 <= v < 0x10000,
    ensures
        get_le16(le16(v), 0) == v,
{
}

/// Decoding the little-endian bytes of a 32-bit value gives it back.
pub proof fn lemma_le32_round_trip(v: int)
    requires
        0 <= v < 0x1_0000_0000,
    ensures
        get_le32(le32(v), 0) == v,
{
}

/// Decoding the little-endian bytes of a 64-bit value gives it back.
pub proof fn lemma_le64_round_trip(v: int)
    requires
        0 <= v < 0x1_0000_0000_0000_0000,
    ensures
        get_le64(le64(v), 0) == v,
{
    lemma_le32_round_trip(v % 0x1_0000_0000);
    lemma_le32_round_trip(v / 0x1_0000_0000);
    let s = le64(v);
    assert(get_le32(s, 0) == get_le32(le32(v % 0x1_0000_0000), 0));
    assert(get_le32(s, 4) == get_le32(le32(v / 0x1_0000_0000), 0));
}

/// Reading what a little-endian write put there gives the value back.
pub proof fn lemma_get_le16_of_splice(s: Seq<u8>, at: int, v: int)
    requires
        0 <= at,
        at + 2 <= s.len(),
        0 <= v < 0x10000,
    ensures
        get_le16(splice(s, at, le16(v)), at) == v,
        splice(s, at, le16(v)).len() == s.len(),
{
    let t = splice(s, at, le16(v));
    assert(t[at] == le16(v)[0]);
    assert(t[at + 1] == le16(v)[1]);
}

pub fn read_u16_le(s: &[u8], at: usize) -> (v: u16)
    requires
        at + 2 <= s@.len(),
    ensures
        v == get_le16(s@, at as int),
{
    s[at] as u16 + 0x100 * s[at + 1] as u16
}

pub fn read_u32_le(s: &[u8], at: usize) -> (v: u32)
    requires
        at + 4 <= s@.len(),
    ensures
        v == get_le32(s@, at as int),
{
    let _len = s.len();
    let low = read_u16_le(s, at) as u32;
    let high = read_u16_le(s, at + 2) as u32;
    low + 0x10000 * high
}

pub fn read_u64_le(s: &[u8], at: usize) -> (v: u64)
    requires
        at + 8 <= s@.len(),
    ensures
        v == get_le64(s@, at as int),
{
    let _len = s.len();
    let low = read_u32_le(s, at) as u64;
    let high = read_u32_le(s, at + 4) as u64;
    low + 0x1_0000_0000 * high
}

pub fn le16_bytes(v: u16) -> (bytes: [u8; 2])
    ensures
        bytes@ == le16(v as int),
{
    let bytes = [(v % 0x100) as u8, (v / 0x100) as u8];
    assert(bytes@ =~= le16(v as int));
    bytes
}

pub fn le32_bytes(v: u32) -> (bytes: [u8; 4])
    ensures
        bytes@ == le32(v as int),
{
    let bytes = [
        (v % 0x100) as u8,
        ((v / 0x100) % 0x100) as u8,
        ((v / 0x10000) % 0x100) as u8,
        (v / 0x1000000) as u8,
    ];
    assert(bytes@ =~= le32(v as int));
    bytes
}

pub fn le64_bytes(v: u64) -> (bytes: [u8; 8])
    ensures
        bytes@ == le64(v as int),
{
    let low = le32_bytes((v % 0x1_0000_0000) as u32);
    let high = le32_bytes((v / 0x1_0000_0000) as u32);
    let bytes = [low[0], low[1], low[2], low[3], high[0], high[1], high[2], high[3]];
    assert(bytes@ =~= le64(v as int));
    bytes
}

/// Copy `src` into `dst` at offset `at`, leaving every other byte unchanged.
pub fn write_bytes(dst: &mut [u8], at: usize, src: &[u8])
    requires
        at + src@.len() <= old(dst)@.len(),
    ensures
        final(dst)@ == splice(old(dst)@, at as int, src@),
{
    let ghost initial = dst@;
    let dst_len = dst.len();
    let mut i: usize = 0;
    while i < src.len()
        invariant
            i <= src@.len(),
            dst_len == initial.len(),
            at + src@.len() <= initial.len(),
            dst@.len() == initial.len(),
            forall|k: int| 0 <= k < at ==> dst@[k] == initial[k],
            forall|k: int| at <= k < at + i ==> dst@[k] == src@[k - at],
            forall|k: int| at + i <= k < initial.len() ==> dst@[k] == initial[k],
        decreases src@.len() - i,
    {
        dst[at + i] = src[i];
        i = i + 1;
    }
    assert(dst@ =~= splice(initial, at as int, src@));
}

/// Fill `len` bytes of `dst` from `at` with zero.
pub fn zero_bytes(dst: &mut [u8], at: usize, len: usize)
    requires
        at + len <= old(dst)@.len(),
    ensures
        final(dst)@ == splice(old(dst)@, at as int, zeros(len as nat)),
{
    let ghost initial = dst@;
    let dst_len = dst.len();
    let mut i: usize = 0;
    while i < len
        invariant
            i <= len,
            dst_len == initial.len(),
            at + len <= initial.len(),
            dst@.len() == initial.len(),
            forall|k: int| 0 <= k < at ==> dst@[k] == initial[k],
            forall|k: int| at <= k < at + i ==> dst@[k] == 0,
            forall|k: int| at + i <= k < initial.len() ==> dst@[k] == initial[k],
        decreases len - i,
    {
        dst[at + i] = 0;
        i = i + 1;
    }
    assert(dst@ =~= splice(initial, at as int, zeros(len as nat)));
}

/// A copy of `len` bytes of `src` starting at `at`.
pub fn copy_range(src: &[u8], at: usize, len: usize) -> (out: Vec<u8>)
    requires
        at + len <= src@.len(),
    ensures
        out@ == src@.subrange(at as int, at + len),
{
    let mut out: Vec<u8> = Vec::new();
    let src_len = src.len();
    let mut i: usize = 0;
    while i < len
        invariant
            i <= len,
            src_len == src@.len(),
            at + len <= src@.len(),
            out@ == src@.subrange(at as int, at + i),
        decreases len - i,
    {
        out.push(src[at + i]);
        i = i + 1;
        assert(out@ =~= src@.subrange(at as int, at + i));
    }
    out
}

/// Whether two byte slices hold the same bytes.
pub fn bytes_equal(left: &[u8], right: &[u8]) -> (equal: bool)
    ensures
        equal == (left@ == right@),
{
    if left.len() != right.len() {
        return false;
    }
    let mut i: usize = 0;
    while i < left.len()
        invariant
            i <= left@.len(),
            left@.len() == right@.len(),
            forall|k: int| 0 <= k < i ==> left@[k] == right@[k],
        decreases left@.len() - i,
    {
        if left[i] != right[i] {
            return false;
        }
        i = i + 1;
    }
    assert(left@ =~= right@);
    true
}

} // verus!
