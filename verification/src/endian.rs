use crate::read_buffer::ReadBuffer;
use vstd::prelude::*;

verus! {

/// Number of bytes of an unsigned offset (`UOffsetT`).
pub const SIZE_UOFFSET: usize = 4;

/// The unsigned 16-bit integer stored little-endian at `at`.
pub open spec fn le_u16(bytes: Seq<u8>, at: int) -> int {
    bytes[at] + 256 * bytes[at + 1]
}

/// The unsigned 32-bit integer stored little-endian at `at`.
pub open spec fn le_u32(bytes: Seq<u8>, at: int) -> int {
    le_u16(bytes, at) + 65536 * le_u16(bytes, at + 2)
}

/// The unsigned 64-bit integer stored little-endian at `at`.
pub open spec fn le_u64(bytes: Seq<u8>, at: int) -> int {
    le_u32(bytes, at) + 4294967296 * le_u32(bytes, at + 4)
}

/// Four bytes read little-endian give a number below 2^32, and two windows of
/// four bytes read the same number only when they hold the same bytes.
pub proof fn lemma_le_u32_unique(a: Seq<u8>, i: int, b: Seq<u8>, j: int)
    requires
        0 <= i && i + 4 <= a.len(),
        0 <= j && j + 4 <= b.len(),
    ensures
        0 <= le_u32(a, i) <= 0xffff_ffff,
        le_u32(a, i) == le_u32(b, j) ==> a.subrange(i, i + 4) == b.subrange(j, j + 4),
{
    if le_u32(a, i) == le_u32(b, j) {
        let (a0, a1, a2, a3) = (a[i] as int, a[i + 1] as int, a[i + 2] as int, a[i + 3] as int);
        let (b0, b1, b2, b3) = (b[j] as int, b[j + 1] as int, b[j + 2] as int, b[j + 3] as int);
        assert(a0 == b0 && a1 == b1 && a2 == b2 && a3 == b3) by (nonlinear_arith)
            requires
                0 <= a0 < 256 && 0 <= a1 < 256 && 0 <= a2 < 256 && 0 <= a3 < 256,
                0 <= b0 < 256 && 0 <= b1 < 256 && 0 <= b2 < 256 && 0 <= b3 < 256,
                a0 + 256 * a1 + 65536 * (a2 + 256 * a3) == b0 + 256 * b1 + 65536 * (b2 + 256
                    * b3),
        ;
        assert(a.subrange(i, i + 4) =~= b.subrange(j, j + 4));
    }
}

/// Reads the byte at `loc`.
pub fn read_u8_at<B: ReadBuffer + ?Sized>(buf: &B, loc: usize) -> (v: u8)
    requires
        loc + 1 <= buf@.len(),
    ensures
        v == buf@[loc as int],
{
    let b = buf.pin_bytes(loc, 1);
    b[0]
}

/// Reads the little-endian `u16` at `loc`.
pub fn read_u16_at<B: ReadBuffer + ?Sized>(buf: &B, loc: usize) -> (v: u16)
    requires
        loc + 2 <= buf@.len(),
    ensures
        v == le_u16(buf@, loc as int),
{
    let b = buf.pin_bytes(loc, 2);
    b[0] as u16 + 256 * (b[1] as u16)
}

/// Reads the little-endian `u32` at `loc`.
pub fn read_u32_at<B: ReadBuffer + ?Sized>(buf: &B, loc: usize) -> (v: u32)
    requires
        loc + 4 <= buf@.len(),
    ensures
        v == le_u32(buf@, loc as int),
{
    let b = buf.pin_bytes(loc, 4);
    let lo: u32 = b[0] as u32 + 256 * (b[1] as u32);
    let hi: u32 = b[2] as u32 + 256 * (b[3] as u32);
    lo + 65536 * hi
}

/// Reads the little-endian `u64` at `loc`.
pub fn read_u64_at<B: ReadBuffer + ?Sized>(buf: &B, loc: usize) -> (v: u64)
    requires
        loc + 8 <= buf@.len(),
    ensures
        v == le_u64(buf@, loc as int),
{
    let b = buf.pin_bytes(loc, 8);
    let w0: u64 = b[0] as u64 + 256 * (b[1] as u64);
    let w1: u64 = b[2] as u64 + 256 * (b[3] as u64);
    let w2: u64 = b[4] as u64 + 256 * (b[5] as u64);
    let w3: u64 = b[6] as u64 + 256 * (b[7] as u64);
    let lo: u64 = w0 + 65536 * w1;
    let hi: u64 = w2 + 65536 * w3;
    lo + 4294967296 * hi
}

} // verus!
