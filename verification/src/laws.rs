//! What each read gives, stated directly against the bytes of the buffer.

use crate::follow::Follow;
use crate::primitives::ForwardsUOffset;
use crate::read_buffer::ReadBuffer;
use crate::vector::{element_loc, vector_len, Vector};
use vstd::layout::size_of;
use vstd::prelude::*;
use vstd::utf8::{decode_utf8, decode_utf8_encode_utf8, encode_utf8, valid_utf8};

verus! {

/// A `u8` is well formed wherever a byte is stored, and reads as that byte,
/// unchanged, for every value 0..=255.
pub proof fn law_u8_reads_stored_byte<'a, B: ReadBuffer + ?Sized>(buf: Seq<u8>, loc: int)
    ensures
        <u8 as Follow<'a, B>>::valid_at(buf, loc) <==> 0 <= loc < buf.len(),
        0 <= loc < buf.len() ==> <u8 as Follow<'a, B>>::view_at(buf, loc) == buf[loc],
{
}

/// A `bool` reads as `true` exactly when its byte is not zero.
pub proof fn law_bool_reads_nonzero_byte<'a, B: ReadBuffer + ?Sized>(buf: Seq<u8>, loc: int)
    ensures
        <bool as Follow<'a, B>>::valid_at(buf, loc) <==> 0 <= loc < buf.len(),
        0 <= loc < buf.len() ==> (<bool as Follow<'a, B>>::view_at(buf, loc) <==> buf[loc] != 0),
{
}

/// A `u16` reads as its two bytes, least significant first.
pub proof fn law_u16_reads_little_endian<'a, B: ReadBuffer + ?Sized>(buf: Seq<u8>, loc: int)
    ensures
        <u16 as Follow<'a, B>>::valid_at(buf, loc) <==> 0 <= loc && loc + 2 <= buf.len(),
        0 <= loc && loc + 2 <= buf.len() ==> <u16 as Follow<'a, B>>::view_at(buf, loc) == buf[loc]
            + 256 * buf[loc + 1],
{
}

/// A `u32` reads as its four bytes, least significant first.
pub proof fn law_u32_reads_little_endian<'a, B: ReadBuffer + ?Sized>(buf: Seq<u8>, loc: int)
    ensures
        <u32 as Follow<'a, B>>::valid_at(buf, loc) <==> 0 <= loc && loc + 4 <= buf.len(),
        0 <= loc && loc + 4 <= buf.len() ==> <u32 as Follow<'a, B>>::view_at(buf, loc) == buf[loc]
            + 256 * buf[loc + 1] + 65536 * buf[loc + 2] + 16777216 * buf[loc + 3],
{
}

/// A `u64` reads as its eight bytes, least significant first.
pub proof fn law_u64_reads_little_endian<'a, B: ReadBuffer + ?Sized>(buf: Seq<u8>, loc: int)
    ensures
        <u64 as Follow<'a, B>>::valid_at(buf, loc) <==> 0 <= loc && loc + 8 <= buf.len(),
        0 <= loc && loc + 8 <= buf.len() ==> <u64 as Follow<'a, B>>::view_at(buf, loc) == buf[loc]
            + 256 * buf[loc + 1] + 65536 * buf[loc + 2] + 16777216 * buf[loc + 3] + 4294967296
            * buf[loc + 4] + 1099511627776 * buf[loc + 5] + 281474976710656 * buf[loc + 6]
            + 72057594037927936 * buf[loc + 7],
{
}

/// A byte string is a length `n` in all four bytes at `loc`, least
/// significant first, followed by its `n` bytes; it reads as exactly those
/// `n` bytes.
pub proof fn law_byte_string_reads_prefixed_bytes<'a, B: ReadBuffer + ?Sized>(
    buf: Seq<u8>,
    loc: int,
)
    ensures
        ({
            let n = buf[loc] + 256 * buf[loc + 1] + 65536 * buf[loc + 2] + 16777216 * buf[loc
                + 3];
            &&& <&'a [u8] as Follow<'a, B>>::valid_at(buf, loc) <==> 0 <= loc && loc + 4 <= buf.len()
                && loc + 4 + n <= buf.len()
            &&& <&'a [u8] as Follow<'a, B>>::valid_at(buf, loc) ==> <&'a [u8] as Follow<
                'a,
                B,
            >>::view_at(buf, loc) == buf.subrange(loc + 4, loc + 4 + n)
            &&& <&'a [u8] as Follow<'a, B>>::valid_at(buf, loc) ==> <&'a [u8] as Follow<
                'a,
                B,
            >>::view_at(buf, loc).len() == n
        }),
{
}

/// A string is a length `n` in all four bytes at `loc`, least significant
/// first, followed by `n` bytes of UTF-8; it reads as the characters those
/// bytes encode, and encoding it again gives back exactly those `n` bytes.
pub proof fn law_string_reads_prefixed_utf8<'a, B: ReadBuffer + ?Sized>(buf: Seq<u8>, loc: int)
    ensures
        ({
            let n = buf[loc] + 256 * buf[loc + 1] + 65536 * buf[loc + 2] + 16777216 * buf[loc
                + 3];
            let bytes = buf.subrange(loc + 4, loc + 4 + n);
            &&& <&'a str as Follow<'a, B>>::valid_at(buf, loc) <==> 0 <= loc && loc + 4 <= buf.len()
                && loc + 4 + n <= buf.len() && valid_utf8(bytes)
            &&& <&'a str as Follow<'a, B>>::valid_at(buf, loc) ==> <&'a str as Follow<
                'a,
                B,
            >>::view_at(buf, loc) == decode_utf8(bytes)
            &&& <&'a str as Follow<'a, B>>::valid_at(buf, loc) ==> encode_utf8(
                <&'a str as Follow<'a, B>>::view_at(buf, loc),
            ) == bytes
            &&& <&'a str as Follow<'a, B>>::valid_at(buf, loc) ==> encode_utf8(
                <&'a str as Follow<'a, B>>::view_at(buf, loc),
            ).len() == n
        }),
{
    let n = buf[loc] + 256 * buf[loc + 1] + 65536 * buf[loc + 2] + 16777216 * buf[loc + 3];
    let bytes = buf.subrange(loc + 4, loc + 4 + n);
    if valid_utf8(bytes) {
        decode_utf8_encode_utf8(bytes);
    }
}

/// A forward offset is an unsigned count `u` in all four bytes at `loc`,
/// least significant first; following it reads the `T` stored at `loc + u`.
pub proof fn law_forward_offset_reads_target<'a, T: Follow<'a, B>, B: ReadBuffer + ?Sized>(
    buf: Seq<u8>,
    loc: int,
)
    ensures
        ({
            let u = buf[loc] + 256 * buf[loc + 1] + 65536 * buf[loc + 2] + 16777216 * buf[loc
                + 3];
            &&& <ForwardsUOffset<T> as Follow<'a, B>>::valid_at(buf, loc) <==> 0 <= loc && loc + 4
                <= buf.len() && loc + u <= buf.len() && T::valid_at(buf, loc + u)
            &&& <ForwardsUOffset<T> as Follow<'a, B>>::view_at(buf, loc) == T::view_at(
                buf,
                loc + u,
            )
        }),
{
}

/// A vector's element count is the number in all four header bytes at its
/// location, least significant first; element `i` is the `T` stored
/// `size_of::<T>() * i` bytes after the header, and the element bytes are
/// the `size_of::<T>()` times count bytes after the header.
pub proof fn law_vector_reads_header_and_elements<'a, T: Follow<'a, B>, B: ReadBuffer + ?Sized>(
    v: Vector<'a, T, B>,
)
    ensures
        ({
            let (buf, loc) = v@;
            let n = buf[loc] + 256 * buf[loc + 1] + 65536 * buf[loc + 2] + 16777216 * buf[loc
                + 3];
            &&& v.spec_len() == n
            &&& v.elements().len() == n
            &&& forall|i: int|
                0 <= i < n ==> #[trigger] v.elements()[i] == T::view_at(
                    buf,
                    loc + 4 + size_of::<T>() * i,
                )
            &&& v.elements_valid() <==> forall|i: int|
                0 <= i < n ==> #[trigger] T::valid_at(buf, loc + 4 + size_of::<T>() * i)
        }),
{
    let (buf, loc) = v@;
    let n = buf[loc] + 256 * buf[loc + 1] + 65536 * buf[loc + 2] + 16777216 * buf[loc + 3];
    if v.elements_valid() {
        assert forall|i: int| 0 <= i < n implies #[trigger] T::valid_at(
            buf,
            loc + 4 + size_of::<T>() * i,
        ) by {
            assert(T::valid_at(buf, element_loc::<T>(loc, i)));
        }
    }
    if forall|i: int| 0 <= i < n ==> #[trigger] T::valid_at(buf, loc + 4 + size_of::<T>() * i) {
        assert forall|i: int| 0 <= i < vector_len(buf, loc) implies #[trigger] T::valid_at(
            buf,
            element_loc::<T>(loc, i),
        ) by {
            assert(T::valid_at(buf, loc + 4 + size_of::<T>() * i));
        }
    }
}

} // verus!
