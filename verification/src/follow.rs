use crate::endian::{
    le_u16, le_u32, le_u64, read_u16_at, read_u32_at, read_u64_at, read_u8_at, SIZE_UOFFSET,
};
use crate::read_buffer::ReadBuffer;
use vstd::prelude::*;
use vstd::string::StringSliceAdditionalSpecFns;
use vstd::utf8::{decode_utf8, encode_utf8_decode_utf8, valid_utf8};

verus! {

/// Reads a value of a FlatBuffers type out of a buffer at a location.
///
/// `valid_at` says which locations hold a well-formed value, and `view_at`
/// says which value is read there; `follow` reads exactly that value.
pub trait Follow<'a, B: ReadBuffer + ?Sized> {
    /// What is read out of the buffer.
    type Inner: View;

    /// `loc` holds a well-formed value of this type in `buf`.
    spec fn valid_at(buf: Seq<u8>, loc: int) -> bool;

    /// The value stored at `loc` in `buf`.
    spec fn view_at(buf: Seq<u8>, loc: int) -> <Self::Inner as View>::V;

    /// Reads the value stored at `loc`.
    fn follow(buf: &'a B, loc: usize) -> (v: Self::Inner)
        requires
            Self::valid_at(buf@, loc as int),
        ensures
            v@ == Self::view_at(buf@, loc as int),
    ;
}

impl<'a, B: ReadBuffer + ?Sized> Follow<'a, B> for u8 {
    type Inner = u8;

    open spec fn valid_at(buf: Seq<u8>, loc: int) -> bool {
        0 <= loc && loc + 1 <= buf.len()
    }

    open spec fn view_at(buf: Seq<u8>, loc: int) -> u8 {
        buf[loc]
    }

    fn follow(buf: &'a B, loc: usize) -> (v: u8) {
        read_u8_at(buf, loc)
    }
}

impl<'a, B: ReadBuffer + ?Sized> Follow<'a, B> for bool {
    type Inner = bool;

    open spec fn valid_at(buf: Seq<u8>, loc: int) -> bool {
        0 <= loc && loc + 1 <= buf.len()
    }

    open spec fn view_at(buf: Seq<u8>, loc: int) -> bool {
        buf[loc] != 0
    }

    fn follow(buf: &'a B, loc: usize) -> (v: bool) {
        read_u8_at(buf, loc) != 0
    }
}

impl<'a, B: ReadBuffer + ?Sized> Follow<'a, B> for u16 {
    type Inner = u16;

    open spec fn valid_at(buf: Seq<u8>, loc: int) -> bool {
        0 <= loc && loc + 2 <= buf.len()
    }

    open spec fn view_at(buf: Seq<u8>, loc: int) -> u16 {
        le_u16(buf, loc) as u16
    }

    fn follow(buf: &'a B, loc: usize) -> (v: u16) {
        read_u16_at(buf, loc)
    }
}

impl<'a, B: ReadBuffer + ?Sized> Follow<'a, B> for u32 {
    type Inner = u32;

    open spec fn valid_at(buf: Seq<u8>, loc: int) -> bool {
        0 <= loc && loc + 4 <= buf.len()
    }

    open spec fn view_at(buf: Seq<u8>, loc: int) -> u32 {
        le_u32(buf, loc) as u32
    }

    fn follow(buf: &'a B, loc: usize) -> (v: u32) {
        read_u32_at(buf, loc)
    }
}

impl<'a, B: ReadBuffer + ?Sized> Follow<'a, B> for u64 {
    type Inner = u64;

    open spec fn valid_at(buf: Seq<u8>, loc: int) -> bool {
        0 <= loc && loc + 8 <= buf.len()
    }

    open spec fn view_at(buf: Seq<u8>, loc: int) -> u64 {
        le_u64(buf, loc) as u64
    }

    fn follow(buf: &'a B, loc: usize) -> (v: u64) {
        read_u64_at(buf, loc)
    }
}

/// A length-prefixed byte string at `loc`: a little-endian `u32` length
/// followed by that many bytes.
pub open spec fn length_prefixed_valid(buf: Seq<u8>, loc: int) -> bool {
    &&& 0 <= loc
    &&& loc + SIZE_UOFFSET <= buf.len()
    &&& loc + SIZE_UOFFSET + le_u32(buf, loc) <= buf.len()
}

/// The bytes of the length-prefixed byte string at `loc`.
pub open spec fn length_prefixed_bytes(buf: Seq<u8>, loc: int) -> Seq<u8> {
    buf.subrange(loc + SIZE_UOFFSET, loc + SIZE_UOFFSET + le_u32(buf, loc))
}

impl<'a, B: ReadBuffer + ?Sized> Follow<'a, B> for &'a [u8] {
    type Inner = &'a [u8];

    open spec fn valid_at(buf: Seq<u8>, loc: int) -> bool {
        length_prefixed_valid(buf, loc)
    }

    open spec fn view_at(buf: Seq<u8>, loc: int) -> Seq<u8> {
        length_prefixed_bytes(buf, loc)
    }

    fn follow(buf: &'a B, loc: usize) -> (v: &'a [u8]) {
        // The buffer's length fits in `usize`, so offsets below it do too.
        let _buf_len: usize = buf.len();
        let len = read_u32_at(buf, loc) as usize;
        buf.pin_bytes(loc + SIZE_UOFFSET, len)
    }
}

/// Checks that `bytes` are UTF-8 and views them as a string slice.
///
/// Calls `core::str::from_utf8`. Trusted claim: the result is `Some` exactly
/// when `bytes` are well-formed UTF-8, and then the string slice consists of
/// exactly those bytes.
#[verifier::external_body]
fn str_from_utf8(bytes: &[u8]) -> (s: Option<&str>)
    ensures
        s is Some <==> valid_utf8(bytes@),
        s matches Some(t) ==> t.spec_bytes() == bytes@,
{
    core::str::from_utf8(bytes).ok()
}

impl<'a, B: ReadBuffer + ?Sized> Follow<'a, B> for &'a str {
    type Inner = &'a str;

    open spec fn valid_at(buf: Seq<u8>, loc: int) -> bool {
        &&& length_prefixed_valid(buf, loc)
        &&& valid_utf8(length_prefixed_bytes(buf, loc))
    }

    open spec fn view_at(buf: Seq<u8>, loc: int) -> Seq<char> {
        decode_utf8(length_prefixed_bytes(buf, loc))
    }

    fn follow(buf: &'a B, loc: usize) -> (v: &'a str) {
        // The buffer's length fits in `usize`, so offsets below it do too.
        let _buf_len: usize = buf.len();
        let len = read_u32_at(buf, loc) as usize;
        let bytes = buf.pin_bytes(loc + SIZE_UOFFSET, len);
        match str_from_utf8(bytes) {
            Some(s) => {
                proof {
                    encode_utf8_decode_utf8(s@);
                }
                s
            },
            None => {
                proof {
                    assert(false);
                }
                ""
            },
        }
    }
}

} // verus!
