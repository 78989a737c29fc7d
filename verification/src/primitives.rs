use crate::endian::{le_u32, read_u32_at, SIZE_UOFFSET};
use crate::follow::Follow;
use crate::read_buffer::ReadBuffer;
use core::marker::PhantomData;
use vstd::prelude::*;
use vstd::std_specs::cmp::PartialEqSpecImpl;

verus! {

/// An unsigned offset, as stored in a buffer.
pub type UOffsetT = u32;

/// An offset, relative to its own location, to a `T` further on in the buffer.
pub struct ForwardsUOffset<T>(UOffsetT, PhantomData<T>);

/// The location a forward offset stored at `loc` points to.
pub open spec fn forward_target(buf: Seq<u8>, loc: int) -> int {
    loc + le_u32(buf, loc)
}

impl<'a, T: Follow<'a, B>, B: ReadBuffer + ?Sized> Follow<'a, B> for ForwardsUOffset<T> {
    type Inner = T::Inner;

    open spec fn valid_at(buf: Seq<u8>, loc: int) -> bool {
        &&& 0 <= loc
        &&& loc + SIZE_UOFFSET <= buf.len()
        &&& forward_target(buf, loc) <= buf.len()
        &&& T::valid_at(buf, forward_target(buf, loc))
    }

    open spec fn view_at(buf: Seq<u8>, loc: int) -> <T::Inner as View>::V {
        T::view_at(buf, forward_target(buf, loc))
    }

    fn follow(buf: &'a B, loc: usize) -> (v: T::Inner) {
        // The buffer's length fits in `usize`, so offsets below it do too.
        let _buf_len: usize = buf.len();
        let offset = read_u32_at(buf, loc) as usize;
        T::follow(buf, loc + offset)
    }
}

/// An offset to a value of type `T` that is still being built, counted from
/// the end of the buffer under construction.
pub struct WIPOffset<T>(UOffsetT, PhantomData<T>);

impl<T> Copy for WIPOffset<T> {

}

impl<T> Clone for WIPOffset<T> {
    fn clone(&self) -> (c: Self)
        ensures
            c == *self,
    {
        *self
    }
}

impl<T> PartialEq for WIPOffset<T> {
    fn eq(&self, other: &Self) -> (same: bool) {
        self.0 == other.0
    }
}

impl<T> PartialEqSpecImpl for WIPOffset<T> {
    open spec fn obeys_eq_spec() -> bool {
        true
    }

    open spec fn eq_spec(&self, other: &Self) -> bool {
        self.spec_value() == other.spec_value()
    }
}

impl<T> Eq for WIPOffset<T> {

}

impl<T> WIPOffset<T> {
    /// The offset this value stands for.
    pub closed spec fn spec_value(&self) -> UOffsetT {
        self.0
    }

    /// Makes an offset of value `o`.
    pub fn new(o: UOffsetT) -> (w: WIPOffset<T>)
        ensures
            w.spec_value() == o,
    {
        WIPOffset(o, PhantomData)
    }

    /// Returns the offset's value.
    pub fn value(&self) -> (o: UOffsetT)
        ensures
            o == self.spec_value(),
    {
        self.0
    }
}

} // verus!
