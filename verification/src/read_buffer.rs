use vstd::prelude::*;

verus! {

/// Read-only access to a region of bytes.
///
/// The abstract contents of a buffer are its view, a sequence of bytes that
/// does not change while the buffer is borrowed. Every method is specified
/// against that view, so an implementation (a plain slice, a pager that loads
/// pages on demand, ...) is held to returning exactly the bytes it stands for.
pub trait ReadBuffer: View<V = Seq<u8>> {
    /// Returns the bytes in `[offset, offset + len)`; the returned slice stays
    /// valid for as long as the buffer is borrowed.
    fn pin_bytes(&self, offset: usize, len: usize) -> (bytes: &[u8])
        requires
            offset + len <= self@.len(),
        ensures
            bytes@ == self@.subrange(offset as int, offset + len),
    ;

    /// Returns the total number of bytes in the buffer.
    fn len(&self) -> (n: usize)
        ensures
            n == self@.len(),
    ;

    /// Returns `true` if the buffer contains no bytes.
    fn is_empty(&self) -> (b: bool)
        ensures
            b == (self@.len() == 0),
    {
        self.len() == 0
    }
}

impl ReadBuffer for [u8] {
    fn pin_bytes(&self, offset: usize, len: usize) -> (bytes: &[u8]) {
        // The slice's length fits in `usize`, so `offset + len` does too.
        let _slice_len: usize = <[u8]>::len(self);
        vstd::slice::slice_subrange(self, offset, offset + len)
    }

    fn len(&self) -> (n: usize) {
        <[u8]>::len(self)
    }
}

} // verus!
