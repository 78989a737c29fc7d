use crate::endian::{le_u32, read_u32_at, SIZE_UOFFSET};
use crate::follow::Follow;
use crate::read_buffer::ReadBuffer;
use core::marker::PhantomData;
use vstd::layout::size_of;
use vstd::prelude::*;

verus! {

/// `i < n` elements of `stride` bytes each end no later than `n` of them.
pub proof fn lemma_stride_bound(stride: nat, i: nat, n: nat)
    requires
        i < n,
    ensures
        stride * i + stride <= stride * n,
        stride * i <= stride * n,
{
    assert(stride * i + stride <= stride * n) by (nonlinear_arith)
        requires
            i < n,
    ;
    assert(stride * i <= stride * n) by (nonlinear_arith)
        requires
            i < n,
    ;
}

/// An index as a mathematical integer.
pub open spec fn index_int(u: usize) -> int {
    u as int
}

/// The number of elements of the vector whose header is at `loc`.
pub open spec fn vector_len(buf: Seq<u8>, loc: int) -> nat {
    le_u32(buf, loc) as nat
}

/// The location of element `i` of the vector at `loc`, whose elements take
/// `size_of::<T>()` bytes each and follow the length header.
pub open spec fn element_loc<T>(loc: int, i: int) -> int {
    loc + SIZE_UOFFSET + size_of::<T>() * i
}

/// The header and all elements of a vector of `T` at `loc` lie inside `buf`.
pub open spec fn vector_region_valid<T>(buf: Seq<u8>, loc: int) -> bool {
    &&& 0 <= loc
    &&& loc + SIZE_UOFFSET <= buf.len()
    &&& element_loc::<T>(loc, vector_len(buf, loc) as int) <= buf.len()
}

/// Every element of the vector of `T` at `loc` is well formed.
pub open spec fn vector_elements_valid<'a, T: Follow<'a, B>, B: ReadBuffer + ?Sized>(
    buf: Seq<u8>,
    loc: int,
) -> bool {
    forall|i: int|
        0 <= i < vector_len(buf, loc) ==> #[trigger] T::valid_at(buf, element_loc::<T>(loc, i))
}

/// The elements of the vector of `T` at `loc`, in order.
pub open spec fn vector_elements<'a, T: Follow<'a, B>, B: ReadBuffer + ?Sized>(
    buf: Seq<u8>,
    loc: int,
) -> Seq<<T::Inner as View>::V> {
    Seq::new(vector_len(buf, loc), |i: int| T::view_at(buf, element_loc::<T>(loc, i)))
}

/// Each element of a vector lies inside the buffer, after the header, and
/// the next element starts right where it ends.
pub proof fn lemma_elements_inside_buffer<T>(buf: Seq<u8>, loc: int, i: int)
    requires
        vector_region_valid::<T>(buf, loc),
        0 <= i < vector_len(buf, loc),
    ensures
        loc + SIZE_UOFFSET <= element_loc::<T>(loc, i),
        element_loc::<T>(loc, i) + size_of::<T>() <= buf.len(),
        element_loc::<T>(loc, i + 1) == element_loc::<T>(loc, i) + size_of::<T>(),
{
    lemma_stride_bound(size_of::<T>(), i as nat, vector_len(buf, loc));
    assert(size_of::<T>() * (i + 1) == size_of::<T>() * i + size_of::<T>()) by (nonlinear_arith);
    assert(0 <= size_of::<T>() * i) by (nonlinear_arith)
        requires
            0 <= i,
    ;
}

/// A vector of `T` stored in a buffer: a little-endian `u32` element count at
/// its location, followed by the elements, `size_of::<T>()` bytes each.
pub struct Vector<'a, T: 'a, B: ReadBuffer + ?Sized = [u8]>(&'a B, usize, PhantomData<T>);

impl<'a, T: 'a, B: ReadBuffer + ?Sized> View for Vector<'a, T, B> {
    /// The bytes of the buffer and the vector's location in it.
    type V = (Seq<u8>, int);

    closed spec fn view(&self) -> (Seq<u8>, int) {
        (self.0@, self.1 as int)
    }
}

impl<'a, T: 'a, B: ReadBuffer + ?Sized> Copy for Vector<'a, T, B> {

}

impl<'a, T: 'a, B: ReadBuffer + ?Sized> Clone for Vector<'a, T, B> {
    fn clone(&self) -> (c: Self)
        ensures
            c@ == self@,
    {
        *self
    }
}

impl<'a, T: 'a, B: ReadBuffer + ?Sized> Vector<'a, T, B> {
    #[verifier::type_invariant]
    spec fn inv(self) -> bool {
        &&& vector_region_valid::<T>(self.0@, self.1 as int)
        &&& self.0@.len() <= usize::MAX
    }

    /// The number of elements.
    pub open spec fn spec_len(&self) -> nat {
        vector_len(self@.0, self@.1)
    }

    /// Makes the vector whose header is at `loc` in `buf`.
    pub fn new(buf: &'a B, loc: usize) -> (v: Self)
        requires
            vector_region_valid::<T>(buf@, loc as int),
        ensures
            v@ == (buf@, loc as int),
    {
        // The buffer's length fits in `usize`, so offsets below it do too.
        let _buf_len: usize = buf.len();
        Vector(buf, loc, PhantomData)
    }

    /// Returns the number of elements.
    pub fn len(&self) -> (n: usize)
        ensures
            n == self.spec_len(),
    {
        proof {
            use_type_invariant(self);
        }
        read_u32_at(self.0, self.1) as usize
    }

    /// Returns `true` if the vector has no elements.
    pub fn is_empty(&self) -> (b: bool)
        ensures
            b == (self.spec_len() == 0),
    {
        self.len() == 0
    }
}

impl<'a, T: 'a> Vector<'a, T, [u8]> {
    /// Returns the bytes of all elements, without the length header.
    pub fn bytes(&self) -> (b: &'a [u8])
        ensures
            b@ == self@.0.subrange(
                element_loc::<T>(self@.1, 0),
                element_loc::<T>(self@.1, self.spec_len() as int),
            ),
    {
        proof {
            use_type_invariant(self);
        }
        let sz = core::mem::size_of::<T>();
        let len = self.len();
        vstd::slice::slice_subrange(self.0, self.1 + SIZE_UOFFSET, self.1 + SIZE_UOFFSET + sz * len)
    }
}

impl<'a, T: Follow<'a, B> + 'a, B: ReadBuffer + ?Sized> Vector<'a, T, B> {
    /// Every element is well formed.
    pub open spec fn elements_valid(&self) -> bool {
        vector_elements_valid::<T, B>(self@.0, self@.1)
    }

    /// The elements, in order.
    pub open spec fn elements(&self) -> Seq<<T::Inner as View>::V> {
        vector_elements::<T, B>(self@.0, self@.1)
    }

    /// Returns element `idx`.
    pub fn get(&self, idx: usize) -> (v: T::Inner)
        requires
            idx < self.spec_len(),
            self.elements_valid(),
        ensures
            v@ == self.elements()[idx as int],
    {
        proof {
            use_type_invariant(self);
            lemma_stride_bound(size_of::<T>(), idx as nat, self.spec_len());
            assert(T::valid_at(self@.0, element_loc::<T>(self@.1, idx as int)));
        }
        let sz = core::mem::size_of::<T>();
        let loc = self.1 + SIZE_UOFFSET + sz * idx;
        assert(loc == element_loc::<T>(self@.1, idx as int));
        T::follow(self.0, loc)
    }
}

impl<'a, T: Follow<'a, B> + 'a, B: ReadBuffer + ?Sized> Vector<'a, T, B> {
    /// Returns an iterator over the elements, front to back.
    pub fn iter(&self) -> (it: VectorIter<'a, T, B>)
        ensures
            it@ == self.elements(),
            self.elements_valid() ==> it.elements_valid(),
    {
        VectorIter::from_vector(*self)
    }
}

impl<'a, T: Follow<'a, B> + 'a, B: ReadBuffer + ?Sized> Follow<'a, B> for Vector<'a, T, B> {
    type Inner = Vector<'a, T, B>;

    open spec fn valid_at(buf: Seq<u8>, loc: int) -> bool {
        &&& vector_region_valid::<T>(buf, loc)
        &&& vector_elements_valid::<T, B>(buf, loc)
    }

    open spec fn view_at(buf: Seq<u8>, loc: int) -> (Seq<u8>, int) {
        (buf, loc)
    }

    fn follow(buf: &'a B, loc: usize) -> (v: Vector<'a, T, B>) {
        Vector::new(buf, loc)
    }
}

impl<'a, T: 'a> Default for Vector<'a, T, [u8]> {
    /// An empty vector, read from a static four-byte zero header.
    fn default() -> (v: Self)
        ensures
            v@ == (seq![0u8, 0u8, 0u8, 0u8], 0int),
            v.spec_len() == 0,
    {
        let header: &'a [u8] = &[0u8, 0u8, 0u8, 0u8];
        assert(header@ =~= seq![0u8, 0u8, 0u8, 0u8]);
        assert(vector_len(header@, 0) == 0);
        assert(element_loc::<T>(0, 0) == SIZE_UOFFSET);
        Vector::new(header, 0)
    }
}

/// The location of item `k` of an iteration that starts at `loc`.
pub open spec fn item_loc<T>(loc: int, k: int) -> int {
    loc + size_of::<T>() * k
}

/// What a run of calls hands out of an iterator whose items to come are
/// `items`: each `true` in `moves` is a call of `next`, each `false` one of
/// `next_back`, and a call on an exhausted iterator hands out nothing. The
/// result is the items handed out by `next` in order, the items still to
/// come, and the items handed out by `next_back` in order.
pub open spec fn drain_moves<A>(items: Seq<A>, moves: Seq<bool>) -> (Seq<A>, Seq<A>, Seq<A>)
    decreases moves.len(),
{
    if moves.len() == 0 {
        (Seq::empty(), items, Seq::empty())
    } else {
        let (front, rest, back) = drain_moves(items, moves.drop_last());
        if rest.len() == 0 {
            (front, rest, back)
        } else if moves.last() {
            (front.push(rest[0]), rest.drop_first(), back)
        } else {
            (front, rest.drop_last(), back.push(rest.last()))
        }
    }
}

/// Whatever mix of `next` and `next_back` calls is made, every item is
/// handed out at most once and none is skipped: the items from the front,
/// then those still to come, then those from the back in reverse, are the
/// items in order, and the number still to come is what was not handed out.
pub proof fn lemma_drain_hands_out_each_once<A>(items: Seq<A>, moves: Seq<bool>)
    ensures
        ({
            let (front, rest, back) = drain_moves(items, moves);
            &&& front + rest + back.reverse() == items
            &&& rest.len() == items.len() - front.len() - back.len()
        }),
    decreases moves.len(),
{
    if moves.len() > 0 {
        lemma_drain_hands_out_each_once(items, moves.drop_last());
        let (front, rest, back) = drain_moves(items, moves.drop_last());
        if rest.len() > 0 {
            if moves.last() {
                assert(front.push(rest[0]) + rest.drop_first() + back.reverse() =~= front + rest
                    + back.reverse());
            } else {
                assert(rest.drop_last() + back.push(rest.last()).reverse() =~= rest
                    + back.reverse());
                assert(front + rest.drop_last() + back.push(rest.last()).reverse() =~= front + (
                rest.drop_last() + back.push(rest.last()).reverse()));
                assert(front + rest + back.reverse() =~= front + (rest + back.reverse()));
            }
        }
    }
}

/// Calling `next_back` until the iterator is exhausted hands out the items
/// in reverse order, and `next` would then hand out nothing more.
pub proof fn lemma_drain_from_back_reverses<A>(items: Seq<A>, calls: nat)
    requires
        calls >= items.len(),
    ensures
        ({
            let (front, rest, back) = drain_moves(items, Seq::new(calls, |i: int| false));
            &&& back == items.reverse()
            &&& front.len() == 0
            &&& rest.len() == 0
        }),
{
    let moves = Seq::new(calls, |i: int| false);
    lemma_drain_hands_out_each_once(items, moves);
    lemma_drain_only_back(items, calls);
    let (front, rest, back) = drain_moves(items, moves);
    assert(front + rest + back.reverse() =~= back.reverse());
    assert(back.reverse().reverse() =~= back);
}

/// With only `next_back` calls, nothing is handed out from the front, and
/// each call hands out one item while any is left.
proof fn lemma_drain_only_back<A>(items: Seq<A>, calls: nat)
    ensures
        ({
            let (front, rest, back) = drain_moves(items, Seq::new(calls, |i: int| false));
            &&& front.len() == 0
            &&& rest.len() == if calls >= items.len() {
                0
            } else {
                items.len() - calls
            }
        }),
    decreases calls,
{
    let moves = Seq::new(calls, |i: int| false);
    if calls > 0 {
        assert(moves.drop_last() =~= Seq::new((calls - 1) as nat, |i: int| false));
        lemma_drain_only_back(items, (calls - 1) as nat);
    }
}

/// An iterator over consecutive elements of type `T` in a buffer.
#[derive(Debug)]
pub struct VectorIter<'a, T: 'a, B: ReadBuffer + ?Sized = [u8]> {
    buf: &'a B,
    loc: usize,
    remaining: usize,
    phantom: PhantomData<T>,
}

impl<'a, T: 'a, B: ReadBuffer + ?Sized> VectorIter<'a, T, B> {
    #[verifier::type_invariant]
    spec fn inv(self) -> bool {
        &&& self.buf@.len() <= usize::MAX
        &&& self.remaining > 0 ==> item_loc::<T>(self.loc as int, self.remaining as int)
            <= self.buf@.len()
    }

    /// The bytes of the buffer being iterated over.
    pub closed spec fn spec_buf(&self) -> Seq<u8> {
        self.buf@
    }

    /// The location of the next item.
    pub closed spec fn spec_loc(&self) -> int {
        self.loc as int
    }

    /// The number of items left.
    pub closed spec fn spec_remaining(&self) -> nat {
        self.remaining as nat
    }
}

impl<'a, T: 'a> VectorIter<'a, T, [u8]> {
    /// Makes an iterator over `items_num` consecutive values of `T` at the
    /// start of `buf`.
    pub fn from_slice(buf: &'a [u8], items_num: usize) -> (it: Self)
        requires
            size_of::<T>() * items_num <= buf@.len(),
        ensures
            it.spec_buf() == buf@,
            it.spec_loc() == 0,
            it.spec_remaining() == items_num,
    {
        // The buffer's length fits in `usize`, so offsets below it do too.
        let _buf_len: usize = buf.len();
        VectorIter { buf, loc: 0, remaining: items_num, phantom: PhantomData }
    }
}

impl<'a, T: 'a, B: ReadBuffer + ?Sized> Clone for VectorIter<'a, T, B> {
    fn clone(&self) -> (c: Self)
        ensures
            c.spec_buf() == self.spec_buf(),
            c.spec_loc() == self.spec_loc(),
            c.spec_remaining() == self.spec_remaining(),
    {
        proof {
            use_type_invariant(self);
        }
        VectorIter { buf: self.buf, loc: self.loc, remaining: self.remaining, phantom: PhantomData }
    }
}

impl<'a, T: Follow<'a, B> + 'a, B: ReadBuffer + ?Sized> View for VectorIter<'a, T, B> {
    /// The items still to come, in order.
    type V = Seq<<T::Inner as View>::V>;

    open spec fn view(&self) -> Seq<<T::Inner as View>::V> {
        Seq::new(
            self.spec_remaining(),
            |k: int| T::view_at(self.spec_buf(), item_loc::<T>(self.spec_loc(), k)),
        )
    }
}

impl<'a, T: Follow<'a, B> + 'a, B: ReadBuffer + ?Sized> VectorIter<'a, T, B> {
    /// Every item still to come is well formed.
    pub open spec fn elements_valid(&self) -> bool {
        forall|k: int|
            0 <= k < self.spec_remaining() ==> #[trigger] T::valid_at(
                self.spec_buf(),
                item_loc::<T>(self.spec_loc(), k),
            )
    }

    /// Makes an iterator over the elements of `inner`, front to back.
    pub fn from_vector(inner: Vector<'a, T, B>) -> (it: Self)
        ensures
            it@ == inner.elements(),
            inner.elements_valid() ==> it.elements_valid(),
    {
        proof {
            use_type_invariant(&inner);
        }
        let it = VectorIter {
            buf: inner.0,
            loc: inner.1 + SIZE_UOFFSET,
            remaining: inner.len(),
            phantom: PhantomData,
        };
        assert forall|k: int| #![trigger item_loc::<T>(it.spec_loc(), k)]
            0 <= k < it.spec_remaining() implies item_loc::<T>(it.spec_loc(), k)
            == element_loc::<T>(inner@.1, k) by {}
        assert(it@ =~= inner.elements());
        it
    }

    /// Returns the number of items left.
    pub fn len(&self) -> (n: usize)
        ensures
            n == self@.len(),
    {
        self.remaining
    }

    /// Returns the exact number of items left, as lower and upper bound.
    pub fn size_hint(&self) -> (h: (usize, Option<usize>))
        ensures
            h == (self@.len() as usize, Some(self@.len() as usize)),
    {
        (self.remaining, Some(self.remaining))
    }

    /// Returns the next item from the front, or `None` once all are taken.
    pub fn next(&mut self) -> (r: Option<T::Inner>)
        requires
            old(self).elements_valid(),
        ensures
            final(self).elements_valid(),
            old(self)@.len() == 0 ==> r is None && final(self)@ == old(self)@,
            old(self)@.len() > 0 ==> (r matches Some(v) && v@ == old(self)@[0]),
            old(self)@.len() > 0 ==> final(self)@ == old(self)@.drop_first(),
    {
        proof {
            use_type_invariant(&*self);
        }
        let sz = core::mem::size_of::<T>();
        if self.remaining == 0 {
            None
        } else {
            proof {
                lemma_stride_bound(size_of::<T>(), 0, self.remaining as nat);
                let r = self.remaining as int;
                assert(size_of::<T>() * r == size_of::<T>() * (r - 1) + size_of::<T>())
                    by (nonlinear_arith);
                assert(T::valid_at(self.spec_buf(), item_loc::<T>(self.spec_loc(), 0)));
            }
            let result = T::follow(self.buf, self.loc);
            let ghost before = *self;
            *self = VectorIter {
                buf: self.buf,
                loc: self.loc + sz,
                remaining: self.remaining - 1,
                phantom: PhantomData,
            };
            assert forall|k: int| 0 <= k < self.spec_remaining() implies item_loc::<T>(
                self.spec_loc(),
                k,
            ) == item_loc::<T>(before.spec_loc(), k + 1) by {
                assert(size_of::<T>() * (k + 1) == size_of::<T>() * k + size_of::<T>())
                    by (nonlinear_arith);
            }
            assert(self@ =~= before@.drop_first());
            assert forall|k: int| 0 <= k < self.spec_remaining() implies #[trigger] T::valid_at(
                self.spec_buf(),
                item_loc::<T>(self.spec_loc(), k),
            ) by {
                assert(T::valid_at(before.spec_buf(), item_loc::<T>(before.spec_loc(), k + 1)));
            }
            Some(result)
        }
    }

    /// Skips `n` items and returns the one after them from the front, or
    /// `None` (leaving nothing to iterate) when fewer than `n + 1` are left.
    pub fn nth(&mut self, n: usize) -> (r: Option<T::Inner>)
        requires
            old(self).elements_valid(),
        ensures
            final(self).elements_valid(),
            n < old(self)@.len() ==> (r matches Some(v) && v@ == old(self)@[n as int]),
            n < old(self)@.len() ==> final(self)@ == old(self)@.skip(n + 1),
            n >= old(self)@.len() ==> r is None && final(self)@.len() == 0,
    {
        proof {
            use_type_invariant(&*self);
        }
        let sz = core::mem::size_of::<T>();
        if n >= self.remaining {
            *self = VectorIter { buf: self.buf, loc: self.loc, remaining: 0, phantom: PhantomData };
            None
        } else {
            let ghost before = *self;
            proof {
                lemma_stride_bound(size_of::<T>(), n as nat, self.remaining as nat);
                let r = self.remaining as int;
                assert(size_of::<T>() * r == size_of::<T>() * n + size_of::<T>() * (r - n))
                    by (nonlinear_arith);
            }
            *self = VectorIter {
                buf: self.buf,
                loc: self.loc + sz * n,
                remaining: self.remaining - n,
                phantom: PhantomData,
            };
            assert forall|k: int| 0 <= k < self.spec_remaining() implies item_loc::<T>(
                self.spec_loc(),
                k,
            ) == item_loc::<T>(before.spec_loc(), k + n) by {
                assert(size_of::<T>() * (k + n) == size_of::<T>() * k + size_of::<T>() * n)
                    by (nonlinear_arith);
            }
            assert(self@ =~= before@.skip(n as int));
            assert forall|k: int| 0 <= k < self.spec_remaining() implies #[trigger] T::valid_at(
                self.spec_buf(),
                item_loc::<T>(self.spec_loc(), k),
            ) by {
                assert(T::valid_at(before.spec_buf(), item_loc::<T>(before.spec_loc(), k + n)));
            }
            self.next()
        }
    }

    /// Returns the next item from the back, or `None` once all are taken.
    pub fn next_back(&mut self) -> (r: Option<T::Inner>)
        requires
            old(self).elements_valid(),
        ensures
            final(self).elements_valid(),
            old(self)@.len() == 0 ==> r is None && final(self)@ == old(self)@,
            old(self)@.len() > 0 ==> (r matches Some(v) && v@ == old(self)@.last()),
            old(self)@.len() > 0 ==> final(self)@ == old(self)@.drop_last(),
    {
        proof {
            use_type_invariant(&*self);
        }
        let sz = core::mem::size_of::<T>();
        if self.remaining == 0 {
            None
        } else {
            let ghost before = *self;
            let last = self.remaining - 1;
            proof {
                lemma_stride_bound(size_of::<T>(), last as nat, self.remaining as nat);
                assert(T::valid_at(self.spec_buf(), item_loc::<T>(self.spec_loc(), last as int)));
            }
            *self = VectorIter {
                buf: self.buf,
                loc: self.loc,
                remaining: last,
                phantom: PhantomData,
            };
            assert(self@ =~= before@.drop_last());
            assert forall|k: int| 0 <= k < self.spec_remaining() implies #[trigger] T::valid_at(
                self.spec_buf(),
                item_loc::<T>(self.spec_loc(), k),
            ) by {
                assert(T::valid_at(before.spec_buf(), item_loc::<T>(before.spec_loc(), k)));
            }
            Some(T::follow(self.buf, self.loc + sz * last))
        }
    }

    /// Skips `n` items from the back and returns the one before them, or
    /// `None` (leaving nothing to iterate) when fewer than `n + 1` are left.
    pub fn nth_back(&mut self, n: usize) -> (r: Option<T::Inner>)
        requires
            old(self).elements_valid(),
        ensures
            final(self).elements_valid(),
            n < old(self)@.len() ==> (r matches Some(v) && v@ == old(self)@[old(self)@.len() - 1
                - n]),
            n < old(self)@.len() ==> final(self)@ == old(self)@.take(old(self)@.len() - 1 - n),
            n >= old(self)@.len() ==> r is None && final(self)@.len() == 0,
    {
        proof {
            use_type_invariant(&*self);
        }
        let ghost before = *self;
        let remaining = if n >= self.remaining {
            0
        } else {
            self.remaining - n
        };
        proof {
            if 0 < remaining < self.remaining {
                lemma_stride_bound(size_of::<T>(), remaining as nat, self.remaining as nat);
            }
        }
        *self = VectorIter { buf: self.buf, loc: self.loc, remaining, phantom: PhantomData };
        assert(self@ =~= before@.take(remaining as int));
        assert forall|k: int| 0 <= k < self.spec_remaining() implies #[trigger] T::valid_at(
            self.spec_buf(),
            item_loc::<T>(self.spec_loc(), k),
        ) by {
            assert(T::valid_at(before.spec_buf(), item_loc::<T>(before.spec_loc(), k)));
        }
        self.next_back()
    }
}

} // verus!
