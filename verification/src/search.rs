use crate::follow::Follow;
use crate::read_buffer::ReadBuffer;
use crate::vector::{index_int, Vector};
use core::cmp::Ordering;
use vstd::prelude::*;

verus! {

/// Places an `Ordering` on a line: `Less` before `Equal` before `Greater`.
pub open spec fn ordering_rank(o: Ordering) -> int {
    match o {
        Ordering::Less => -1,
        Ordering::Equal => 0,
        Ordering::Greater => 1,
    }
}

/// Every answer that `f` can give to a comparison is the one `g` gives.
pub open spec fn comparison_agrees<A, K, F: Fn(&A, &K) -> Ordering>(
    f: F,
    g: spec_fn(A, K) -> Ordering,
) -> bool {
    forall|x: A, k: K, o: Ordering| #[trigger] call_ensures(f, (&x, &k), o) ==> o == g(x, k)
}

/// What a binary search does after comparing its middle element.
pub enum SearchStep {
    /// The middle element is the one sought.
    Found,
    /// Go on searching the index range `[.0, .1]`.
    Narrowed(usize, usize),
    /// No element is left to search.
    Missing,
}

/// The next step of a binary search over the index range `[left, right]`
/// whose middle element `mid` compared as `o` against the key.
pub fn search_step(left: usize, right: usize, mid: usize, o: Ordering) -> (s: SearchStep)
    requires
        left <= mid <= right < usize::MAX,
    ensures
        o == Ordering::Equal ==> s is Found,
        o == Ordering::Less ==> (s matches SearchStep::Narrowed(l, r) && l == mid + 1 && r == right),
        o == Ordering::Greater && mid == 0 ==> s is Missing,
        o == Ordering::Greater && mid > 0 ==> (s matches SearchStep::Narrowed(l, r) && l == left && r
            == mid - 1),
{
    match o {
        Ordering::Equal => SearchStep::Found,
        Ordering::Less => SearchStep::Narrowed(mid + 1, right),
        Ordering::Greater => {
            if mid == 0 {
                SearchStep::Missing
            } else {
                SearchStep::Narrowed(left, mid - 1)
            }
        },
    }
}

impl<'a, T: Follow<'a, B> + 'a, B: ReadBuffer + ?Sized> Vector<'a, T, B> {
    /// `x` reads as element `i` of the vector.
    pub open spec fn is_element(&self, x: T::Inner, i: int) -> bool {
        &&& 0 <= i < self.spec_len()
        &&& x@ == self.elements()[i]
    }

    /// Compared with `key` by `f`, the elements come in order: no element
    /// can compare higher than one after it.
    pub open spec fn sorted_by<K, F: Fn(&T::Inner, &K) -> Ordering>(&self, key: K, f: F) -> bool {
        forall|i: int, j: int, x: T::Inner, y: T::Inner, ox: Ordering, oy: Ordering|
            #![trigger self.is_element(x, i), self.is_element(y, j), call_ensures(f, (&x, &key), ox), call_ensures(f, (&y, &key), oy)]
            i <= j && self.is_element(x, i) && self.is_element(y, j) && call_ensures(
                f,
                (&x, &key),
                ox,
            ) && call_ensures(f, (&y, &key), oy) ==> ordering_rank(ox) <= ordering_rank(oy)
    }

    /// Every element with index below `hi` compares with `key` as `o`.
    pub open spec fn all_below<K, F: Fn(&T::Inner, &K) -> Ordering>(
        &self,
        key: K,
        f: F,
        hi: int,
        o: Ordering,
    ) -> bool {
        forall|i: int, x: T::Inner, ox: Ordering|
            #![trigger self.is_element(x, i), call_ensures(f, (&x, &key), ox)]
            i < hi && self.is_element(x, i) && call_ensures(f, (&x, &key), ox) ==> ox == o
    }

    /// Every element with index `lo` or above compares with `key` as `o`.
    pub open spec fn all_from<K, F: Fn(&T::Inner, &K) -> Ordering>(
        &self,
        key: K,
        f: F,
        lo: int,
        o: Ordering,
    ) -> bool {
        forall|i: int, x: T::Inner, ox: Ordering|
            #![trigger self.is_element(x, i), call_ensures(f, (&x, &key), ox)]
            lo <= i && self.is_element(x, i) && call_ensures(f, (&x, &key), ox) ==> ox == o
    }

    /// Compared with `key` by `g`, the elements come in order: no element
    /// compares higher than one after it.
    pub open spec fn sorted_under<K>(&self, key: K, g: spec_fn(T::Inner, K) -> Ordering) -> bool {
        forall|i: int, j: int, x: T::Inner, y: T::Inner|
            #![trigger self.is_element(x, i), self.is_element(y, j)]
            i <= j && self.is_element(x, i) && self.is_element(y, j) ==> ordering_rank(g(x, key))
                <= ordering_rank(g(y, key))
    }

    /// No element compares `Equal` with `key` by `g`.
    pub open spec fn none_equal_under<K>(&self, key: K, g: spec_fn(T::Inner, K) -> Ordering) -> bool {
        forall|i: int, x: T::Inner| #[trigger] self.is_element(x, i) ==> g(x, key) != Ordering::Equal
    }

    /// Every element with index below `hi` compares with `key` by `g` as `o`.
    pub open spec fn below_under<K>(
        &self,
        key: K,
        g: spec_fn(T::Inner, K) -> Ordering,
        hi: int,
        o: Ordering,
    ) -> bool {
        forall|i: int, x: T::Inner| #[trigger] self.is_element(x, i) && i < hi ==> g(x, key) == o
    }

    /// Every element with index `lo` or above compares with `key` by `g` as `o`.
    pub open spec fn from_under<K>(
        &self,
        key: K,
        g: spec_fn(T::Inner, K) -> Ordering,
        lo: int,
        o: Ordering,
    ) -> bool {
        forall|i: int, x: T::Inner| #[trigger] self.is_element(x, i) && lo <= i ==> g(x, key) == o
    }

    /// Binary search for an element that `f` finds equal to `key`.
    ///
    /// A returned element is one of the vector's and compares `Equal`. When
    /// the elements are sorted by `f` against `key`, `None` means that no
    /// element can compare `Equal`; and for every comparison `g` that `f`
    /// follows, when the elements are sorted under `g`, `None` means that no
    /// element compares `Equal` under `g`.
    pub fn lookup_by_key<K: Ord>(&self, key: K, f: impl Fn(&T::Inner, &K) -> Ordering) -> (r:
        Option<T::Inner>)
        requires
            self.elements_valid(),
            forall|x: T::Inner, k: K| #[trigger] call_requires(f, (&x, &k)),
        ensures
            r matches Some(v) ==> exists|i: int|
                #[trigger] self.is_element(v, i) && call_ensures(f, (&v, &key), Ordering::Equal),
            r is None && self.sorted_by(key, f) ==> !exists|i: int, x: T::Inner|
                self.is_element(x, i) && call_ensures(f, (&x, &key), Ordering::Equal),
            forall|g: spec_fn(T::Inner, K) -> Ordering|
                #![trigger self.sorted_under(key, g)]
                r is None && self.sorted_under(key, g) && comparison_agrees(f, g)
                    ==> self.none_equal_under(key, g),
    {
        if self.is_empty() {
            return None;
        }
        let mut left: usize = 0;
        let mut right: usize = self.len() - 1;
        while left <= right
            invariant
                self.elements_valid(),
                forall|x: T::Inner, k: K| #[trigger] call_requires(f, (&x, &k)),
                right < self.spec_len(),
                left <= index_int(right) + 1,
                self.sorted_by(key, f) ==> self.all_below(key, f, index_int(left), Ordering::Less),
                self.sorted_by(key, f) ==> self.all_from(
                    key,
                    f,
                    index_int(right) + 1,
                    Ordering::Greater,
                ),
                forall|g: spec_fn(T::Inner, K) -> Ordering|
                    #![trigger self.sorted_under(key, g)]
                    self.sorted_under(key, g) && comparison_agrees(f, g) ==> self.below_under(
                        key,
                        g,
                        index_int(left),
                        Ordering::Less,
                    ) && self.from_under(key, g, index_int(right) + 1, Ordering::Greater),
            decreases right + 1 - left,
        {
            let mid = left + (right - left) / 2;
            let value = self.get(mid);
            let o = f(&value, &key);
            proof {
                assert(self.is_element(value, index_int(mid)));
                assert(call_ensures(f, (&value, &key), o));
                if self.sorted_by(key, f) && o == Ordering::Less {
                    assert forall|i: int, x: T::Inner, ox: Ordering|
                        i < index_int(mid) + 1 && self.is_element(x, i) && call_ensures(
                            f,
                            (&x, &key),
                            ox,
                        ) implies ox == Ordering::Less by {
                        assert(self.is_element(value, index_int(mid)));
                    }
                }
                if self.sorted_by(key, f) && o == Ordering::Greater {
                    assert forall|i: int, x: T::Inner, ox: Ordering|
                        index_int(mid) <= i && self.is_element(x, i) && call_ensures(
                            f,
                            (&x, &key),
                            ox,
                        ) implies ox == Ordering::Greater by {
                        assert(self.is_element(value, index_int(mid)));
                    }
                }
                assert forall|g: spec_fn(T::Inner, K) -> Ordering|
                    self.sorted_under(key, g) && comparison_agrees(f, g) implies (o
                    == Ordering::Less ==> self.below_under(
                        key,
                        g,
                        index_int(mid) + 1,
                        Ordering::Less,
                    )) && (o == Ordering::Greater ==> self.from_under(
                        key,
                        g,
                        index_int(mid),
                        Ordering::Greater,
                    )) by {
                    assert(o == g(value, key));
                    assert(self.is_element(value, index_int(mid)));
                }
            }
            match search_step(left, right, mid, o) {
                SearchStep::Found => {
                    let r = Some(value);
                    assert(r matches Some(v) && exists|i: int|
                        #[trigger] self.is_element(v, i) && call_ensures(
                            f,
                            (&v, &key),
                            Ordering::Equal,
                        ));
                    return r;
                },
                SearchStep::Missing => {
                    return None;
                },
                SearchStep::Narrowed(l, r) => {
                    left = l;
                    right = r;
                },
            }
        }
        None
    }
}

} // verus!
