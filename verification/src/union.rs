use crate::primitives::{ForwardsUOffset, WIPOffset};
use crate::vector::Vector;
use vstd::prelude::*;
use vstd::std_specs::cmp::PartialEqSpecImpl;

verus! {

/// A union type: a value of one of several tables, told apart by a tag.
pub trait TaggedUnion {
    /// The tag (discriminant) type.
    type Tag: Clone + Copy + Into<u8>;
}

/// A `WIPOffset` marked as the value of a union, together with its tag.
pub struct UnionWIPOffset<T: TaggedUnion> {
    tag: T::Tag,
    value_offset: WIPOffset<T>,
}

impl<T: TaggedUnion> UnionWIPOffset<T> {
    /// The tag.
    pub closed spec fn spec_tag(&self) -> T::Tag {
        self.tag
    }

    /// The offset of the value.
    pub closed spec fn spec_value_offset(&self) -> WIPOffset<T> {
        self.value_offset
    }

    /// Pairs a union value's offset with its tag.
    pub fn new(tag: T::Tag, value_offset: WIPOffset<T>) -> (u: Self)
        ensures
            u.spec_tag() == tag,
            u.spec_value_offset() == value_offset,
    {
        Self { tag, value_offset }
    }

    /// Returns the tag.
    pub fn tag(&self) -> (t: T::Tag)
        ensures
            t == self.spec_tag(),
    {
        self.tag
    }

    /// Returns the offset of the value.
    pub fn value_offset(&self) -> (o: WIPOffset<T>)
        ensures
            o == self.spec_value_offset(),
    {
        self.value_offset
    }
}

/// The offsets of a vector of union values and of the vector of their tags.
pub struct UnionVectorWIPOffsets<'a, T: TaggedUnion> {
    tags: WIPOffset<Vector<'a, T::Tag>>,
    values_offset: WIPOffset<Vector<'a, ForwardsUOffset<T>>>,
}

impl<'a, T: TaggedUnion> Copy for UnionVectorWIPOffsets<'a, T> {

}

impl<'a, T: TaggedUnion> Clone for UnionVectorWIPOffsets<'a, T> {
    fn clone(&self) -> (c: Self)
        ensures
            c == *self,
    {
        *self
    }
}

impl<'a, T: TaggedUnion> PartialEq for UnionVectorWIPOffsets<'a, T> {
    fn eq(&self, other: &Self) -> (same: bool) {
        self.tags == other.tags && self.values_offset == other.values_offset
    }
}

impl<'a, T: TaggedUnion> PartialEqSpecImpl for UnionVectorWIPOffsets<'a, T> {
    open spec fn obeys_eq_spec() -> bool {
        true
    }

    open spec fn eq_spec(&self, other: &Self) -> bool {
        &&& self.spec_tags().spec_value() == other.spec_tags().spec_value()
        &&& self.spec_values_offset().spec_value() == other.spec_values_offset().spec_value()
    }
}

impl<'a, T: TaggedUnion> Eq for UnionVectorWIPOffsets<'a, T> {

}

impl<'a, T: TaggedUnion> UnionVectorWIPOffsets<'a, T> {
    /// The offset of the vector of tags.
    pub closed spec fn spec_tags(&self) -> WIPOffset<Vector<'a, T::Tag>> {
        self.tags
    }

    /// The offset of the vector of values.
    pub closed spec fn spec_values_offset(&self) -> WIPOffset<Vector<'a, ForwardsUOffset<T>>> {
        self.values_offset
    }

    /// Pairs the offset of a vector of tags with that of the vector of values.
    pub fn new(
        tags: WIPOffset<Vector<'a, T::Tag>>,
        values_offset: WIPOffset<Vector<'a, ForwardsUOffset<T>>>,
    ) -> (u: Self)
        ensures
            u.spec_tags() == tags,
            u.spec_values_offset() == values_offset,
    {
        Self { tags, values_offset }
    }

    /// Returns the offset of the vector of tags.
    pub fn tags(&self) -> (t: WIPOffset<Vector<'a, T::Tag>>)
        ensures
            t == self.spec_tags(),
    {
        self.tags
    }

    /// Returns the offset of the vector of values.
    pub fn values_offset(&self) -> (o: WIPOffset<Vector<'a, ForwardsUOffset<T>>>)
        ensures
            o == self.spec_values_offset(),
    {
        self.values_offset
    }
}

} // verus!
