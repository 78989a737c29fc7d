use flatbuffers::primitives::WIPOffset;
use flatbuffers::union::{TaggedUnion, UnionVectorWIPOffsets, UnionWIPOffset};
use flatbuffers::vector::Vector;
use flatbuffers::primitives::ForwardsUOffset;

struct Shape;

impl TaggedUnion for Shape {
    type Tag = u8;
}

#[test]
fn union_offset_keeps_tag_and_value() {
    let u: UnionWIPOffset<Shape> = UnionWIPOffset::new(3u8, WIPOffset::new(40));
    assert_eq!(u.tag(), 3);
    assert_eq!(u.value_offset().value(), 40);
}

#[test]
fn union_vector_offsets_keep_both_offsets() {
    let tags: WIPOffset<Vector<u8>> = WIPOffset::new(12);
    let values: WIPOffset<Vector<ForwardsUOffset<Shape>>> = WIPOffset::new(24);
    let u: UnionVectorWIPOffsets<Shape> = UnionVectorWIPOffsets::new(tags, values);
    assert_eq!(u.tags().value(), 12);
    assert_eq!(u.values_offset().value(), 24);
    let copy = u;
    assert_eq!(copy.tags().value(), u.tags().value());
}

#[test]
fn offsets_compare_by_value() {
    let a: WIPOffset<u8> = WIPOffset::new(7);
    let b: WIPOffset<u8> = WIPOffset::new(7);
    let c: WIPOffset<u8> = WIPOffset::new(8);
    assert!(a == b);
    assert!(a != c);
    let tags: WIPOffset<Vector<u8>> = WIPOffset::new(1);
    let values: WIPOffset<Vector<ForwardsUOffset<Shape>>> = WIPOffset::new(2);
    let other_values: WIPOffset<Vector<ForwardsUOffset<Shape>>> = WIPOffset::new(3);
    let u = UnionVectorWIPOffsets::<Shape>::new(tags, values);
    let same = UnionVectorWIPOffsets::<Shape>::new(tags, values);
    let different = UnionVectorWIPOffsets::<Shape>::new(tags, other_values);
    assert!(u == same);
    assert!(u != different);
}
