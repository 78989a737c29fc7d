# flatbuffers (verified reading core)

A Verus library for reading FlatBuffers data out of byte buffers.

- `src/read_buffer.rs`: the `ReadBuffer` trait, a read-only byte store specified
  by its byte sequence, and its implementation for `[u8]`.
- `src/endian.rs`: little-endian integers read out of a buffer.
- `src/follow.rs`: the `Follow` trait (which locations hold a well-formed value
  of a type, and which value is read there) for scalars, byte strings and
  UTF-8 strings.
- `src/primitives.rs`: forward offsets and offsets of values under construction.
- `src/vector.rs`: `Vector` (a length-prefixed run of elements) and
  `VectorIter`, iterating from both ends.
- `src/search.rs`: binary search of a vector by key.
- `src/union.rs`: offsets of union values and their tags.
- `app/lib.rs`: serde serialization of vectors and an in-place pointer cast,
  which cannot be verified.

`ReadBuffer::pin_bytes` hands out a slice borrowed for as long as the buffer
itself: a pager keeps a region pinned for the whole borrow of the buffer, not
for the life of a separate guard value.
