//! Verified reading of FlatBuffers data: byte buffers, little-endian scalars,
//! vectors with their iterators and key lookup, and union offsets.

pub mod endian;
pub mod follow;
pub mod laws;
pub mod primitives;
pub mod read_buffer;
pub mod search;
pub mod union;
pub mod vector;
