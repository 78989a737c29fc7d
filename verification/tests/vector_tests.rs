use flatbuffers::follow::Follow;
use flatbuffers::primitives::ForwardsUOffset;
use flatbuffers::read_buffer::ReadBuffer;
use flatbuffers::vector::{Vector, VectorIter};

fn u32_vector_bytes() -> Vec<u8> {
    vec![3, 0, 0, 0, 10, 0, 0, 0, 20, 0, 0, 0, 30, 0, 0, 0]
}

#[test]
fn slice_pin_bytes_and_len() {
    let data: &[u8] = b"\x04\x00\x00\x00hello";
    assert_eq!(data.pin_bytes(4, 5), b"hello");
    assert_eq!(ReadBuffer::len(data), 9);
    assert!(!ReadBuffer::is_empty(data));
    let empty: &[u8] = &[];
    assert!(ReadBuffer::is_empty(empty));
}

#[test]
fn vector_len_and_get() {
    let buf = u32_vector_bytes();
    let v: Vector<u32> = Vector::new(&buf[..], 0);
    assert_eq!(v.len(), 3);
    assert!(!v.is_empty());
    assert_eq!(v.get(0), 10);
    assert_eq!(v.get(1), 20);
    assert_eq!(v.get(2), 30);
}

#[test]
fn vector_at_nonzero_location() {
    let mut buf = vec![0xff, 0xff];
    buf.extend_from_slice(&[2, 0, 0, 0, 0x34, 0x12, 0x78, 0x56]);
    let v: Vector<u16> = Vector::new(&buf[..], 2);
    assert_eq!(v.len(), 2);
    assert_eq!(v.get(0), 0x1234);
    assert_eq!(v.get(1), 0x5678);
}

#[test]
fn vector_bytes_skip_header() {
    let buf = u32_vector_bytes();
    let v: Vector<u32> = Vector::new(&buf[..], 0);
    assert_eq!(v.bytes(), &buf[4..16]);
}

#[test]
fn default_vector_is_empty() {
    let v: Vector<u32> = Vector::default();
    assert_eq!(v.len(), 0);
    assert!(v.is_empty());
    assert_eq!(v.bytes().len(), 0);
}

#[test]
fn lookup_by_key_finds_present_keys() {
    let buf = u32_vector_bytes();
    let v: Vector<u32> = Vector::new(&buf[..], 0);
    assert_eq!(v.lookup_by_key(10u32, |x: &u32, k: &u32| x.cmp(k)), Some(10));
    assert_eq!(v.lookup_by_key(20u32, |x: &u32, k: &u32| x.cmp(k)), Some(20));
    assert_eq!(v.lookup_by_key(30u32, |x: &u32, k: &u32| x.cmp(k)), Some(30));
}

#[test]
fn lookup_by_key_misses_absent_keys() {
    let buf = u32_vector_bytes();
    let v: Vector<u32> = Vector::new(&buf[..], 0);
    assert_eq!(v.lookup_by_key(5u32, |x: &u32, k: &u32| x.cmp(k)), None);
    assert_eq!(v.lookup_by_key(15u32, |x: &u32, k: &u32| x.cmp(k)), None);
    assert_eq!(v.lookup_by_key(35u32, |x: &u32, k: &u32| x.cmp(k)), None);
    let empty: Vector<u32> = Vector::default();
    assert_eq!(empty.lookup_by_key(1u32, |x: &u32, k: &u32| x.cmp(k)), None);
}

#[test]
fn iter_front_to_back() {
    let buf = u32_vector_bytes();
    let v: Vector<u32> = Vector::new(&buf[..], 0);
    let mut it = v.iter();
    assert_eq!(it.size_hint(), (3, Some(3)));
    assert_eq!(it.next(), Some(10));
    assert_eq!(it.len(), 2);
    assert_eq!(it.next(), Some(20));
    assert_eq!(it.next(), Some(30));
    assert_eq!(it.next(), None);
    assert_eq!(it.next(), None);
    assert_eq!(it.len(), 0);
}

#[test]
fn iter_back_to_front() {
    let buf = u32_vector_bytes();
    let v: Vector<u32> = Vector::new(&buf[..], 0);
    let mut it = VectorIter::from_vector(v);
    assert_eq!(it.next_back(), Some(30));
    assert_eq!(it.next(), Some(10));
    assert_eq!(it.next_back(), Some(20));
    assert_eq!(it.next_back(), None);
    assert_eq!(it.next(), None);
}

#[test]
fn iter_nth() {
    let buf = u32_vector_bytes();
    let v: Vector<u32> = Vector::new(&buf[..], 0);
    let mut it = v.iter();
    assert_eq!(it.nth(1), Some(20));
    assert_eq!(it.len(), 1);
    assert_eq!(it.nth(0), Some(30));
    let mut it2 = v.iter();
    assert_eq!(it2.nth(3), None);
    assert_eq!(it2.len(), 0);
    let mut it3 = v.iter();
    assert_eq!(it3.nth(usize::MAX), None);
    assert_eq!(it3.next(), None);
}

#[test]
fn iter_nth_back() {
    let buf = u32_vector_bytes();
    let v: Vector<u32> = Vector::new(&buf[..], 0);
    let mut it = v.iter();
    assert_eq!(it.nth_back(1), Some(20));
    assert_eq!(it.len(), 1);
    assert_eq!(it.next(), Some(10));
    let mut it2 = v.iter();
    assert_eq!(it2.nth_back(5), None);
    assert_eq!(it2.next(), None);
}

#[test]
fn iter_clone_is_independent() {
    let buf = u32_vector_bytes();
    let v: Vector<u32> = Vector::new(&buf[..], 0);
    let mut it = v.iter();
    assert_eq!(it.next(), Some(10));
    let mut copy = it.clone();
    assert_eq!(copy.next(), Some(20));
    assert_eq!(it.next(), Some(20));
    assert_eq!(copy.next(), Some(30));
}

#[test]
fn iter_from_slice() {
    let data: &[u8] = &[1, 0, 2, 0, 3, 0];
    let mut it: VectorIter<u16> = VectorIter::<u16>::from_slice(data, 3);
    assert_eq!(it.next(), Some(1));
    assert_eq!(it.next(), Some(2));
    assert_eq!(it.next(), Some(3));
    assert_eq!(it.next(), None);
}

#[test]
fn vector_of_strings_through_offsets() {
    // A vector of two forward offsets, each pointing at a length-prefixed string.
    let mut buf: Vec<u8> = vec![2, 0, 0, 0, 8, 0, 0, 0, 12, 0, 0, 0];
    buf.extend_from_slice(&[2, 0, 0, 0, b'h', b'i', 0, 0]);
    buf.extend_from_slice(&[3, 0, 0, 0, b'y', b'o', b'u', 0]);
    let v: Vector<ForwardsUOffset<&str>> = Vector::new(&buf[..], 0);
    assert_eq!(v.len(), 2);
    assert_eq!(v.get(0), "hi");
    assert_eq!(v.get(1), "you");
    let found = v.lookup_by_key("you", |x: &&str, k: &&str| (*x).cmp(*k));
    assert_eq!(found, Some("you"));
}

#[test]
fn follow_byte_string_and_nested_vector() {
    let buf: Vec<u8> = vec![3, 0, 0, 0, 7, 8, 9];
    let bytes = <&[u8] as Follow<[u8]>>::follow(&buf[..], 0);
    assert_eq!(bytes, &[7, 8, 9]);
    let nested: Vec<u8> = vec![1, 0, 0, 0, 4, 0, 0, 0, 2, 0, 0, 0, 5, 6];
    let outer: Vector<ForwardsUOffset<Vector<u8>>> = Vector::new(&nested[..], 0);
    let inner = outer.get(0);
    assert_eq!(inner.len(), 2);
    assert_eq!(inner.get(0), 5);
    assert_eq!(inner.get(1), 6);
}

#[test]
fn follow_scalars_little_endian() {
    let buf: Vec<u8> = vec![0x01, 0x02, 0x03, 0x04, 0x05, 0x06, 0x07, 0x08];
    assert_eq!(<u8 as Follow<[u8]>>::follow(&buf[..], 1), 0x02);
    assert_eq!(<u16 as Follow<[u8]>>::follow(&buf[..], 0), 0x0201);
    assert_eq!(<u32 as Follow<[u8]>>::follow(&buf[..], 0), 0x04030201);
    assert_eq!(<u64 as Follow<[u8]>>::follow(&buf[..], 0), 0x0807060504030201);
    assert!(<bool as Follow<[u8]>>::follow(&buf[..], 0));
    let zero: Vec<u8> = vec![0];
    assert!(!<bool as Follow<[u8]>>::follow(&zero[..], 0));
}

#[test]
fn follow_multibyte_utf8_string() {
    let text = "h\u{e9}llo \u{2713}";
    let mut buf: Vec<u8> = (text.len() as u32).to_le_bytes().to_vec();
    buf.extend_from_slice(text.as_bytes());
    let s = <&str as Follow<[u8]>>::follow(&buf[..], 0);
    assert_eq!(s, text);
    assert_eq!(s.chars().count(), 7);
}

#[test]
fn different_windows_read_different_numbers() {
    let buf: Vec<u8> = vec![1, 2, 3, 4, 1, 2, 3, 5, 1, 2, 3, 4];
    let a = <u32 as Follow<[u8]>>::follow(&buf[..], 0);
    let b = <u32 as Follow<[u8]>>::follow(&buf[..], 4);
    let c = <u32 as Follow<[u8]>>::follow(&buf[..], 8);
    assert_ne!(a, b);
    assert_eq!(a, c);
    assert_eq!(<u32 as Follow<[u8]>>::follow(&[0xff, 0xff, 0xff, 0xff][..], 0), u32::MAX);
}

#[test]
fn elements_are_consecutive_after_header() {
    let buf: Vec<u8> = vec![2, 0, 0, 0, 1, 0, 0, 0, 0, 0, 0, 0, 2, 0, 0, 0, 0, 0, 0, 0, 0xaa];
    let v: Vector<u64> = Vector::new(&buf[..], 0);
    assert_eq!(v.bytes().len(), 8 * v.len());
    assert_eq!(v.bytes(), &buf[4..20]);
    assert_eq!(v.get(0), 1);
    assert_eq!(v.get(1), 2);
}

#[test]
fn iteration_reads_what_get_reads() {
    let buf = u32_vector_bytes();
    let v: Vector<u32> = Vector::new(&buf[..], 0);
    for i in 0..v.len() {
        let mut it = v.iter();
        assert_eq!(it.nth(i), Some(v.get(i)));
        let mut back = v.iter();
        assert_eq!(back.nth_back(v.len() - 1 - i), Some(v.get(i)));
    }
}

#[test]
fn vector_copies_read_the_same() {
    let buf = u32_vector_bytes();
    let v: Vector<u32> = Vector::new(&buf[..], 0);
    let w = v;
    let c = v.clone();
    assert_eq!(w.get(2), v.get(2));
    assert_eq!(c.len(), v.len());
}

#[test]
fn draining_from_the_back_reverses() {
    let buf = u32_vector_bytes();
    let v: Vector<u32> = Vector::new(&buf[..], 0);
    let mut it = v.iter();
    let mut back = Vec::new();
    while let Some(x) = it.next_back() {
        back.push(x);
    }
    assert_eq!(back, vec![30, 20, 10]);
    assert_eq!(it.next(), None);
}

#[test]
fn mixed_ends_hand_out_each_element_once() {
    let buf: Vec<u8> = vec![5, 0, 0, 0, 1, 2, 3, 4, 5];
    let v: Vector<u8> = Vector::new(&buf[..], 0);
    let mut it = v.iter();
    let mut front = Vec::new();
    let mut back = Vec::new();
    for (step, from_front) in [true, false, false, true, true, false, true].iter().enumerate() {
        let got = if *from_front { it.next() } else { it.next_back() };
        match got {
            Some(x) if *from_front => front.push(x),
            Some(x) => back.push(x),
            None => assert!(step >= 5),
        }
        assert_eq!(it.len(), 5 - front.len() - back.len());
    }
    back.reverse();
    let mut all = front.clone();
    all.extend(back);
    assert_eq!(all, vec![1, 2, 3, 4, 5]);
}

#[test]
fn lookup_in_odd_values() {
    let buf: Vec<u8> = vec![3, 0, 0, 0, 1, 0, 0, 0, 3, 0, 0, 0, 5, 0, 0, 0];
    let v: Vector<u32> = Vector::new(&buf[..], 0);
    let f = |a: &u32, k: &u32| a.cmp(k);
    assert_eq!(v.lookup_by_key(1, f), Some(1));
    assert_eq!(v.lookup_by_key(3, f), Some(3));
    assert_eq!(v.lookup_by_key(5, f), Some(5));
    assert_eq!(v.lookup_by_key(2, f), None);
    assert_eq!(v.lookup_by_key(4, f), None);
    assert_eq!(v.lookup_by_key(6, f), None);
}
