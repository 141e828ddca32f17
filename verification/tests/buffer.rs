use secrets::buffer::Buffer;
use std::ops::Bound;

#[test]
fn buffer_starts_empty() {
    let buf = Buffer::with_capacity(8);
    assert_eq!(buf.len(), 0);
    assert!(buf.is_empty());
    assert_eq!(buf.to_vec(), Vec::<u8>::new());
}

#[test]
fn buffer_put_then_drain() {
    let mut buf = Buffer::with_capacity(4);
    buf.put(b"abc");
    buf.put(b"defgh");
    assert_eq!(buf.len(), 8);
    let mut out = [0u8; 5];
    assert_eq!(buf.drain_into(&mut out), 5);
    assert_eq!(&out, b"abcde");
    assert_eq!(buf.to_vec(), b"fgh".to_vec());
    buf.put(b"ij");
    assert_eq!(buf.to_vec(), b"fghij".to_vec());
    let mut big = [9u8; 8];
    assert_eq!(buf.drain_into(&mut big), 5);
    assert_eq!(&big, b"fghij\x09\x09\x09");
    assert!(buf.is_empty());
}

#[test]
fn buffer_as_slice_empties() {
    let mut buf = Buffer::with_capacity(2);
    buf.put(b"xyz");
    assert_eq!(buf.as_slice(), b"xyz");
    assert!(buf.is_empty());
    assert_eq!(buf.as_slice(), b"");
}

#[test]
fn buffer_wrap_windows() {
    let whole = Buffer::wrap(b"hello".to_vec(), Bound::Unbounded, Bound::Unbounded);
    assert_eq!(whole.to_vec(), b"hello".to_vec());
    let tail = Buffer::wrap(b"hello".to_vec(), Bound::Included(2), Bound::Unbounded);
    assert_eq!(tail.to_vec(), b"llo".to_vec());
    let mid = Buffer::wrap(b"hello".to_vec(), Bound::Included(1), Bound::Included(3));
    assert_eq!(mid.to_vec(), b"el".to_vec());
    let inner = Buffer::wrap(b"hello".to_vec(), Bound::Excluded(0), Bound::Excluded(4));
    assert_eq!(inner.to_vec(), b"el".to_vec());
}

#[test]
fn buffer_derefs_to_its_live_bytes() {
    let mut buf = Buffer::with_capacity(3);
    buf.put(b"abcdef");
    let mut out = [0u8; 2];
    buf.drain_into(&mut out);
    assert_eq!(&*buf, b"cdef");
    assert_eq!(buf.iter().count(), 4);
    assert_eq!(buf.len(), 4);
    buf.put(b"");
    assert_eq!(&buf[1..3], b"de");
}

#[test]
fn buffer_drain_into_nothing() {
    let mut buf = Buffer::with_capacity(0);
    let mut none: [u8; 0] = [];
    assert_eq!(buf.drain_into(&mut none), 0);
    buf.put(b"xy");
    assert_eq!(buf.drain_into(&mut none), 0);
    assert_eq!(buf.to_vec(), b"xy".to_vec());
    let mut one = [0u8; 1];
    assert_eq!(buf.drain_into(&mut one), 1);
    assert_eq!(buf.drain_into(&mut one), 1);
    assert_eq!(buf.drain_into(&mut one), 0);
    assert_eq!(one, [b'y']);
}
