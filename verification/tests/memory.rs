//! The memory-backed buffers, exercised through their public API.

use aommap::error::Error;
use aommap::memory::{Mmap, MmapMut};

#[test]
fn write_reports_offsets_and_contents() {
    let mut buf = MmapMut::new(16);
    assert_eq!(buf.write(b"hello").unwrap(), 0);
    assert_eq!(buf.write(b"world").unwrap(), 5);
    assert_eq!(buf.len(), 10);
    assert!(!buf.is_empty());
    assert_eq!(buf.slice(0, 10), &b"helloworld"[..]);
    assert_eq!(buf.as_bytes(), &b"helloworld"[..]);
}

#[test]
fn new_buffer_is_empty_and_zeroed() {
    let mut buf = MmapMut::new(4);
    assert_eq!(buf.len(), 0);
    assert!(buf.is_empty());
    let off = buf.write(b"ab").unwrap();
    assert_eq!(off, 0);
    // bytes past the cursor stay unobservable; the written prefix is exact
    assert_eq!(buf.slice(0, 2), &b"ab"[..]);
}

#[test]
fn capacity_boundary_exact_fit() {
    let mut buf = MmapMut::new(8);
    assert_eq!(buf.write(b"hello").unwrap(), 0);
    // writing exactly capacity - cursor bytes succeeds and fills the buffer
    assert_eq!(buf.write(b"abc").unwrap(), 5);
    assert_eq!(buf.len(), 8);
    // one more byte cannot fit
    assert!(matches!(buf.write(b"x"), Err(Error::EOF)));
}

#[test]
fn capacity_overshoot_fails_and_exhausts() {
    let mut buf = MmapMut::new(8);
    assert_eq!(buf.write(b"hello").unwrap(), 0);
    // capacity - cursor + 1 bytes: one too many
    assert!(matches!(buf.write(b"abcd"), Err(Error::EOF)));
    // the failure did not disturb the written bytes or the cursor
    assert_eq!(buf.len(), 5);
    assert_eq!(buf.as_bytes(), &b"hello"[..]);
    // once exhausted, even a write that would fit keeps failing
    assert!(matches!(buf.write(b"a"), Err(Error::EOF)));
    assert!(matches!(buf.write(b""), Err(Error::EOF)));
}

#[test]
fn zero_length_write_succeeds_until_exhaustion() {
    let mut buf = MmapMut::new(4);
    assert_eq!(buf.write(b"").unwrap(), 0);
    assert_eq!(buf.write(b"abcd").unwrap(), 0);
    // the buffer is full but not exhausted: an empty write still fits
    assert_eq!(buf.write(b"").unwrap(), 4);
    assert!(matches!(buf.write(b"x"), Err(Error::EOF)));
    assert!(matches!(buf.write(b""), Err(Error::EOF)));
}

#[test]
fn len_never_decreases() {
    let mut buf = MmapMut::new(8);
    let mut last = buf.len();
    let steps: [&[u8]; 5] = [b"abc", b"", b"defgh", b"x", b""];
    for step in steps {
        let _ = buf.write(step);
        let now = buf.len();
        assert!(now >= last);
        last = now;
    }
    let _ = buf.flush();
    assert!(buf.len() >= last);
}

#[test]
fn freeze_keeps_written_bytes() {
    let mut buf = MmapMut::new(32);
    buf.write(b"hello").unwrap();
    buf.write(b"world").unwrap();
    let frozen = buf.freeze();
    assert_eq!(frozen.as_bytes(), &b"helloworld"[..]);
    let copy = frozen.clone();
    assert_eq!(copy.as_bytes(), &b"helloworld"[..]);
}

#[test]
fn freeze_of_empty_buffer_is_empty() {
    let buf = MmapMut::new(16);
    let frozen = buf.freeze();
    assert_eq!(frozen.as_bytes(), &b""[..]);
}

#[test]
fn empty_slices_at_every_position() {
    let mut buf = MmapMut::new(8);
    buf.write(b"abcde").unwrap();
    let len = buf.len();
    let mut n: usize = 0;
    while n <= len {
        assert_eq!(buf.slice(n, n), &b""[..]);
        n += 1;
    }
}

#[test]
fn flush_twice_changes_nothing() {
    let mut buf = MmapMut::new(8);
    buf.write(b"abc").unwrap();
    assert!(buf.flush().is_ok());
    assert!(buf.flush().is_ok());
    assert_eq!(buf.as_bytes(), &b"abc"[..]);
    assert_eq!(buf.len(), 3);
}

#[test]
fn reserve_then_fill() {
    let mut buf = MmapMut::new(16);
    let off = buf.writable_slice(5).unwrap();
    assert_eq!(off, 0);
    assert_eq!(buf.len(), 5);
    // the reserved range starts out zeroed
    assert_eq!(buf.slice(0, 5), &[0u8; 5][..]);
    buf.write_at(off, b"abcde");
    assert_eq!(buf.slice(0, 5), &b"abcde"[..]);
    // a second reservation lands right after the first
    let off2 = buf.writable_slice(3).unwrap();
    assert_eq!(off2, 5);
    buf.write_at(off2, b"xyz");
    assert_eq!(buf.as_bytes(), &b"abcdexyz"[..]);
}

#[test]
fn reserve_past_capacity_fails() {
    let mut buf = MmapMut::new(4);
    assert!(matches!(buf.writable_slice(5), Err(Error::EOF)));
    assert!(matches!(buf.writable_slice(1), Err(Error::EOF)));
    assert_eq!(buf.len(), 0);
}

#[test]
fn open_wraps_frozen_bytes() {
    let shared = bytes::Bytes::copy_from_slice(b"abc");
    let view = Mmap::open(shared);
    assert_eq!(view.as_bytes(), &b"abc"[..]);
    let copy = view.clone();
    assert_eq!(copy.as_bytes(), &b"abc"[..]);
}

#[test]
fn io_failures_convert_to_the_io_kind() {
    let underlying = std::io::Error::new(std::io::ErrorKind::Other, "boom");
    let converted = Error::from(underlying);
    assert!(matches!(converted, Error::IO(_)));
}

#[test]
fn successful_claims_tile_the_prefix() {
    let mut buf = MmapMut::new(10);
    let writes: [&[u8]; 5] = [b"ab", b"c", b"", b"toolongtofit", b"defg"];
    let mut claims: Vec<(usize, usize)> = Vec::new();
    for w in writes {
        if let Ok(off) = buf.write(w) {
            claims.push((off, w.len()));
        }
    }
    // each successful claim begins where the previous one ended, starting at
    // zero, so the claims partition the written prefix with no gaps and no
    // overlaps and their lengths sum to the cursor
    let mut expected: usize = 0;
    for (off, len) in claims {
        assert_eq!(off, expected);
        expected += len;
    }
    assert_eq!(expected, buf.len());
}
