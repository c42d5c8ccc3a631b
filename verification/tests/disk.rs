//! The disk-flavoured buffers, exercised over anonymous mappings, which
//! memmapix hands out without any file underneath.

use aommap::disk::{Mmap, MmapMut};
use aommap::error::Error;

fn anon_buffer(capacity: usize, cursor: usize) -> MmapMut {
    let map = memmapix::MmapMut::map_anon(capacity).unwrap();
    MmapMut::from_map(map, cursor)
}

#[test]
fn write_freeze_round_trip() {
    let mut buf = anon_buffer(1024, 0);
    let first = buf.write(b"hello").unwrap();
    let second = buf.write(b"world").unwrap();
    assert_eq!(first, 0);
    assert_eq!(second, 5);
    assert_eq!(buf.len(), 10);
    assert!(buf.flush().is_ok());
    assert!(buf.flush().is_ok());
    assert_eq!(buf.as_bytes(), &b"helloworld"[..]);
    let frozen = buf.freeze().unwrap();
    assert_eq!(frozen.as_bytes(), &b"helloworld"[..]);
    let shared = frozen.clone();
    assert_eq!(shared.as_bytes(), &b"helloworld"[..]);
}

#[test]
fn disk_capacity_boundary_exact_fit() {
    let mut buf = anon_buffer(8, 0);
    assert_eq!(buf.write(b"hello").unwrap(), 0);
    assert_eq!(buf.write(b"abc").unwrap(), 5);
    assert_eq!(buf.len(), 8);
    assert!(matches!(buf.write(b"x"), Err(Error::EOF)));
}

#[test]
fn disk_capacity_overshoot_fails_and_exhausts() {
    let mut buf = anon_buffer(8, 0);
    assert_eq!(buf.write(b"hello").unwrap(), 0);
    assert!(matches!(buf.write(b"abcd"), Err(Error::EOF)));
    assert_eq!(buf.len(), 5);
    assert_eq!(buf.as_bytes(), &b"hello"[..]);
    assert!(matches!(buf.write(b"a"), Err(Error::EOF)));
}

#[test]
fn opening_at_a_cursor_appends_after_it() {
    let mut buf = anon_buffer(64, 16);
    assert_eq!(buf.len(), 16);
    assert_eq!(buf.write(b"ab").unwrap(), 16);
    assert_eq!(buf.slice(16, 18), &b"ab"[..]);
}

#[test]
fn cursor_past_the_region_is_capped() {
    let mut buf = anon_buffer(8, 100);
    assert_eq!(buf.len(), 8);
    assert!(matches!(buf.write(b"x"), Err(Error::EOF)));
}

#[test]
fn disk_reserve_then_fill() {
    let mut buf = anon_buffer(16, 0);
    let off = buf.bytes_mut(3).unwrap();
    assert_eq!(off, 0);
    buf.write_at(off, b"xyz");
    assert_eq!(buf.slice(0, 3), &b"xyz"[..]);
    let off2 = buf.bytes_mut(2).unwrap();
    assert_eq!(off2, 3);
    buf.write_at(off2, b"ab");
    assert_eq!(buf.as_bytes(), &b"xyzab"[..]);
}

#[test]
fn reserving_past_capacity_exhausts() {
    let mut buf = anon_buffer(4, 0);
    assert!(matches!(buf.bytes_mut(5), Err(Error::EOF)));
    assert!(matches!(buf.bytes_mut(1), Err(Error::EOF)));
    assert_eq!(buf.len(), 0);
}

#[test]
fn disk_empty_slices_at_every_position() {
    let mut buf = anon_buffer(8, 0);
    buf.write(b"abcde").unwrap();
    let len = buf.len();
    let mut n: usize = 0;
    while n <= len {
        assert_eq!(buf.slice(n, n), &b""[..]);
        n += 1;
    }
}

#[test]
fn async_flush_reports_like_flush() {
    let mut buf = anon_buffer(8, 0);
    buf.write(b"abc").unwrap();
    assert!(buf.flush_async().is_ok());
    assert!(buf.flush_async().is_ok());
    assert_eq!(buf.as_bytes(), &b"abc"[..]);
}

#[test]
fn open_exposes_the_whole_region() {
    let map = memmapix::MmapMut::map_anon(32).unwrap();
    let ro = map.make_read_only().unwrap();
    let view = Mmap::open(ro);
    assert_eq!(view.as_bytes(), &[0u8; 32][..]);
    let shared = view.clone();
    assert_eq!(shared.as_bytes(), &[0u8; 32][..]);
}

#[test]
fn disk_len_never_decreases() {
    let mut buf = anon_buffer(8, 2);
    let mut last = buf.len();
    let steps: [&[u8]; 5] = [b"abc", b"", b"defgh", b"x", b""];
    for step in steps {
        let _ = buf.write(step);
        let now = buf.len();
        assert!(now >= last);
        last = now;
    }
}
