use std::sync::atomic::Ordering;

use vm_memory::bitmap::Bitmap;
use vm_memory::bitmap::ByteBitmap;
use vm_memory::volatile_memory::alignment as align_of_addr;
use vm_memory::volatile_memory::Error;
use vm_memory::volatile_memory::MemoryRegion;
use vm_memory::volatile_memory::VolatileMemory;

#[test]
fn alignment() {
    let a: usize = 64;
    assert!(align_of_addr(a) >= 32);
    assert_eq!(align_of_addr(a + 9), 1);
    assert_eq!(align_of_addr(a + 30), 2);
    assert_eq!(align_of_addr(a + 12), 4);
    assert_eq!(align_of_addr(a + 8), 8);
}

#[test]
fn get_slice_succeeds_in_bounds_and_fails_out() {
    // Over a fixed window, every in-bounds (offset, count) pair succeeds with
    // the requested length, and every other pair fails.
    let region = MemoryRegion::new(8);
    let s = region.as_volatile_slice();
    for offset in 0..=8usize {
        for count in 0..=8usize {
            let r = s.get_slice(offset, count);
            if offset + count <= 8 {
                assert_eq!(r.unwrap().len(), count);
            } else {
                assert!(matches!(r.unwrap_err(), Error::OutOfBounds { .. }));
            }
        }
    }
}

#[test]
fn split_at_lengths() {
    let region = MemoryRegion::new(16);
    let s = region.as_volatile_slice();
    for mid in 0..=16usize {
        let (a, b) = s.split_at(mid).unwrap();
        assert_eq!(a.len(), mid);
        assert_eq!(b.len(), 16 - mid);
    }
    assert!(matches!(
        s.split_at(17).unwrap_err(),
        Error::OutOfBounds { addr: 17 }
    ));
}

#[test]
fn offset_reads_shifted_bytes() {
    let bytes: Vec<u8> = (0u8..32).collect();
    let region = MemoryRegion::from_vec(bytes);
    let s = region.as_volatile_slice();
    for k in 0..=32usize {
        let shifted = s.offset(k).unwrap();
        assert_eq!(shifted.len(), 32 - k);
        let mut buf = vec![0u8; 32 - k];
        assert_eq!(shifted.read(&region, &mut buf, 0).unwrap(), 32 - k);
        for i in 0..buf.len() {
            assert_eq!(buf[i], (k + i) as u8);
        }
    }
}

#[test]
fn write_then_read_round_trip() {
    let mut region = MemoryRegion::new(64);
    let s = region.as_volatile_slice();
    let b = [7u8, 1, 255, 0, 42];
    assert_eq!(s.write(&mut region, &b, 20).unwrap(), 5);
    let mut back = [0u8; 5];
    assert_eq!(s.read(&region, &mut back, 20).unwrap(), 5);
    assert_eq!(back, b);

    // Non-empty writes at or past the end fail; empty writes succeed with 0.
    assert!(matches!(
        s.write(&mut region, &b, 64).unwrap_err(),
        Error::OutOfBounds { addr: 64 }
    ));
    assert_eq!(s.write(&mut region, &[], 1000).unwrap(), 0);
}

#[test]
fn partial_write_and_write_slice() {
    let mut region = MemoryRegion::new(5);
    let s = region.as_volatile_slice();
    let buf = [9u8, 8, 7];
    // `write` moves only what fits and reports the count.
    assert_eq!(s.write(&mut region, &buf, 3).unwrap(), 2);
    assert_eq!(&region.bytes()[3..], &[9, 8]);
    // `write_slice` on the same inputs signals the exact shortfall.
    assert!(matches!(
        s.write_slice(&mut region, &buf, 3).unwrap_err(),
        Error::PartialTransfer {
            expected: 3,
            completed: 2
        }
    ));
}

#[test]
fn write_records_exact_dirty_range() {
    let len = 64;
    let mut region = MemoryRegion::with_bitmap(vec![0u8; len], ByteBitmap::new(len));
    let s = region.as_volatile_slice();
    assert_eq!(s.write(&mut region, &[1, 2, 3], 10).unwrap(), 3);
    for i in 0..len {
        assert_eq!(region.bitmap().is_dirty(i), (10..13).contains(&i));
    }

    // A write through a derived sub-view lands on the parent's range at the
    // absolute offset.
    let sub = s.subslice(20, 10).unwrap();
    assert_eq!(sub.write(&mut region, &[5, 5], 4).unwrap(), 2);
    for i in 0..len {
        assert_eq!(
            region.bitmap().is_dirty(i),
            (10..13).contains(&i) || (24..26).contains(&i)
        );
    }
}

#[test]
fn atomic_round_trip_and_misalignment() {
    let mut region = MemoryRegion::new(8);
    let s = region.as_volatile_slice();
    assert!(s
        .store(&mut region, 0x1234u16, 4, Ordering::SeqCst)
        .is_ok());
    assert_eq!(
        s.load::<u16, _>(&region, 4, Ordering::SeqCst).unwrap(),
        0x1234
    );
    assert!(matches!(
        s.get_atomic_ref::<u16>(3).unwrap_err(),
        Error::Misaligned {
            addr: 3,
            alignment: 2
        }
    ));
}

#[test]
fn write_at_end_and_short_read() {
    // A 1024-byte region of zeroes.
    let mut region = MemoryRegion::new(1024);
    let s = region.as_volatile_slice();
    assert_eq!(s.write(&mut region, &[1, 2, 3, 4, 5], 1020).unwrap(), 4);
    assert_eq!(&region.bytes()[1020..], &[1, 2, 3, 4]);

    let mut buf16 = [0xffu8; 16];
    assert_eq!(s.read(&region, &mut buf16, 1010).unwrap(), 14);
    assert_eq!(&buf16[0..10], &[0u8; 10]);
    assert_eq!(&buf16[10..14], &[1, 2, 3, 4]);
    // The bytes past the moved count keep their old contents.
    assert_eq!(&buf16[14..], &[0xff, 0xff]);
}

#[test]
fn aligned_view_parity() {
    // A 3-byte region: a 2-byte atomic view fits at offsets 0 and 1, and
    // exactly one of the two is aligned.
    let region = MemoryRegion::new(3);
    let s = region.as_volatile_slice();
    let at0 = s.get_atomic_ref::<u16>(0).is_err();
    let at1 = s.get_atomic_ref::<u16>(1).is_err();
    assert!(at0 ^ at1);
}

#[test]
fn one_byte_region_overflow() {
    let region = MemoryRegion::new(1);
    let s = region.as_volatile_slice();
    assert!(matches!(
        s.get_slice(usize::MAX, 1).unwrap_err(),
        Error::Overflow {
            base: usize::MAX,
            offset: 1
        }
    ));
}

#[test]
fn noop_bitmap_region_tracks_nothing() {
    let mut region = MemoryRegion::new(8);
    let s = region.as_volatile_slice();
    assert_eq!(s.write(&mut region, &[1, 2, 3], 0).unwrap(), 3);
    // The untracked mode has no dirty state to observe; the write itself
    // still lands.
    assert_eq!(&region.bytes()[0..3], &[1, 2, 3]);
}

#[test]
fn byte_bitmap_marks_and_bounds() {
    let mut bm = ByteBitmap::new(10);
    for i in 0..10 {
        assert!(!bm.is_dirty(i));
    }
    bm.mark_dirty(2, 3);
    for i in 0..10 {
        assert_eq!(bm.is_dirty(i), (2..5).contains(&i));
    }
    assert!(!bm.is_dirty(100));
}

#[test]
fn error_text_hex_and_decimal() {
    assert_eq!(
        Error::OutOfBounds { addr: 0 }.message(),
        "address 0x0 is out of bounds"
    );
    assert_eq!(
        Error::OutOfBounds { addr: 0xdead_beef }.message(),
        "address 0xdeadbeef is out of bounds"
    );
    assert_eq!(
        Error::TooBig {
            nelements: 0,
            size: 1
        }
        .message(),
        "0 elements of size 1 would overflow a usize"
    );
    assert_eq!(
        Error::Misaligned {
            addr: 0x123,
            alignment: 4096
        }
        .message(),
        "address 0x123 is not aligned to 4096"
    );
}
