use vm_memory::volatile_memory::Error;
use vm_memory::volatile_memory::MemoryRegion;
use vm_memory::volatile_memory::VolatileMemory;

#[test]
fn test_display_error() {
    assert_eq!(
        Error::OutOfBounds { addr: 0x10 }.message(),
        "address 0x10 is out of bounds"
    );

    assert_eq!(
        Error::Overflow {
            base: 0x0,
            offset: 0x10
        }
        .message(),
        "address 0x0 offset by 0x10 would overflow"
    );

    assert_eq!(
        Error::TooBig {
            nelements: 100_000,
            size: 1_000_000_000
        }
        .message(),
        "100000 elements of size 1000000000 would overflow a usize"
    );

    assert_eq!(
        Error::Misaligned {
            addr: 0x4,
            alignment: 8
        }
        .message(),
        "address 0x4 is not aligned to 8"
    );

    assert_eq!(
        Error::PartialTransfer {
            expected: 100,
            completed: 90
        }
        .message(),
        "only used 90 bytes in 100 long buffer"
    );
}

#[test]
fn compute_offset_sums_and_overflows() {
    assert_eq!(108, vm_memory::compute_offset(100, 8).unwrap());
    assert!(vm_memory::compute_offset(usize::MAX, 6).is_err());
}

#[test]
fn mem_is_empty() {
    let region = MemoryRegion::from_vec(vec![0u8; 100]);
    let a = region.as_volatile_slice();
    assert!(!a.is_empty());

    let region = MemoryRegion::from_vec(Vec::new());
    let a = region.as_volatile_slice();
    assert!(a.is_empty());
}

#[test]
fn slice_len() {
    let region = MemoryRegion::from_vec(vec![0u8; 100]);
    let mem = region.as_volatile_slice();
    let slice = mem.get_slice(0, 27).unwrap();
    assert_eq!(slice.len(), 27);
    assert!(!slice.is_empty());

    let slice = mem.get_slice(34, 27).unwrap();
    assert_eq!(slice.len(), 27);
    assert!(!slice.is_empty());

    let slice = slice.get_slice(20, 5).unwrap();
    assert_eq!(slice.len(), 5);
    assert!(!slice.is_empty());

    let slice = mem.get_slice(34, 0).unwrap();
    assert!(slice.is_empty());
}

#[test]
fn slice_subslice() {
    let mut region = MemoryRegion::from_vec(vec![0u8; 100]);
    let mem = region.as_volatile_slice();
    let slice = mem.get_slice(0, 100).unwrap();
    assert!(slice.write(&mut region, &[1; 80], 10).is_ok());

    assert!(slice.subslice(0, 0).is_ok());
    assert!(slice.subslice(0, 101).is_err());

    assert!(slice.subslice(99, 0).is_ok());
    assert!(slice.subslice(99, 1).is_ok());
    assert!(slice.subslice(99, 2).is_err());

    assert!(slice.subslice(100, 0).is_ok());
    assert!(slice.subslice(100, 1).is_err());

    assert!(slice.subslice(101, 0).is_err());
    assert!(slice.subslice(101, 1).is_err());

    assert!(slice.subslice(usize::MAX, 2).is_err());
    assert!(slice.subslice(2, usize::MAX).is_err());

    let maybe_offset_slice = slice.subslice(10, 80);
    assert!(maybe_offset_slice.is_ok());
    let offset_slice = maybe_offset_slice.unwrap();
    assert_eq!(offset_slice.len(), 80);

    let mut buf = [0; 80];
    assert!(offset_slice.read(&region, &mut buf, 0).is_ok());
    assert_eq!(&buf[0..80], &[1; 80][0..80]);
}

#[test]
fn slice_offset() {
    let mut region = MemoryRegion::from_vec(vec![0u8; 100]);
    let mem = region.as_volatile_slice();
    let slice = mem.get_slice(0, 100).unwrap();
    assert!(slice.write(&mut region, &[1; 80], 10).is_ok());

    assert!(slice.offset(101).is_err());

    let maybe_offset_slice = slice.offset(10);
    assert!(maybe_offset_slice.is_ok());
    let offset_slice = maybe_offset_slice.unwrap();
    assert_eq!(offset_slice.len(), 90);
    let mut buf = [0; 90];
    assert!(offset_slice.read(&region, &mut buf, 0).is_ok());
    assert_eq!(&buf[0..80], &[1; 80][0..80]);
    assert_eq!(&buf[80..90], &[0; 10][0..10]);
}

#[test]
fn slice_overflow_error() {
    let region = MemoryRegion::from_vec(vec![0u8]);
    let a = region.as_volatile_slice();
    let res = a.get_slice(usize::MAX, 1).unwrap_err();
    assert!(matches!(
        res,
        Error::Overflow {
            base: usize::MAX,
            offset: 1,
        }
    ));
}

#[test]
fn slice_oob_error() {
    let region = MemoryRegion::from_vec(vec![0u8; 100]);
    let a = region.as_volatile_slice();
    a.get_slice(50, 50).unwrap();
    let res = a.get_slice(55, 50).unwrap_err();
    assert!(matches!(res, Error::OutOfBounds { addr: 105 }));
}

#[test]
fn test_write_past_end() {
    let mut region = MemoryRegion::from_vec(vec![0u8; 5]);
    let s = region.as_volatile_slice();
    let res = s.write(&mut region, &[1, 2, 3, 4, 5, 6], 0);
    assert!(res.is_ok());
    assert_eq!(res.unwrap(), 5);
}

#[test]
fn slice_read_and_write() {
    let mut region = MemoryRegion::from_vec(vec![0u8; 5]);
    let s = region.as_volatile_slice();
    let sample_buf = [1, 2, 3];
    assert!(s.write(&mut region, &sample_buf, 5).is_err());
    assert!(s.write(&mut region, &sample_buf, 2).is_ok());
    let mut buf = [0u8; 3];
    assert!(s.read(&region, &mut buf, 5).is_err());
    assert!(s.read_slice(&region, &mut buf, 2).is_ok());
    assert_eq!(buf, sample_buf);

    // Writing an empty buffer at the end of the volatile slice works.
    assert_eq!(s.write(&mut region, &[], 100).unwrap(), 0);
    let buf: &mut [u8] = &mut [];
    assert_eq!(s.read(&region, buf, 4).unwrap(), 0);

    // Check that reading and writing an empty buffer does not yield an error.
    let mut empty_region = MemoryRegion::from_vec(Vec::new());
    let empty = empty_region.as_volatile_slice();
    assert_eq!(empty.write(&mut empty_region, &[], 1).unwrap(), 0);
    assert_eq!(empty.read(&empty_region, buf, 1).unwrap(), 0);
}

#[test]
fn split_at() {
    let region = MemoryRegion::from_vec(vec![0u8; 32]);
    let mem_ref = region.as_volatile_slice();
    let vslice = mem_ref.get_slice(0, 32).unwrap();
    let (start, end) = vslice.split_at(8).unwrap();
    assert_eq!(start.len(), 8);
    assert_eq!(end.len(), 24);
    let (start, end) = vslice.split_at(0).unwrap();
    assert_eq!(start.len(), 0);
    assert_eq!(end.len(), 32);
    let (start, end) = vslice.split_at(31).unwrap();
    assert_eq!(start.len(), 31);
    assert_eq!(end.len(), 1);
    let (start, end) = vslice.split_at(32).unwrap();
    assert_eq!(start.len(), 32);
    assert_eq!(end.len(), 0);
    let err = vslice.split_at(33).unwrap_err();
    assert!(matches!(err, Error::OutOfBounds { addr: _ }))
}

#[test]
fn slice_copy_to_u8() {
    let mut region = MemoryRegion::from_vec(vec![2u8, 4, 6, 8, 10]);
    let mut b = vec![0u8; 4];
    let mut c = vec![0u8; 6];
    let a_ref = region.as_volatile_slice();
    let v_ref = a_ref.get_slice(0, a_ref.len()).unwrap();
    v_ref.copy_to::<u8, _>(&mut region, &mut b);
    v_ref.copy_to::<u8, _>(&mut region, &mut c);
    let a = region.bytes();
    assert_eq!(b[0..4], a[0..4]);
    assert_eq!(c[0..5], a[0..5]);
}

#[test]
fn slice_copy_to_u16() {
    let a = [0x01u16, 0x2, 0x03, 0x4, 0x5];
    let mut bytes = Vec::new();
    for v in a.iter() {
        bytes.extend_from_slice(&v.to_le_bytes());
    }
    bytes.truncate(9);
    let region = MemoryRegion::from_vec(bytes);
    let mut b = vec![0u16; 4];
    let mut c = vec![0u16; 6];
    let v_ref = region.as_volatile_slice();

    v_ref.copy_to::<u16, _>(&region, &mut b);
    v_ref.copy_to::<u16, _>(&region, &mut c);
    assert_eq!(b[0..4], a[0..4]);
    assert_eq!(c[0..4], a[0..4]);
    assert_eq!(c[4], 0);
}

#[test]
fn slice_copy_from_u8() {
    let a = [2u8, 4, 6, 8, 10];
    let mut b_region = MemoryRegion::from_vec(vec![0u8; 4]);
    let b_ref = b_region.as_volatile_slice();
    let v_ref = b_ref.get_slice(0, b_ref.len()).unwrap();
    v_ref.copy_from(&mut b_region, &a[..]);
    assert_eq!(b_region.bytes()[0..4], a[0..4]);

    let mut c_region = MemoryRegion::from_vec(vec![0u8; 6]);
    let c_ref = c_region.as_volatile_slice();
    let v_ref = c_ref.get_slice(0, c_ref.len()).unwrap();
    v_ref.copy_from(&mut c_region, &a[..]);
    assert_eq!(c_region.bytes()[0..5], a[0..5]);
}

#[test]
fn slice_copy_from_u16() {
    let a = [2u16, 4, 6, 8, 10];
    let mut b_region = MemoryRegion::from_vec(vec![0u8; 8]);
    let v_ref = b_region.as_volatile_slice();
    v_ref.copy_from(&mut b_region, &a[..]);
    for i in 0..4 {
        let got = u16::from_le_bytes([b_region.bytes()[2 * i], b_region.bytes()[2 * i + 1]]);
        assert_eq!(got, a[i]);
    }

    let mut c_region = MemoryRegion::from_vec(vec![0u8; 9]);
    let v_ref = c_region.as_volatile_slice();
    v_ref.copy_from(&mut c_region, &a[..]);
    for i in 0..4 {
        let got = u16::from_le_bytes([c_region.bytes()[2 * i], c_region.bytes()[2 * i + 1]]);
        assert_eq!(got, a[i]);
    }
    assert_eq!(c_region.bytes()[8], 0);
}

#[test]
fn slice_copy_to_volatile_slice() {
    let a_region = MemoryRegion::from_vec(vec![2u8, 4, 6, 8, 10]);
    let a_slice = a_region.as_volatile_slice();

    let mut b_region = MemoryRegion::from_vec(vec![0u8; 4]);
    let b_slice = b_region.as_volatile_slice();

    a_slice.copy_to_volatile_slice(&a_region, b_slice, &mut b_region);
    assert_eq!(b_region.bytes().as_slice(), &[2, 4, 6, 8]);
}
