use vm_memory::bitmap::BitmapSlice;
use vm_memory::bitmap::ByteBitmap;
use vm_memory::volatile_memory::MemoryRegion;
use vm_memory::volatile_memory::VolatileMemory;

fn range_is_dirty(bitmap: &ByteBitmap, handle: &BitmapSlice, start: usize, len: usize) -> bool {
    (start..start + len).all(|i| bitmap.is_dirty(handle.base_offset() + i))
}

fn range_is_clean(bitmap: &ByteBitmap, handle: &BitmapSlice, start: usize, len: usize) -> bool {
    (start..start + len).all(|i| !bitmap.is_dirty(handle.base_offset() + i))
}

#[test]
fn test_volatile_slice_dirty_tracking() {
    let val = 123u64;
    let dirty_offset = 0x1000;
    let dirty_len = std::mem::size_of_val(&val);
    let region_len = 0x10000;

    let mut region =
        MemoryRegion::with_bitmap(vec![0u8; region_len], ByteBitmap::new(region_len));
    let slice = region.as_volatile_slice();

    let mut region2 =
        MemoryRegion::with_bitmap(vec![0u8; region_len], ByteBitmap::new(region_len));
    let slice2 = region2.as_volatile_slice();

    let mut region3 =
        MemoryRegion::with_bitmap(vec![0u8; region_len], ByteBitmap::new(region_len));
    let slice3 = region3.as_volatile_slice();

    assert!(range_is_clean(region.bitmap(), slice.bitmap(), 0, slice.len()));
    assert!(range_is_clean(region2.bitmap(), slice2.bitmap(), 0, slice2.len()));

    slice
        .get_ref::<u64>(dirty_offset)
        .unwrap()
        .store(&mut region, val);
    assert!(range_is_dirty(
        region.bitmap(),
        slice.bitmap(),
        dirty_offset,
        dirty_len
    ));

    slice.copy_to_volatile_slice(&region, slice2, &mut region2);
    assert!(range_is_dirty(
        region2.bitmap(),
        slice2.bitmap(),
        0,
        slice2.len()
    ));

    {
        let (s1, s2) = slice.split_at(dirty_offset).unwrap();
        assert!(range_is_clean(region.bitmap(), s1.bitmap(), 0, s1.len()));
        assert!(range_is_dirty(region.bitmap(), s2.bitmap(), 0, dirty_len));
    }

    {
        let s = slice.subslice(dirty_offset, dirty_len).unwrap();
        assert!(range_is_dirty(region.bitmap(), s.bitmap(), 0, s.len()));
    }

    {
        let s = slice.offset(dirty_offset).unwrap();
        assert!(range_is_dirty(region.bitmap(), s.bitmap(), 0, dirty_len));
    }

    // `copy_from` with single-byte elements.
    {
        let buf = vec![1u8; dirty_offset];

        assert!(range_is_clean(
            region.bitmap(),
            slice.bitmap(),
            0,
            dirty_offset
        ));
        slice.copy_from(&mut region, &buf);
        assert!(range_is_dirty(
            region.bitmap(),
            slice.bitmap(),
            0,
            dirty_offset
        ));
    }

    // `copy_from` with wider elements.
    {
        let val = 1u32;
        let buf = vec![val; dirty_offset / std::mem::size_of_val(&val)];

        assert!(range_is_clean(
            region3.bitmap(),
            slice3.bitmap(),
            0,
            dirty_offset
        ));
        slice3.copy_from(&mut region3, &buf);
        assert!(range_is_dirty(
            region3.bitmap(),
            slice3.bitmap(),
            0,
            dirty_offset
        ));
    }
}

#[test]
fn test_volatile_ref_dirty_tracking() {
    let val = 123u64;
    let len = std::mem::size_of_val(&val);

    let mut region = MemoryRegion::with_bitmap(vec![0u8; len], ByteBitmap::new(len));
    let vref = region.as_volatile_slice().get_ref::<u64>(0).unwrap();

    assert!(range_is_clean(region.bitmap(), vref.bitmap(), 0, vref.len()));
    vref.store(&mut region, val);
    assert!(range_is_dirty(region.bitmap(), vref.bitmap(), 0, vref.len()));
}

#[test]
fn test_volatile_array_ref_dirty_tracking() {
    let val = 123u64;
    let dirty_len = std::mem::size_of_val(&val);
    let index = 0x1000;
    let dirty_offset = dirty_len * index;

    // `ref_at`.
    {
        let len = (index + 1) * dirty_len;
        let mut region = MemoryRegion::with_bitmap(vec![0u8; len], ByteBitmap::new(len));
        let arr = region
            .as_volatile_slice()
            .get_array_ref::<u64>(0, index + 1)
            .unwrap();

        assert!(range_is_clean(
            region.bitmap(),
            arr.bitmap(),
            0,
            arr.len() * dirty_len
        ));
        arr.ref_at(index).store(&mut region, val);
        assert!(range_is_dirty(
            region.bitmap(),
            arr.bitmap(),
            dirty_offset,
            dirty_len
        ));
    }

    // `store`.
    {
        let len = (index + 1) * dirty_len;
        let mut region = MemoryRegion::with_bitmap(vec![0u8; len], ByteBitmap::new(len));
        let arr = region
            .as_volatile_slice()
            .get_array_ref::<u64>(0, index + 1)
            .unwrap();

        assert!(range_is_clean(
            region.bitmap(),
            arr.bitmap(),
            0,
            arr.len() * dirty_len
        ));
        arr.store(&mut region, index, val);
        assert!(range_is_dirty(
            region.bitmap(),
            arr.bitmap(),
            dirty_offset,
            dirty_len
        ));
    }

    // `copy_from` for wide and single-byte elements.
    {
        let len = (index + 1) * dirty_len;
        let mut region = MemoryRegion::with_bitmap(vec![0u8; len], ByteBitmap::new(len));
        let arr = region
            .as_volatile_slice()
            .get_array_ref::<u64>(0, index + 1)
            .unwrap();
        let copy_buf = vec![123u64; index + 1];

        assert!(range_is_clean(region.bitmap(), arr.bitmap(), 0, len));
        arr.copy_from(&mut region, &copy_buf);
        assert!(range_is_dirty(region.bitmap(), arr.bitmap(), 0, len));
    }
    {
        let len = index + 1;
        let mut region = MemoryRegion::with_bitmap(vec![0u8; len], ByteBitmap::new(len));
        let arr = region
            .as_volatile_slice()
            .get_array_ref::<u8>(0, index + 1)
            .unwrap();
        let copy_buf = vec![123u8; index + 1];

        assert!(range_is_clean(region.bitmap(), arr.bitmap(), 0, len));
        arr.copy_from(&mut region, &copy_buf);
        assert!(range_is_dirty(region.bitmap(), arr.bitmap(), 0, len));
    }
}
