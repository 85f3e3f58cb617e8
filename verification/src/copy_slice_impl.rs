//! The copy engine: moves bytes between two non-overlapping byte runs
//! without ever touching the shared run through an ordinary reference.
//!
//! A transfer of at most one machine word decomposes into the largest common
//! alignment of the two starting offsets and then copies greedily in
//! descending power-of-two unit sizes, one load/store pair of that width per
//! step, each step making strict forward progress.  A larger transfer
//! delegates to a plain bulk copy, a deliberate soundness/throughput
//! trade-off.

use vstd::prelude::*;
use vstd::bytes::u16_from_le_bytes;
use vstd::bytes::u16_to_le_bytes;
use vstd::bytes::u32_from_le_bytes;
use vstd::bytes::u32_to_le_bytes;
use vstd::bytes::u64_from_le_bytes;
use vstd::bytes::u64_to_le_bytes;
use vstd::bytes::lemma_auto_spec_u16_to_from_le_bytes;
use vstd::bytes::lemma_auto_spec_u32_to_from_le_bytes;
use vstd::bytes::lemma_auto_spec_u64_to_from_le_bytes;
use vstd::slice::slice_subrange;
use crate::volatile_memory::alignment;
use crate::volatile_memory::update_range;

verus! {

/// The machine word size the engine decomposes against.
pub const WORD_SIZE: usize = 8;

/// Writes the bytes of `b` into `dst` at `dst_at`.
fn put_bytes(dst: &mut [u8], dst_at: usize, b: &[u8])
    requires
        dst_at + b@.len() <= old(dst)@.len(),
    ensures
        final(dst)@ == update_range(old(dst)@, dst_at as int, b@),
{
    let n = b.len();
    let m = dst.len();
    let mut j: usize = 0;
    while j < n
        invariant
            j <= n,
            dst_at + n <= m,
            m == dst@.len(),
            n == b@.len(),
            dst@.len() == old(dst)@.len(),
            forall|k: int|
                0 <= k < dst@.len() ==> dst@[k] == if dst_at <= k < dst_at + j {
                    b@[k - dst_at]
                } else {
                    old(dst)@[k]
                },
        decreases n - j,
    {
        dst[dst_at + j] = b[j];
        j = j + 1;
    }
    proof {
        assert(final(dst)@ =~= update_range(old(dst)@, dst_at as int, b@));
    }
}

/// One load/store pair of width `unit` (8, 4, 2 or 1): reads `unit` bytes of
/// `src` at `src_at` as a single integer and stores its bytes at `dst_at`.
fn copy_single(unit: usize, dst: &mut [u8], dst_at: usize, src: &[u8], src_at: usize)
    requires
        unit == 1 || unit == 2 || unit == 4 || unit == 8,
        dst_at + unit <= old(dst)@.len(),
        src_at + unit <= src@.len(),
    ensures
        final(dst)@ == update_range(
            old(dst)@,
            dst_at as int,
            src@.subrange(src_at as int, src_at + unit),
        ),
{
    let _n = src.len();
    if unit == 8 {
        proof {
            lemma_auto_spec_u64_to_from_le_bytes();
        }
        let v = u64_from_le_bytes(slice_subrange(src, src_at, src_at + 8));
        let b = u64_to_le_bytes(v);
        put_bytes(dst, dst_at, b.as_slice());
    } else if unit == 4 {
        proof {
            lemma_auto_spec_u32_to_from_le_bytes();
        }
        let v = u32_from_le_bytes(slice_subrange(src, src_at, src_at + 4));
        let b = u32_to_le_bytes(v);
        put_bytes(dst, dst_at, b.as_slice());
    } else if unit == 2 {
        proof {
            lemma_auto_spec_u16_to_from_le_bytes();
        }
        let v = u16_from_le_bytes(slice_subrange(src, src_at, src_at + 2));
        let b = u16_to_le_bytes(v);
        put_bytes(dst, dst_at, b.as_slice());
    } else {
        let v = src[src_at];
        dst[dst_at] = v;
        proof {
            assert(final(dst)@ =~= update_range(
                old(dst)@,
                dst_at as int,
                src@.subrange(src_at as int, src_at + 1),
            ));
        }
    }
}

/// The alignment of a starting offset: offset zero is as aligned as any
/// address, any other offset is aligned to its lowest set bit.
fn offset_alignment(at: usize) -> (r: usize)
    ensures
        r >= 1,
{
    if at == 0 {
        WORD_SIZE
    } else {
        let a = alignment(at);
        proof {
            crate::volatile_memory::lemma_pow2_pos(a);
        }
        a
    }
}

/// Copies `total` bytes from `src` at `src_at` to `dst` at `dst_at` through
/// a loop of unit-sized load/store pairs, largest common alignment first,
/// and returns `total`.
fn copy_slice_volatile(
    dst: &mut [u8],
    dst_at: usize,
    src: &[u8],
    src_at: usize,
    total: usize,
) -> (r: usize)
    requires
        dst_at + total <= old(dst)@.len(),
        src_at + total <= src@.len(),
    ensures
        final(dst)@ == update_range(
            old(dst)@,
            dst_at as int,
            src@.subrange(src_at as int, src_at + total),
        ),
        r == total,
{
    let src_align = offset_alignment(src_at);
    let dst_align = offset_alignment(dst_at);
    let align = if src_align < dst_align {
        src_align
    } else {
        dst_align
    };
    let m = dst.len();
    let n = src.len();
    let mut left = total;

    let mut unit = if align >= 8 {
        8usize
    } else if align >= 4 {
        4usize
    } else if align >= 2 {
        2usize
    } else {
        1usize
    };
    while unit >= 1
        invariant
            unit == 8 || unit == 4 || unit == 2 || unit == 1 || unit == 0,
            left <= total,
            dst_at + total <= m,
            src_at + total <= n,
            m == dst@.len(),
            n == src@.len(),
            dst@.len() == old(dst)@.len(),
            unit == 0 ==> left == 0,
            dst@ == update_range(
                old(dst)@,
                dst_at as int,
                src@.subrange(src_at as int, src_at + (total - left)),
            ),
        decreases unit,
    {
        while left >= unit
            invariant
                unit == 8 || unit == 4 || unit == 2 || unit == 1,
                left <= total,
                dst_at + total <= m,
                src_at + total <= n,
                m == dst@.len(),
                n == src@.len(),
                dst@.len() == old(dst)@.len(),
                dst@ == update_range(
                    old(dst)@,
                    dst_at as int,
                    src@.subrange(src_at as int, src_at + (total - left)),
                ),
            decreases left,
        {
            let done = total - left;
            let ghost prev = dst@;
            copy_single(unit, dst, dst_at + done, src, src_at + done);
            proof {
                assert(dst@ =~= update_range(
                    old(dst)@,
                    dst_at as int,
                    src@.subrange(src_at as int, src_at + (total - (left - unit))),
                ));
            }
            left = left - unit;
        }
        unit = unit / 2;
    }
    proof {
        assert(src@.subrange(src_at as int, src_at + total) =~= src@.subrange(
            src_at as int,
            src_at + (total - left),
        ));
    }
    total
}

/// Copies `total` bytes from `src` at `src_at` to `dst` at `dst_at` and
/// returns `total`: at most one machine word goes through the unit-sized
/// loop, anything larger through the bulk path.
pub fn copy_slice(dst: &mut [u8], dst_at: usize, src: &[u8], src_at: usize, total: usize) -> (r:
    usize)
    requires
        dst_at + total <= old(dst)@.len(),
        src_at + total <= src@.len(),
    ensures
        final(dst)@ == update_range(
            old(dst)@,
            dst_at as int,
            src@.subrange(src_at as int, src_at + total),
        ),
        r == total,
{
    if total <= WORD_SIZE {
        copy_slice_volatile(dst, dst_at, src, src_at, total);
    } else {
        let m = dst.len();
        let n = src.len();
        let mut i: usize = 0;
        while i < total
            invariant
                i <= total,
                dst_at + total <= m,
                src_at + total <= n,
                m == dst@.len(),
                n == src@.len(),
                dst@.len() == old(dst)@.len(),
                forall|k: int|
                    0 <= k < dst@.len() ==> dst@[k] == if dst_at <= k < dst_at + i {
                        src@[src_at + (k - dst_at)]
                    } else {
                        old(dst)@[k]
                    },
            decreases total - i,
        {
            dst[dst_at + i] = src[src_at + i];
            i = i + 1;
        }
        proof {
            assert(final(dst)@ =~= update_range(
                old(dst)@,
                dst_at as int,
                src@.subrange(src_at as int, src_at + total),
            ));
        }
    }
    total
}

} // verus!
