//! Laws relating the view operations: what a derived window reads, what a
//! write leaves for a read, and where dirty marks land.
//!
//! Each law is stated over the spec functions that the operations' own
//! contracts use, so it composes with any call of those operations.

use vstd::prelude::*;
use crate::bitmap::Bitmap;
use crate::bitmap::range_set;
use crate::byte_valued::ByteValued;
use crate::volatile_memory::MemoryRegion;
use crate::volatile_memory::VolatileRef;
use crate::volatile_memory::VolatileSlice;
use crate::volatile_memory::update_range;

verus! {

/// Law: for a window `s` of length `N` over a region and `k <= N`, the
/// window derived by `offset(k)` has length `N - k`, and reading its byte
/// `i` reads byte `k + i` of `s`.  The hypotheses on `s2` are what
/// `VolatileSlice::offset` ensures of its result.
pub proof fn lemma_offset_reads_parent<B: Bitmap>(
    s: VolatileSlice,
    s2: VolatileSlice,
    region: MemoryRegion<B>,
    k: usize,
)
    requires
        s.valid_for(&region),
        k <= s.spec_len(),
        s2.spec_addr() == s.spec_addr() + k,
        s2.spec_len() == s.spec_len() - k,
    ensures
        s2.view_of(&region).len() == s.spec_len() - k,
        forall|i: int|
            0 <= i < s2.spec_len() ==> s2.view_of(&region)[i] == s.view_of(&region)[k + i],
{
}

/// Law: write-then-read round trip.  Writing buffer `b` at address `a` of a
/// window (with `a + b.len() <= len`) leaves the region such that reading
/// `b.len()` bytes at `a` hands `b` back unchanged.  The hypothesis on
/// `region1` is what `VolatileSlice::write` ensures of the region after a
/// full write.
pub proof fn lemma_write_read_round_trip<B: Bitmap>(
    s: VolatileSlice,
    region0: MemoryRegion<B>,
    region1: MemoryRegion<B>,
    b: Seq<u8>,
    a: usize,
)
    requires
        s.valid_for(&region0),
        a + b.len() <= s.spec_len(),
        region1.spec_bytes() == update_range(region0.spec_bytes(), s.spec_addr() + a, b),
    ensures
        region1.spec_bytes().subrange(s.spec_addr() + a, s.spec_addr() + a + b.len()) == b,
        region1.spec_bytes().len() == region0.spec_bytes().len(),
{
    assert(region1.spec_bytes().subrange(s.spec_addr() + a, s.spec_addr() + a + b.len()) =~= b);
}

/// Law: a write leaves every byte outside the written range unchanged.
pub proof fn lemma_write_untouched_outside(bytes: Seq<u8>, at: int, data: Seq<u8>)
    requires
        0 <= at,
        at + data.len() <= bytes.len(),
    ensures
        forall|j: int|
            0 <= j < bytes.len() && !(at <= j < at + data.len()) ==> update_range(
                bytes,
                at,
                data,
            )[j] == bytes[j],
{
}

/// Law: a write of `n` bytes at `addr` through a window records exactly
/// `[addr, addr + n)` relative to the window's handle; through a window
/// derived `offset` bytes into a parent, the marks land on the parent's
/// handle at `offset + addr`.  The first hypothesis is what `subslice`,
/// `offset` and `split_at` ensure of the derived handle; the second is what
/// `write` ensures of a tracking region.
pub proof fn lemma_derived_write_marks_parent(
    parent: VolatileSlice,
    child: VolatileSlice,
    offset: usize,
    addr: usize,
    n: usize,
    dirty0: Set<int>,
    dirty1: Set<int>,
)
    requires
        child.spec_bitmap().spec_base() == parent.spec_bitmap().spec_base() + offset,
        dirty1 == dirty0 + range_set(child.spec_bitmap().spec_base() + addr, n as int),
    ensures
        forall|j: int|
            dirty1.contains(j) <==> (dirty0.contains(j) || parent.spec_bitmap().spec_base()
                + offset + addr <= j < parent.spec_bitmap().spec_base() + offset + addr + n),
{
}

/// Law: atomic store/load round trip.  Storing `v` through an aligned typed
/// view leaves the region such that loading from the same view hands `v`
/// back.  The hypothesis on `region1` is what `VolatileRef::store` ensures.
pub proof fn lemma_store_load_round_trip<T: ByteValued, B: Bitmap>(
    r: VolatileRef<T>,
    region0: MemoryRegion<B>,
    region1: MemoryRegion<B>,
    v: T,
)
    requires
        r.valid_for(&region0),
        region1.spec_bytes() == update_range(
            region0.spec_bytes(),
            r.spec_addr() as int,
            v.to_bytes_spec(),
        ),
    ensures
        T::from_bytes_spec(
            region1.spec_bytes().subrange(r.spec_addr() as int, r.spec_addr() + T::spec_size()),
        ) == v,
{
    v.to_bytes_len();
    v.round_trip();
    assert(region1.spec_bytes().subrange(r.spec_addr() as int, r.spec_addr() + T::spec_size())
        =~= v.to_bytes_spec());
}

} // verus!
