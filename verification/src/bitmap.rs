//! Dirty-range tracking capability.
//!
//! A region carries a tracker that records which absolute byte offsets were
//! mutated, for consumers such as incremental state transfer.  Views carry a
//! cheap handle (`BitmapSlice`) that remembers the view's absolute base
//! offset, so marks made through a derived view land on the parent's range.
//! The no-op tracker `()` makes the untracked mode free of overhead.

use vstd::prelude::*;

verus! {

/// The absolute offsets `[start, start + len)` as a set.
pub open spec fn range_set(start: int, len: int) -> Set<int> {
    Set::new(|i: int| start <= i < start + len)
}

/// A dirty-byte tracker for a region.
///
/// `mark_dirty` records a run of mutated bytes.  A tracker either tracks
/// (`tracks()`), in which case marking has the exact set semantics below, or
/// it ignores marks entirely and is left unchanged.
pub trait Bitmap: Sized {
    /// Whether this tracker records marks at all.
    spec fn tracks() -> bool;

    /// The offsets this tracker can record; marks stay below this bound.
    spec fn capacity(&self) -> nat;

    /// The set of offsets recorded as mutated.
    spec fn dirty(&self) -> Set<int>;

    /// Records the bytes `[offset, offset + len)` as mutated.
    fn mark_dirty(&mut self, offset: usize, len: usize)
        requires
            offset + len <= old(self).capacity(),
        ensures
            final(self).capacity() == old(self).capacity(),
            Self::tracks() ==> final(self).dirty() == old(self).dirty() + range_set(
                offset as int,
                len as int,
            ),
            !Self::tracks() ==> *final(self) == *old(self),
    ;
}

/// The no-op tracker: dirty tracking switched off.
impl Bitmap for () {
    open spec fn tracks() -> bool {
        false
    }

    open spec fn capacity(&self) -> nat {
        usize::MAX as nat
    }

    open spec fn dirty(&self) -> Set<int> {
        Set::empty()
    }

    fn mark_dirty(&mut self, offset: usize, len: usize) {
    }
}

/// A view's handle onto a region's tracker: the absolute byte offset at
/// which the view's marks land.  Derived views shift the handle, so a write
/// through a sub-view is recorded on the parent's range at the right place.
#[derive(Clone, Copy, Debug)]
pub struct BitmapSlice {
    base: usize,
}

impl BitmapSlice {
    /// The absolute offset at which this handle's marks land.
    pub closed spec fn spec_base(&self) -> usize {
        self.base
    }

    /// The absolute offset at which this handle's marks land.
    #[verifier::when_used_as_spec(spec_base)]
    pub fn base_offset(&self) -> (r: usize)
        ensures
            r == self.spec_base(),
    {
        self.base
    }

    /// A handle landing at absolute offset `base`.
    pub fn new(base: usize) -> (r: BitmapSlice)
        ensures
            r.spec_base() == base,
    {
        BitmapSlice { base }
    }

    /// The handle for a view derived `offset` bytes into this one.
    pub fn slice_at(&self, offset: usize) -> (r: BitmapSlice)
        requires
            self.spec_base() + offset <= usize::MAX,
        ensures
            r.spec_base() == self.spec_base() + offset,
    {
        BitmapSlice { base: self.base + offset }
    }

    /// Records `[offset, offset + len)` relative to this handle on `tracker`.
    pub fn mark_dirty<B: Bitmap>(&self, tracker: &mut B, offset: usize, len: usize)
        requires
            self.spec_base() + offset + len <= usize::MAX,
            self.spec_base() + offset + len <= old(tracker).capacity(),
        ensures
            final(tracker).capacity() == old(tracker).capacity(),
            B::tracks() ==> final(tracker).dirty() == old(tracker).dirty() + range_set(
                self.spec_base() + offset,
                len as int,
            ),
            !B::tracks() ==> *final(tracker) == *old(tracker),
    {
        tracker.mark_dirty(self.base + offset, len)
    }
}

/// A tracker that records every mutated byte exactly, one flag per byte.
pub struct ByteBitmap {
    marked: Vec<bool>,
}

impl ByteBitmap {
    /// A clean tracker covering `len` bytes.
    pub fn new(len: usize) -> (r: ByteBitmap)
        ensures
            r.capacity() == len,
            r.dirty() == Set::<int>::empty(),
    {
        let r = ByteBitmap { marked: vec![false; len] };
        proof {
            assert(r.dirty() =~= Set::<int>::empty());
        }
        r
    }

    /// Whether byte `i` was recorded as mutated.
    pub fn is_dirty(&self, i: usize) -> (r: bool)
        ensures
            r == self.dirty().contains(i as int),
    {
        i < self.marked.len() && self.marked[i]
    }
}

impl Bitmap for ByteBitmap {
    closed spec fn tracks() -> bool {
        true
    }

    closed spec fn capacity(&self) -> nat {
        self.marked@.len()
    }

    closed spec fn dirty(&self) -> Set<int> {
        Set::new(|i: int| 0 <= i < self.marked@.len() && self.marked@[i])
    }

    fn mark_dirty(&mut self, offset: usize, len: usize) {
        let n = self.marked.len();
        let mut i: usize = 0;
        while i < len
            invariant
                i <= len,
                offset + len <= n,
                n == self.marked@.len(),
                self.marked@.len() == old(self).marked@.len(),
                forall|j: int|
                    0 <= j < self.marked@.len() ==> self.marked@[j] == if offset <= j < offset + i {
                        true
                    } else {
                        old(self).marked@[j]
                    },
            decreases len - i,
        {
            self.marked[offset + i] = true;
            i = i + 1;
        }
        proof {
            assert(self.dirty() =~= old(self).dirty() + range_set(offset as int, len as int));
        }
    }
}

} // verus!
