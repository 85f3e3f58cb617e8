//! The volatile view types and their bounds-, overflow- and alignment-checked
//! operations over a caller-owned memory region.

use vstd::prelude::*;
use crate::bitmap::Bitmap;
use crate::bitmap::BitmapSlice;
use crate::bitmap::range_set;
use crate::byte_valued::ByteValued;

verus! {

/// Errors reported by the volatile memory operations.
#[derive(Debug)]
pub enum Error {
    /// `addr` is out of bounds of the volatile memory window.
    OutOfBounds { addr: usize },
    /// Taking a window at `base` with `offset` would overflow `usize`.
    Overflow { base: usize, offset: usize },
    /// Taking a window whose byte size overflows `usize`.
    TooBig { nelements: usize, size: usize },
    /// Trying to obtain a misaligned view.
    Misaligned { addr: usize, alignment: usize },
    /// An external reader or writer failed.
    IOFailure(std::io::Error),
    /// An all-or-nothing transfer moved fewer bytes than requested.
    PartialTransfer { expected: usize, completed: usize },
}

#[verifier::external_type_specification]
#[verifier::external_body]
pub struct ExIoError(std::io::Error);

impl Error {
    /// The text of the error, except for `IOFailure`, whose text is the
    /// wrapped error's own and is left unspecified.
    pub open spec fn message_spec(self) -> Seq<char> {
        match self {
            Error::OutOfBounds { addr } => "address 0x"@ + crate::text::hex_chars(
                addr as nat,
            ) + " is out of bounds"@,
            Error::Overflow { base, offset } => "address 0x"@ + crate::text::hex_chars(
                base as nat,
            ) + " offset by 0x"@ + crate::text::hex_chars(offset as nat) + " would overflow"@,
            Error::TooBig { nelements, size } => crate::text::dec_chars(
                nelements as nat,
            ) + " elements of size "@ + crate::text::dec_chars(size as nat)
                + " would overflow a usize"@,
            Error::Misaligned { addr, alignment } => "address 0x"@ + crate::text::hex_chars(
                addr as nat,
            ) + " is not aligned to "@ + crate::text::dec_chars(alignment as nat),
            Error::IOFailure(_) => arbitrary(),
            Error::PartialTransfer { expected, completed } => "only used "@
                + crate::text::dec_chars(completed as nat) + " bytes in "@ + crate::text::dec_chars(
                expected as nat,
            ) + " long buffer"@,
        }
    }

    /// Renders the error as text, matching `message_spec` on every variant
    /// but `IOFailure`, which carries an opaque outside error.
    pub fn message(&self) -> (r: String)
        ensures
            !(self is IOFailure) ==> r@ == self.message_spec(),
    {
        match self {
            Error::OutOfBounds { addr } => String::from_str("address 0x").concat(
                crate::text::hex_string(*addr).as_str(),
            ).concat(" is out of bounds"),
            Error::Overflow { base, offset } => String::from_str("address 0x").concat(
                crate::text::hex_string(*base).as_str(),
            ).concat(" offset by 0x").concat(crate::text::hex_string(*offset).as_str()).concat(
                " would overflow",
            ),
            Error::TooBig { nelements, size } => crate::text::dec_string(*nelements).concat(
                " elements of size ",
            ).concat(crate::text::dec_string(*size).as_str()).concat(" would overflow a usize"),
            Error::Misaligned { addr, alignment } => String::from_str("address 0x").concat(
                crate::text::hex_string(*addr).as_str(),
            ).concat(" is not aligned to ").concat(crate::text::dec_string(*alignment).as_str()),
            Error::IOFailure(e) => io_error_text(e),
            Error::PartialTransfer { expected, completed } => String::from_str("only used ").concat(
                crate::text::dec_string(*completed).as_str(),
            ).concat(" bytes in ").concat(crate::text::dec_string(*expected).as_str()).concat(
                " long buffer",
            ),
        }
    }
}

/// Relies on the `Display` rendering of `std::io::Error`; nothing is promised
/// of the text.
#[verifier::external_body]
fn io_error_text(e: &std::io::Error) -> String {
    format!("{}", e)
}

/// Computes `base + offset`, or reports `Overflow` when the sum exceeds
/// `usize::MAX`.
pub fn compute_offset(base: usize, offset: usize) -> (r: Result<usize, Error>)
    ensures
        base + offset <= usize::MAX ==> r == Ok::<usize, Error>((base + offset) as usize),
        base + offset > usize::MAX ==> r == Err::<usize, Error>(Error::Overflow { base, offset }),
{
    match base.checked_add(offset) {
        None => Err(Error::Overflow { base, offset }),
        Some(m) => Ok(m),
    }
}

/// `s` with `data` laid over it starting at `at`; bytes outside the run keep
/// their old value, and the length never changes.
pub open spec fn update_range(s: Seq<u8>, at: int, data: Seq<u8>) -> Seq<u8> {
    Seq::new(
        s.len(),
        |i: int|
            if at <= i < at + data.len() {
                data[i - at]
            } else {
                s[i]
            },
    )
}

/// Whether `a` is a power of two.
pub open spec fn is_pow2(a: usize) -> bool
    decreases a,
{
    if a == 1 {
        true
    } else {
        a > 1 && a % 2 == 0 && is_pow2(a / 2)
    }
}

/// A caller-owned memory region: the bytes that other parties may observe or
/// mutate, together with the dirty tracker recording the core's own writes.
///
/// The region stands for externally owned memory; views name windows into it
/// and every access takes the region explicitly.
pub struct MemoryRegion<B: Bitmap = ()> {
    bytes: Vec<u8>,
    bitmap: B,
}

impl<B: Bitmap> MemoryRegion<B> {
    /// A well-formed region: the tracker can record a mark against any byte
    /// of the region.
    pub open spec fn wf(&self) -> bool {
        self.spec_bitmap().capacity() >= self.spec_len()
    }

    /// The bytes of the region.
    pub closed spec fn spec_bytes(&self) -> Seq<u8> {
        self.bytes@
    }

    /// The length of the region in bytes.
    pub open spec fn spec_len(&self) -> nat {
        self.spec_bytes().len()
    }

    /// The tracker owned by the region.
    pub closed spec fn spec_bitmap(&self) -> B {
        self.bitmap
    }

    /// The set of absolute offsets the tracker records as mutated.
    pub open spec fn spec_dirty(&self) -> Set<int> {
        self.spec_bitmap().dirty()
    }

    /// Builds a region over `bytes` with the dirty tracker `bitmap`.
    pub fn with_bitmap(bytes: Vec<u8>, bitmap: B) -> (r: MemoryRegion<B>)
        requires
            bitmap.capacity() >= bytes@.len(),
        ensures
            r.spec_bytes() == bytes@,
            r.spec_bitmap() == bitmap,
            r.wf(),
    {
        MemoryRegion { bytes, bitmap }
    }

    /// The length of the region in bytes.
    pub fn len(&self) -> (r: usize)
        ensures
            r == self.spec_len(),
    {
        self.bytes.len()
    }

    /// Whether the region holds no bytes.
    pub fn is_empty(&self) -> (r: bool)
        ensures
            r == (self.spec_len() == 0),
    {
        self.bytes.len() == 0
    }

    /// Borrows the region's bytes.
    pub fn bytes(&self) -> (r: &Vec<u8>)
        ensures
            r@ == self.spec_bytes(),
    {
        &self.bytes
    }

    /// Borrows the region's dirty tracker.
    pub fn bitmap(&self) -> (r: &B)
        ensures
            *r == self.spec_bitmap(),
    {
        &self.bitmap
    }
}

impl MemoryRegion<()> {
    /// A zero-filled, untracked region of `len` bytes.
    pub fn new(len: usize) -> (r: MemoryRegion<()>)
        ensures
            r.spec_bytes() == Seq::new(len as nat, |i: int| 0u8),
            r.wf(),
    {
        let r = MemoryRegion { bytes: vec![0u8; len], bitmap: () };
        proof {
            assert(r.spec_bytes() =~= Seq::new(len as nat, |i: int| 0u8));
        }
        r
    }

    /// An untracked region over the given bytes.
    pub fn from_vec(bytes: Vec<u8>) -> (r: MemoryRegion<()>)
        ensures
            r.spec_bytes() == bytes@,
            r.wf(),
    {
        let _n = bytes.len();
        MemoryRegion { bytes, bitmap: () }
    }
}

impl<B: Bitmap> MemoryRegion<B> {
    /// Copies `src[src_from .. src_from + total]` into the region at `at`.
    fn copy_in(&mut self, at: usize, src: &[u8], src_from: usize, total: usize)
        requires
            at + total <= old(self).spec_len(),
            src_from + total <= src@.len(),
        ensures
            final(self).spec_bytes() == update_range(
                old(self).spec_bytes(),
                at as int,
                src@.subrange(src_from as int, src_from + total),
            ),
            final(self).spec_bitmap() == old(self).spec_bitmap(),
    {
        crate::copy_slice_impl::copy_slice(self.bytes.as_mut_slice(), at, src, src_from, total);
    }

    /// Copies the region's bytes `[at, at + total)` into
    /// `dst[dst_from .. dst_from + total]`.
    fn copy_out(&self, at: usize, dst: &mut [u8], dst_from: usize, total: usize)
        requires
            at + total <= self.spec_len(),
            dst_from + total <= old(dst)@.len(),
        ensures
            final(dst)@ == update_range(
                old(dst)@,
                dst_from as int,
                self.spec_bytes().subrange(at as int, at + total),
            ),
    {
        crate::copy_slice_impl::copy_slice(dst, dst_from, self.bytes.as_slice(), at, total);
    }

}

/// Copies `total` bytes from `src` at `src_at` to `dst` at `dst_at`; the two
/// regions are distinct values, so the ranges cannot overlap.
fn copy_between<B1: Bitmap, B2: Bitmap>(
    src: &MemoryRegion<B1>,
    src_at: usize,
    dst: &mut MemoryRegion<B2>,
    dst_at: usize,
    total: usize,
)
    requires
        src_at + total <= src.spec_len(),
        dst_at + total <= old(dst).spec_len(),
    ensures
        final(dst).spec_bytes() == update_range(
            old(dst).spec_bytes(),
            dst_at as int,
            src.spec_bytes().subrange(src_at as int, src_at + total),
        ),
        final(dst).spec_bitmap() == old(dst).spec_bitmap(),
{
    crate::copy_slice_impl::copy_slice(
        dst.bytes.as_mut_slice(),
        dst_at,
        src.bytes.as_slice(),
        src_at,
        total,
    );
}

/// A window of `size` bytes at address `addr` of a region, supporting
/// bounds-checked access and subdivision.  Views are cheap value types; many
/// views may name overlapping windows of the same region.
#[derive(Clone, Copy, Debug)]
pub struct VolatileSlice {
    addr: usize,
    size: usize,
    bitmap: BitmapSlice,
}

impl VolatileSlice {
    /// The window never reaches past the address space, and neither does its
    /// dirty handle.
    #[verifier::type_invariant]
    pub closed spec fn slice_inv(self) -> bool {
        self.spec_addr() + self.spec_len() <= usize::MAX && self.spec_bitmap().spec_base()
            + self.spec_len() <= usize::MAX
    }

    /// The base address of the window.
    pub closed spec fn spec_addr(&self) -> usize {
        self.addr
    }

    /// The length of the window in bytes.
    pub closed spec fn spec_len(&self) -> usize {
        self.size
    }

    /// The dirty-tracking handle of the window.
    pub closed spec fn spec_bitmap(&self) -> BitmapSlice {
        self.bitmap
    }

    /// Whether the window (and its dirty handle) lies inside `region`.
    pub open spec fn valid_for<B: Bitmap>(&self, region: &MemoryRegion<B>) -> bool {
        self.spec_addr() + self.spec_len() <= region.spec_len() && self.spec_bitmap().spec_base()
            + self.spec_len() <= region.spec_bitmap().capacity()
    }

    /// The bytes of `region` this window names.
    pub open spec fn view_of<B: Bitmap>(&self, region: &MemoryRegion<B>) -> Seq<u8> {
        region.spec_bytes().subrange(
            self.spec_addr() as int,
            self.spec_addr() + self.spec_len(),
        )
    }

    /// A window of `size` bytes at `addr`, with its dirty handle landing at
    /// `addr` as well.
    pub fn new(addr: usize, size: usize) -> (r: VolatileSlice)
        requires
            addr + size <= usize::MAX,
        ensures
            r.spec_addr() == addr,
            r.spec_len() == size,
            r.spec_bitmap().spec_base() == addr,
    {
        VolatileSlice { addr, size, bitmap: BitmapSlice::new(addr) }
    }

    /// A window of `size` bytes at `addr` whose marks land through `bitmap`.
    pub fn with_bitmap(addr: usize, size: usize, bitmap: BitmapSlice) -> (r: VolatileSlice)
        requires
            addr + size <= usize::MAX,
            bitmap.spec_base() + size <= usize::MAX,
        ensures
            r.spec_addr() == addr,
            r.spec_len() == size,
            r.spec_bitmap() == bitmap,
    {
        VolatileSlice { addr, size, bitmap }
    }

    /// The base address of the window.
    pub fn as_ptr(&self) -> (r: usize)
        ensures
            r == self.spec_addr(),
    {
        self.addr
    }

    /// The length of the window in bytes.
    pub fn len(&self) -> (r: usize)
        ensures
            r == self.spec_len(),
    {
        self.size
    }

    /// Whether the window is empty.
    pub fn is_empty(&self) -> (r: bool)
        ensures
            r == (self.spec_len() == 0),
    {
        self.size == 0
    }

    /// Borrows the dirty-tracking handle.
    pub fn bitmap(&self) -> (r: &BitmapSlice)
        ensures
            *r == self.spec_bitmap(),
    {
        &self.bitmap
    }

    /// The sum of `base` and `offset` when the resulting address lies within
    /// the window; `Overflow` or `OutOfBounds` otherwise.
    pub fn compute_end_offset(&self, base: usize, offset: usize) -> (r: Result<usize, Error>)
        ensures
            base + offset <= self.spec_len() ==> r == Ok::<usize, Error>((base + offset) as usize),
            base + offset > usize::MAX ==> r == Err::<usize, Error>(
                Error::Overflow { base, offset },
            ),
            self.spec_len() < base + offset <= usize::MAX ==> r == Err::<usize, Error>(
                Error::OutOfBounds { addr: (base + offset) as usize },
            ),
    {
        let mem_end = compute_offset(base, offset)?;
        if mem_end > self.len() {
            return Err(Error::OutOfBounds { addr: mem_end });
        }
        Ok(mem_end)
    }

    /// A sub-window of `count` bytes starting `offset` bytes into this one,
    /// sharing the underlying bytes; fails `Overflow` or `OutOfBounds`
    /// exactly when `offset + count` reaches past the window.
    pub fn get_slice(&self, offset: usize, count: usize) -> (r: Result<VolatileSlice, Error>)
        ensures
            offset + count <= self.spec_len() ==> (r matches Ok(s) && s.spec_addr()
                == self.spec_addr() + offset && s.spec_len() == count && s.spec_bitmap().spec_base()
                == self.spec_bitmap().spec_base() + offset),
            offset + count > usize::MAX ==> r == Err::<VolatileSlice, Error>(
                Error::Overflow { base: offset, offset: count },
            ),
            self.spec_len() < offset + count <= usize::MAX ==> r == Err::<VolatileSlice, Error>(
                Error::OutOfBounds { addr: (offset + count) as usize },
            ),
    {
        proof {
            use_type_invariant(self);
        }
        let _ = self.compute_end_offset(offset, count)?;
        Ok(
            VolatileSlice {
                addr: self.addr + offset,
                size: count,
                bitmap: self.bitmap.slice_at(offset),
            },
        )
    }

    /// Same as [`VolatileSlice::get_slice`].
    pub fn subslice(&self, offset: usize, count: usize) -> (r: Result<VolatileSlice, Error>)
        ensures
            offset + count <= self.spec_len() ==> (r matches Ok(s) && s.spec_addr()
                == self.spec_addr() + offset && s.spec_len() == count && s.spec_bitmap().spec_base()
                == self.spec_bitmap().spec_base() + offset),
            offset + count > usize::MAX ==> r == Err::<VolatileSlice, Error>(
                Error::Overflow { base: offset, offset: count },
            ),
            self.spec_len() < offset + count <= usize::MAX ==> r == Err::<VolatileSlice, Error>(
                Error::OutOfBounds { addr: (offset + count) as usize },
            ),
    {
        self.get_slice(offset, count)
    }

    /// The window shrunk from the front by `count` bytes; fails `Overflow` or
    /// `OutOfBounds` exactly when `count` exceeds the length.
    pub fn offset(&self, count: usize) -> (r: Result<VolatileSlice, Error>)
        ensures
            count <= self.spec_len() ==> (r matches Ok(s) && s.spec_addr() == self.spec_addr()
                + count && s.spec_len() == self.spec_len() - count && s.spec_bitmap().spec_base()
                == self.spec_bitmap().spec_base() + count),
            self.spec_addr() + count > usize::MAX ==> r == Err::<VolatileSlice, Error>(
                Error::Overflow { base: self.spec_addr(), offset: count },
            ),
            self.spec_len() < count && self.spec_addr() + count <= usize::MAX ==> r == Err::<
                VolatileSlice,
                Error,
            >(Error::OutOfBounds { addr: (self.spec_addr() + count) as usize }),
    {
        proof {
            use_type_invariant(self);
        }
        let new_addr = match self.addr.checked_add(count) {
            Some(a) => a,
            None => {
                return Err(Error::Overflow { base: self.addr, offset: count });
            },
        };
        if count > self.size {
            return Err(Error::OutOfBounds { addr: new_addr });
        }
        Ok(
            VolatileSlice {
                addr: new_addr,
                size: self.size - count,
                bitmap: self.bitmap.slice_at(count),
            },
        )
    }

    /// Divides the window in two at `mid`: the first `mid` bytes and the
    /// rest; fails exactly when `mid` exceeds the length.
    pub fn split_at(&self, mid: usize) -> (r: Result<(VolatileSlice, VolatileSlice), Error>)
        ensures
            mid <= self.spec_len() ==> (r matches Ok(p) && p.0.spec_addr() == self.spec_addr()
                && p.0.spec_len() == mid && p.0.spec_bitmap() == self.spec_bitmap()
                && p.1.spec_addr() == self.spec_addr() + mid && p.1.spec_len() == self.spec_len()
                - mid && p.1.spec_bitmap().spec_base() == self.spec_bitmap().spec_base() + mid),
            self.spec_addr() + mid > usize::MAX ==> r == Err::<(VolatileSlice, VolatileSlice), Error>(
                Error::Overflow { base: self.spec_addr(), offset: mid },
            ),
            self.spec_len() < mid && self.spec_addr() + mid <= usize::MAX ==> r == Err::<
                (VolatileSlice, VolatileSlice),
                Error,
            >(Error::OutOfBounds { addr: (self.spec_addr() + mid) as usize }),
    {
        proof {
            use_type_invariant(self);
        }
        let end = self.offset(mid)?;
        let start = VolatileSlice { addr: self.addr, size: mid, bitmap: self.bitmap };
        Ok((start, end))
    }

    /// Writes bytes of `buf` into the window at `addr`: exactly
    /// `min(buf.len(), len - addr)` bytes move, the moved range is marked
    /// dirty, and the count is returned.  An empty buffer succeeds with 0 at
    /// any address; a non-empty buffer at `addr >= len` is `OutOfBounds`.
    pub fn write<B: Bitmap>(
        &self,
        region: &mut MemoryRegion<B>,
        buf: &[u8],
        addr: usize,
    ) -> (r: Result<usize, Error>)
        requires
            self.valid_for(&*old(region)),
        ensures
            final(region).spec_len() == old(region).spec_len(),
            final(region).spec_bitmap().capacity() == old(region).spec_bitmap().capacity(),
            buf@.len() == 0 ==> r == Ok::<usize, Error>(0) && *final(region) == *old(region),
            buf@.len() > 0 && addr >= self.spec_len() ==> r == Err::<usize, Error>(
                Error::OutOfBounds { addr },
            ) && *final(region) == *old(region),
            buf@.len() > 0 && addr < self.spec_len() ==> ({
                let total = if buf@.len() <= self.spec_len() - addr {
                    buf@.len() as int
                } else {
                    self.spec_len() - addr
                };
                r == Ok::<usize, Error>(total as usize) && final(region).spec_bytes()
                    == update_range(
                    old(region).spec_bytes(),
                    self.spec_addr() + addr,
                    buf@.subrange(0, total),
                ) && (B::tracks() ==> final(region).spec_dirty() == old(region).spec_dirty()
                    + range_set(self.spec_bitmap().spec_base() + addr, total)) && (!B::tracks()
                    ==> final(region).spec_bitmap() == old(region).spec_bitmap())
            }),
    {
        proof {
            use_type_invariant(self);
        }
        if buf.len() == 0 {
            return Ok(0);
        }
        if addr >= self.size {
            return Err(Error::OutOfBounds { addr });
        }
        let avail = self.size - addr;
        let total = if buf.len() < avail {
            buf.len()
        } else {
            avail
        };
        region.copy_in(self.addr + addr, buf, 0, total);
        self.bitmap.mark_dirty(&mut region.bitmap, addr, total);
        Ok(total)
    }

    /// Reads bytes of the window at `addr` into `buf`: exactly
    /// `min(buf.len(), len - addr)` bytes move and the count is returned;
    /// the tail of `buf` past the moved bytes keeps its old contents.  An
    /// empty buffer succeeds with 0 at any address; a non-empty buffer at
    /// `addr >= len` is `OutOfBounds`.
    pub fn read<B: Bitmap>(
        &self,
        region: &MemoryRegion<B>,
        buf: &mut [u8],
        addr: usize,
    ) -> (r: Result<usize, Error>)
        requires
            self.valid_for(region),
        ensures
            final(buf)@.len() == old(buf)@.len(),
            old(buf)@.len() == 0 ==> r == Ok::<usize, Error>(0) && final(buf)@ == old(buf)@,
            old(buf)@.len() > 0 && addr >= self.spec_len() ==> r == Err::<usize, Error>(
                Error::OutOfBounds { addr },
            ) && final(buf)@ == old(buf)@,
            old(buf)@.len() > 0 && addr < self.spec_len() ==> ({
                let total = if old(buf)@.len() <= self.spec_len() - addr {
                    old(buf)@.len() as int
                } else {
                    self.spec_len() - addr
                };
                r == Ok::<usize, Error>(total as usize) && final(buf)@ == update_range(
                    old(buf)@,
                    0,
                    region.spec_bytes().subrange(
                        self.spec_addr() + addr,
                        self.spec_addr() + addr + total,
                    ),
                )
            }),
    {
        proof {
            use_type_invariant(self);
        }
        if buf.len() == 0 {
            return Ok(0);
        }
        if addr >= self.size {
            return Err(Error::OutOfBounds { addr });
        }
        let avail = self.size - addr;
        let total = if buf.len() < avail {
            buf.len()
        } else {
            avail
        };
        region.copy_out(self.addr + addr, buf, 0, total);
        Ok(total)
    }

    /// Writes the whole of `buf` at `addr`, or fails: `PartialTransfer`
    /// reports a shortened move (the prefix bytes are still written and
    /// marked, as with [`VolatileSlice::write`]).
    pub fn write_slice<B: Bitmap>(
        &self,
        region: &mut MemoryRegion<B>,
        buf: &[u8],
        addr: usize,
    ) -> (r: Result<(), Error>)
        requires
            self.valid_for(&*old(region)),
        ensures
            final(region).spec_len() == old(region).spec_len(),
            final(region).spec_bitmap().capacity() == old(region).spec_bitmap().capacity(),
            addr + buf@.len() <= self.spec_len() ==> r == Ok::<(), Error>(())
                && final(region).spec_bytes() == update_range(
                old(region).spec_bytes(),
                self.spec_addr() + addr,
                buf@,
            ) && (B::tracks() && buf@.len() > 0 ==> final(region).spec_dirty() == old(
                region,
            ).spec_dirty() + range_set(
                self.spec_bitmap().spec_base() + addr,
                buf@.len() as int,
            )),
            buf@.len() == 0 ==> r == Ok::<(), Error>(()) && *final(region) == *old(region),
            buf@.len() > 0 && addr >= self.spec_len() ==> r == Err::<(), Error>(
                Error::OutOfBounds { addr },
            ) && *final(region) == *old(region),
            addr < self.spec_len() && addr + buf@.len() > self.spec_len() ==> r == Err::<
                (),
                Error,
            >(
                Error::PartialTransfer {
                    expected: buf@.len() as usize,
                    completed: (self.spec_len() - addr) as usize,
                },
            ) && final(region).spec_bytes() == update_range(
                old(region).spec_bytes(),
                self.spec_addr() + addr,
                buf@.subrange(0, self.spec_len() - addr),
            ) && (B::tracks() ==> final(region).spec_dirty() == old(region).spec_dirty()
                + range_set(
                self.spec_bitmap().spec_base() + addr,
                self.spec_len() - addr,
            )),
    {
        let len = self.write(region, buf, addr)?;
        if len != buf.len() {
            return Err(Error::PartialTransfer { expected: buf.len(), completed: len });
        }
        proof {
            if buf@.len() == 0 {
                assert(final(region).spec_bytes() =~= update_range(
                    old(region).spec_bytes(),
                    self.spec_addr() + addr,
                    buf@,
                ));
            } else {
                assert(buf@.subrange(0, buf@.len() as int) =~= buf@);
            }
        }
        Ok(())
    }

    /// Reads exactly `buf.len()` bytes at `addr` into `buf`, or fails:
    /// `PartialTransfer` reports a shortened move (the prefix of `buf` still
    /// receives the moved bytes, as with [`VolatileSlice::read`]).
    pub fn read_slice<B: Bitmap>(
        &self,
        region: &MemoryRegion<B>,
        buf: &mut [u8],
        addr: usize,
    ) -> (r: Result<(), Error>)
        requires
            self.valid_for(region),
        ensures
            final(buf)@.len() == old(buf)@.len(),
            addr + old(buf)@.len() <= self.spec_len() ==> r == Ok::<(), Error>(()) && final(buf)@
                == update_range(
                old(buf)@,
                0,
                region.spec_bytes().subrange(
                    self.spec_addr() + addr,
                    self.spec_addr() + addr + old(buf)@.len(),
                ),
            ),
            old(buf)@.len() == 0 ==> r == Ok::<(), Error>(()) && final(buf)@ == old(buf)@,
            old(buf)@.len() > 0 && addr >= self.spec_len() ==> r == Err::<(), Error>(
                Error::OutOfBounds { addr },
            ) && final(buf)@ == old(buf)@,
            addr < self.spec_len() && addr + old(buf)@.len() > self.spec_len() ==> r == Err::<
                (),
                Error,
            >(
                Error::PartialTransfer {
                    expected: old(buf)@.len() as usize,
                    completed: (self.spec_len() - addr) as usize,
                },
            ) && final(buf)@ == update_range(
                old(buf)@,
                0,
                region.spec_bytes().subrange(
                    self.spec_addr() + addr,
                    self.spec_addr() + self.spec_len(),
                ),
            ),
    {
        let buf_len = buf.len();
        let len = self.read(region, buf, addr)?;
        if len != buf_len {
            return Err(Error::PartialTransfer { expected: buf_len, completed: len });
        }
        proof {
            if old(buf)@.len() == 0 {
                assert(final(buf)@ =~= update_range(
                    old(buf)@,
                    0,
                    region.spec_bytes().subrange(
                        self.spec_addr() + addr,
                        self.spec_addr() + addr + old(buf)@.len(),
                    ),
                ));
            }
        }
        Ok(())
    }

    /// Copies `min(self.len(), slice.len())` bytes from this window's region
    /// into `slice`'s region, marking the copied range dirty on the
    /// destination.  The two regions are distinct values, so the ranges
    /// cannot overlap.
    pub fn copy_to_volatile_slice<B1: Bitmap, B2: Bitmap>(
        &self,
        region: &MemoryRegion<B1>,
        slice: VolatileSlice,
        slice_region: &mut MemoryRegion<B2>,
    )
        requires
            self.valid_for(region),
            slice.valid_for(&*old(slice_region)),
        ensures
            final(slice_region).spec_len() == old(slice_region).spec_len(),
            final(slice_region).spec_bitmap().capacity() == old(
                slice_region,
            ).spec_bitmap().capacity(),
            ({
                let total = if self.spec_len() <= slice.spec_len() {
                    self.spec_len() as int
                } else {
                    slice.spec_len() as int
                };
                final(slice_region).spec_bytes() == update_range(
                    old(slice_region).spec_bytes(),
                    slice.spec_addr() as int,
                    region.spec_bytes().subrange(
                        self.spec_addr() as int,
                        self.spec_addr() + total,
                    ),
                ) && (B2::tracks() ==> final(slice_region).spec_dirty() == old(
                    slice_region,
                ).spec_dirty() + range_set(slice.spec_bitmap().spec_base() as int, total)) && (
                !B2::tracks() ==> final(slice_region).spec_bitmap() == old(
                    slice_region,
                ).spec_bitmap())
            }),
    {
        proof {
            use_type_invariant(self);
            use_type_invariant(&slice);
        }
        let total = if self.size < slice.size {
            self.size
        } else {
            slice.size
        };
        copy_between(region, self.addr, slice_region, slice.addr, total);
        slice.bitmap.mark_dirty(&mut slice_region.bitmap, 0, total);
    }

    /// Stores `val` at `addr` as an atomic-typed access: the address
    /// resolved for `T` must be naturally aligned (`Misaligned` otherwise),
    /// and the stored bytes are marked dirty.  `order` selects the
    /// inter-thread ordering of the access; the bytes stored do not depend
    /// on it.
    #[allow(unused_variables)]
    pub fn store<T: ByteValued, B: Bitmap>(
        &self,
        region: &mut MemoryRegion<B>,
        val: T,
        addr: usize,
        order: core::sync::atomic::Ordering,
    ) -> (r: Result<(), Error>)
        requires
            self.valid_for(&*old(region)),
        ensures
            final(region).spec_len() == old(region).spec_len(),
            final(region).spec_bitmap().capacity() == old(region).spec_bitmap().capacity(),
            addr + T::spec_size() <= self.spec_len() && (self.spec_addr() + addr) % (T::spec_size() as int)
                == 0 ==> r == Ok::<(), Error>(()) && final(region).spec_bytes() == update_range(
                old(region).spec_bytes(),
                self.spec_addr() + addr,
                val.to_bytes_spec(),
            ) && (B::tracks() ==> final(region).spec_dirty() == old(region).spec_dirty()
                + range_set(
                self.spec_bitmap().spec_base() + addr,
                T::spec_size() as int,
            )) && (!B::tracks() ==> final(region).spec_bitmap() == old(region).spec_bitmap()),
            addr + T::spec_size() > usize::MAX ==> r == Err::<(), Error>(
                Error::Overflow { base: addr, offset: T::spec_size() },
            ) && *final(region) == *old(region),
            self.spec_len() < addr + T::spec_size() <= usize::MAX ==> r == Err::<(), Error>(
                Error::OutOfBounds { addr: (addr + T::spec_size()) as usize },
            ) && *final(region) == *old(region),
            addr + T::spec_size() <= self.spec_len() && (self.spec_addr() + addr) % (T::spec_size() as int)
                != 0 ==> r == Err::<(), Error>(
                Error::Misaligned {
                    addr: (self.spec_addr() + addr) as usize,
                    alignment: T::spec_size(),
                },
            ) && *final(region) == *old(region),
    {
        proof {
            use_type_invariant(self);
            T::size_properties();
        }
        let size = T::value_size();
        let s = self.get_slice(addr, size)?;
        s.check_alignment(size)?;
        let b = val.to_bytes();
        proof {
            use_type_invariant(&s);
        }
        region.copy_in(s.as_ptr(), b.as_slice(), 0, size);
        s.bitmap.mark_dirty(&mut region.bitmap, 0, size);
        Ok(())
    }

    /// Loads a `T` from `addr` as an atomic-typed access: the address
    /// resolved for `T` must be naturally aligned (`Misaligned` otherwise).
    /// `order` selects the inter-thread ordering of the access; the value
    /// read does not depend on it.
    #[allow(unused_variables)]
    pub fn load<T: ByteValued, B: Bitmap>(
        &self,
        region: &MemoryRegion<B>,
        addr: usize,
        order: core::sync::atomic::Ordering,
    ) -> (r: Result<T, Error>)
        requires
            self.valid_for(region),
        ensures
            addr + T::spec_size() <= self.spec_len() && (self.spec_addr() + addr) % (T::spec_size() as int)
                == 0 ==> r == Ok::<T, Error>(
                T::from_bytes_spec(
                    region.spec_bytes().subrange(
                        self.spec_addr() + addr,
                        self.spec_addr() + addr + T::spec_size(),
                    ),
                ),
            ),
            addr + T::spec_size() > usize::MAX ==> r == Err::<T, Error>(
                Error::Overflow { base: addr, offset: T::spec_size() },
            ),
            self.spec_len() < addr + T::spec_size() <= usize::MAX ==> r == Err::<T, Error>(
                Error::OutOfBounds { addr: (addr + T::spec_size()) as usize },
            ),
            addr + T::spec_size() <= self.spec_len() && (self.spec_addr() + addr) % (T::spec_size() as int)
                != 0 ==> r == Err::<T, Error>(
                Error::Misaligned {
                    addr: (self.spec_addr() + addr) as usize,
                    alignment: T::spec_size(),
                },
            ),
    {
        proof {
            use_type_invariant(self);
            T::size_properties();
        }
        let size = T::value_size();
        let s = self.get_slice(addr, size)?;
        s.check_alignment(size)?;
        let sub = vstd::slice::slice_subrange(region.bytes.as_slice(), s.as_ptr(), s.as_ptr() + size);
        Ok(T::from_bytes(sub))
    }

    /// The window seen as an array of the whole values of `T` that fit in it.
    fn whole_elements<T: ByteValued>(&self) -> (r: VolatileArrayRef<T>)
        ensures
            r.spec_addr() == self.spec_addr(),
            r.spec_nelem() == self.spec_len() / T::spec_size(),
            r.spec_bitmap() == self.spec_bitmap(),
    {
        proof {
            use_type_invariant(self);
            T::size_properties();
            assert((self.spec_len() / T::spec_size()) * T::spec_size() <= self.spec_len())
                by (nonlinear_arith)
                requires
                    T::spec_size() > 0,
            ;
        }
        let count = self.size / T::value_size();
        VolatileArrayRef::with_bitmap(self.addr, count, self.bitmap)
    }

    /// Copies whole values of `T` out of the window into `buf`: the window
    /// holds `len() / size_of::<T>()` whole values, and the smaller of that
    /// count and `buf.len()` values move, lowest address first; the count of
    /// moved values is returned and the tail of `buf` keeps its old values.
    pub fn copy_to<T: ByteValued, B: Bitmap>(
        &self,
        region: &MemoryRegion<B>,
        buf: &mut Vec<T>,
    ) -> (r: usize)
        requires
            self.valid_for(region),
        ensures
            final(buf)@.len() == old(buf)@.len(),
            ({
                let count = if self.spec_len() / T::spec_size() <= old(buf)@.len() {
                    (self.spec_len() / T::spec_size()) as int
                } else {
                    old(buf)@.len() as int
                };
                r == count && (forall|i: int|
                    0 <= i < count ==> final(buf)@[i] == T::from_bytes_spec(
                        region.spec_bytes().subrange(
                            self.spec_addr() + i * T::spec_size(),
                            self.spec_addr() + (i + 1) * T::spec_size(),
                        ),
                    )) && (forall|i: int|
                    count <= i < old(buf)@.len() ==> final(buf)@[i] == old(buf)@[i])
            }),
    {
        let arr = self.whole_elements::<T>();
        proof {
            use_type_invariant(self);
            T::size_properties();
            assert((self.spec_len() / T::spec_size()) * T::spec_size() <= self.spec_len())
                by (nonlinear_arith)
                requires
                    T::spec_size() > 0,
            ;
        }
        let r = arr.copy_to(region, buf);
        proof {
            assert forall|i: int| 0 <= i < r implies buf@[i] == T::from_bytes_spec(
                region.spec_bytes().subrange(
                    self.spec_addr() + i * T::spec_size(),
                    self.spec_addr() + (i + 1) * T::spec_size(),
                ),
            ) by {
                assert(buf@[i] == arr.spec_element(region, i));
            }
        }
        r
    }

    /// Copies whole values of `T` from `buf` into the window: the smaller of
    /// `len() / size_of::<T>()` and `buf.len()` values move, lowest address
    /// first, and the written run is marked dirty.
    pub fn copy_from<T: ByteValued, B: Bitmap>(&self, region: &mut MemoryRegion<B>, buf: &[T])
        requires
            self.valid_for(&*old(region)),
        ensures
            final(region).spec_len() == old(region).spec_len(),
            final(region).spec_bitmap().capacity() == old(region).spec_bitmap().capacity(),
            ({
                let count = if self.spec_len() / T::spec_size() <= buf@.len() {
                    (self.spec_len() / T::spec_size()) as int
                } else {
                    buf@.len() as int
                };
                final(region).spec_bytes() == VolatileArrayRef::<T>::spec_written(
                    old(region).spec_bytes(),
                    self.spec_addr() as int,
                    buf@,
                    count,
                ) && (forall|k: int|
                    0 <= k < count ==> final(region).spec_bytes().subrange(
                        self.spec_addr() + k * T::spec_size(),
                        self.spec_addr() + (k + 1) * T::spec_size(),
                    ) == buf@[k].to_bytes_spec()) && (B::tracks() ==> final(region).spec_dirty()
                    == old(region).spec_dirty() + range_set(
                    self.spec_bitmap().spec_base() as int,
                    count * T::spec_size(),
                )) && (!B::tracks() ==> final(region).spec_bitmap() == old(region).spec_bitmap())
            }),
    {
        let arr = self.whole_elements::<T>();
        proof {
            use_type_invariant(self);
            T::size_properties();
            assert((self.spec_len() / T::spec_size()) * T::spec_size() <= self.spec_len())
                by (nonlinear_arith)
                requires
                    T::spec_size() > 0,
            ;
        }
        arr.copy_from(region, buf)
    }

    /// Succeeds exactly when the window's base address is `alignment`-aligned;
    /// `alignment` must be a power of two.
    pub fn check_alignment(&self, alignment: usize) -> (r: Result<(), Error>)
        requires
            is_pow2(alignment),
        ensures
            self.spec_addr() % alignment == 0 ==> r == Ok::<(), Error>(()),
            self.spec_addr() % alignment != 0 ==> r == Err::<(), Error>(
                Error::Misaligned { addr: self.spec_addr(), alignment },
            ),
    {
        if self.addr % alignment != 0 {
            return Err(Error::Misaligned { addr: self.addr, alignment });
        }
        Ok(())
    }
}

/// Law: a power of two is positive.
pub proof fn lemma_pow2_pos(a: usize)
    requires
        is_pow2(a),
    ensures
        a >= 1,
{
}

/// The capability a region provider exposes: a length and a bounds-checked
/// window factory, with the typed and whole-range views derived from those.
pub trait VolatileMemory {
    /// The length of the provider's addressable range.
    spec fn spec_mem_len(&self) -> nat;

    /// The absolute address of the range's first byte.
    spec fn spec_base(&self) -> usize;

    /// The absolute offset at which the range's dirty marks land.
    spec fn spec_handle(&self) -> usize;

    /// What the provider guarantees of itself before handing out windows.
    spec fn provider_wf(&self) -> bool;

    /// The range fits the address space.
    proof fn mem_len_bound(&self)
        requires
            self.provider_wf(),
        ensures
            self.spec_mem_len() <= usize::MAX,
    ;

    /// The length of the addressable range in bytes.
    fn len(&self) -> (r: usize)
        requires
            self.provider_wf(),
        ensures
            r == self.spec_mem_len(),
    ;

    /// A window of `count` bytes starting at `offset`; fails `Overflow` or
    /// `OutOfBounds` exactly when `offset + count` reaches past the range.
    fn get_slice(&self, offset: usize, count: usize) -> (r: Result<VolatileSlice, Error>)
        requires
            self.provider_wf(),
        ensures
            offset + count <= self.spec_mem_len() ==> (r matches Ok(s) && s.spec_addr()
                == self.spec_base() + offset && s.spec_len() == count && s.spec_bitmap().spec_base()
                == self.spec_handle() + offset),
            offset + count > usize::MAX ==> r == Err::<VolatileSlice, Error>(
                Error::Overflow { base: offset, offset: count },
            ),
            self.spec_mem_len() < offset + count <= usize::MAX ==> r == Err::<VolatileSlice, Error>(
                Error::OutOfBounds { addr: (offset + count) as usize },
            ),
    ;

    /// Whether the range is empty.
    fn is_empty(&self) -> (r: bool)
        requires
            self.provider_wf(),
        ensures
            r == (self.spec_mem_len() == 0),
    {
        self.len() == 0
    }

    /// The window covering the whole range.
    fn as_volatile_slice(&self) -> (r: VolatileSlice)
        requires
            self.provider_wf(),
        ensures
            r.spec_addr() == self.spec_base(),
            r.spec_len() == self.spec_mem_len(),
            r.spec_bitmap().spec_base() == self.spec_handle(),
    {
        proof {
            self.mem_len_bound();
        }
        let n = self.len();
        match self.get_slice(0, n) {
            Ok(s) => s,
            Err(_) => {
                proof {
                    assert(false);
                }
                VolatileSlice::new(0, 0)
            },
        }
    }

    /// The sum of `base` and `offset` when the resulting address lies within
    /// the range; `Overflow` or `OutOfBounds` otherwise.
    fn compute_end_offset(&self, base: usize, offset: usize) -> (r: Result<usize, Error>)
        requires
            self.provider_wf(),
        ensures
            base + offset <= self.spec_mem_len() ==> r == Ok::<usize, Error>(
                (base + offset) as usize,
            ),
            base + offset > usize::MAX ==> r == Err::<usize, Error>(
                Error::Overflow { base, offset },
            ),
            self.spec_mem_len() < base + offset <= usize::MAX ==> r == Err::<usize, Error>(
                Error::OutOfBounds { addr: (base + offset) as usize },
            ),
    {
        proof {
            self.mem_len_bound();
        }
        let mem_end = compute_offset(base, offset)?;
        if mem_end > self.len() {
            return Err(Error::OutOfBounds { addr: mem_end });
        }
        Ok(mem_end)
    }

    /// A view of one `T` at `offset`; fails `Overflow` or `OutOfBounds`
    /// exactly when the `T` would reach past the range.
    fn get_ref<T: ByteValued>(&self, offset: usize) -> (r: Result<VolatileRef<T>, Error>)
        requires
            self.provider_wf(),
        ensures
            offset + T::spec_size() <= self.spec_mem_len() ==> (r matches Ok(v) && v.spec_addr()
                == self.spec_base() + offset && v.spec_bitmap().spec_base() == self.spec_handle()
                + offset),
            offset + T::spec_size() > usize::MAX ==> r == Err::<VolatileRef<T>, Error>(
                Error::Overflow { base: offset, offset: T::spec_size() },
            ),
            self.spec_mem_len() < offset + T::spec_size() <= usize::MAX ==> r == Err::<
                VolatileRef<T>,
                Error,
            >(Error::OutOfBounds { addr: (offset + T::spec_size()) as usize }),
    {
        proof {
            self.mem_len_bound();
        }
        let slice = self.get_slice(offset, T::value_size())?;
        proof {
            use_type_invariant(&slice);
        }
        Ok(VolatileRef::with_bitmap(slice.as_ptr(), *slice.bitmap()))
    }

    /// A view of `n` values of `T` at `offset`: the byte count is computed
    /// with checked multiplication and must stay within the signed
    /// address-offset range, `TooBig` otherwise; then bounds-checked like
    /// [`VolatileMemory::get_slice`].
    fn get_array_ref<T: ByteValued>(&self, offset: usize, n: usize) -> (r: Result<
        VolatileArrayRef<T>,
        Error,
    >)
        requires
            self.provider_wf(),
        ensures
            n * T::spec_size() <= isize::MAX && offset + n * T::spec_size()
                <= self.spec_mem_len() ==> (r matches Ok(a) && a.spec_addr() == self.spec_base()
                + offset && a.spec_nelem() == n && a.spec_bitmap().spec_base() == self.spec_handle()
                + offset),
            n * T::spec_size() > isize::MAX ==> r == Err::<VolatileArrayRef<T>, Error>(
                Error::TooBig { nelements: n, size: T::spec_size() },
            ),
            n * T::spec_size() <= isize::MAX && offset + n * T::spec_size() > usize::MAX ==> r
                == Err::<VolatileArrayRef<T>, Error>(
                Error::Overflow { base: offset, offset: (n * T::spec_size()) as usize },
            ),
            n * T::spec_size() <= isize::MAX && self.spec_mem_len() < offset + n * T::spec_size()
                <= usize::MAX ==> r == Err::<VolatileArrayRef<T>, Error>(
                Error::OutOfBounds { addr: (offset + n * T::spec_size()) as usize },
            ),
    {
        proof {
            self.mem_len_bound();
        }
        let size = T::value_size();
        let nbytes = match n.checked_mul(size) {
            None => {
                proof {
                    vstd::arithmetic::mul::lemma_mul_nonnegative(n as int, size as int);
                }
                return Err(Error::TooBig { nelements: n, size });
            },
            Some(x) => x,
        };
        if nbytes > (isize::MAX as usize) {
            return Err(Error::TooBig { nelements: n, size });
        }
        let slice = self.get_slice(offset, nbytes)?;
        proof {
            use_type_invariant(&slice);
        }
        Ok(VolatileArrayRef::with_bitmap(slice.as_ptr(), n, *slice.bitmap()))
    }

    /// A view of one `T` at `offset` for atomic-typed access: as
    /// [`VolatileMemory::get_ref`], and additionally the resolved address
    /// must be naturally aligned, `Misaligned` otherwise.
    fn get_atomic_ref<T: ByteValued>(&self, offset: usize) -> (r: Result<VolatileRef<T>, Error>)
        requires
            self.provider_wf(),
        ensures
            offset + T::spec_size() <= self.spec_mem_len() && (self.spec_base() + offset) % (
            T::spec_size() as int) == 0 ==> (r matches Ok(v) && v.spec_addr() == self.spec_base()
                + offset && v.spec_bitmap().spec_base() == self.spec_handle() + offset),
            offset + T::spec_size() > usize::MAX ==> r == Err::<VolatileRef<T>, Error>(
                Error::Overflow { base: offset, offset: T::spec_size() },
            ),
            self.spec_mem_len() < offset + T::spec_size() <= usize::MAX ==> r == Err::<
                VolatileRef<T>,
                Error,
            >(Error::OutOfBounds { addr: (offset + T::spec_size()) as usize }),
            offset + T::spec_size() <= self.spec_mem_len() && (self.spec_base() + offset) % (
            T::spec_size() as int) != 0 ==> r == Err::<VolatileRef<T>, Error>(
                Error::Misaligned {
                    addr: (self.spec_base() + offset) as usize,
                    alignment: T::spec_size(),
                },
            ),
    {
        proof {
            self.mem_len_bound();
        }
        let slice = self.get_slice(offset, T::value_size())?;
        proof {
            T::size_properties();
        }
        slice.check_alignment(T::value_size())?;
        proof {
            use_type_invariant(&slice);
        }
        Ok(VolatileRef::with_bitmap(slice.as_ptr(), *slice.bitmap()))
    }
}

impl VolatileMemory for VolatileSlice {
    open spec fn spec_mem_len(&self) -> nat {
        self.spec_len() as nat
    }

    open spec fn spec_base(&self) -> usize {
        self.spec_addr()
    }

    open spec fn spec_handle(&self) -> usize {
        self.spec_bitmap().spec_base()
    }

    open spec fn provider_wf(&self) -> bool {
        self.slice_inv()
    }

    proof fn mem_len_bound(&self) {
    }

    fn len(&self) -> usize {
        VolatileSlice::len(self)
    }

    fn get_slice(&self, offset: usize, count: usize) -> Result<VolatileSlice, Error> {
        VolatileSlice::get_slice(self, offset, count)
    }
}

impl<B: Bitmap> VolatileMemory for MemoryRegion<B> {
    open spec fn spec_mem_len(&self) -> nat {
        self.spec_len()
    }

    open spec fn spec_base(&self) -> usize {
        0
    }

    open spec fn spec_handle(&self) -> usize {
        0
    }

    open spec fn provider_wf(&self) -> bool {
        self.wf()
    }

    proof fn mem_len_bound(&self) {
        vstd::std_specs::vec::axiom_spec_len(&self.bytes);
    }

    fn len(&self) -> usize {
        MemoryRegion::len(self)
    }

    fn get_slice(&self, offset: usize, count: usize) -> Result<VolatileSlice, Error> {
        proof {
            self.mem_len_bound();
        }
        let end = compute_offset(offset, count)?;
        if end > MemoryRegion::len(self) {
            return Err(Error::OutOfBounds { addr: end });
        }
        Ok(VolatileSlice::with_bitmap(offset, count, BitmapSlice::new(offset)))
    }
}

/// The largest power of two that `addr` is aligned to; the odd quotient
/// pins it as the largest.
pub fn alignment(addr: usize) -> (r: usize)
    requires
        addr > 0,
    ensures
        is_pow2(r),
        addr % r == 0,
        (addr / r) % 2 == 1,
{
    let mut r: usize = 1;
    let mut rest = addr;
    while rest % 2 == 0
        invariant
            1 <= r,
            1 <= rest,
            is_pow2(r),
            addr == rest * r,
        decreases rest,
    {
        proof {
            assert(rest == 2 * (rest / 2)) by (nonlinear_arith)
                requires
                    rest % 2 == 0,
                    rest >= 1,
            ;
            assert(2 * (rest / 2) * r == (rest / 2) * (2 * r)) by (nonlinear_arith);
            vstd::arithmetic::mul::lemma_mul_inequality(2, rest as int, r as int);
            assert((2 * r) / 2 == r);
        }
        rest = rest / 2;
        r = r * 2;
    }
    proof {
        vstd::arithmetic::div_mod::lemma_fundamental_div_mod_converse(
            addr as int,
            r as int,
            rest as int,
            0,
        );
    }
    r
}

/// A view of one instance of `T` at a fixed address of a region.
#[derive(Copy, Debug)]
pub struct VolatileRef<T: ByteValued> {
    addr: usize,
    bitmap: BitmapSlice,
    phantom: core::marker::PhantomData<T>,
}

impl<T: ByteValued> Clone for VolatileRef<T> {
    fn clone(&self) -> (r: Self)
        ensures
            r == *self,
    {
        *self
    }
}

impl<T: ByteValued> VolatileRef<T> {
    /// The referenced bytes never reach past the address space, and neither
    /// does the dirty handle.
    #[verifier::type_invariant]
    pub closed spec fn ref_inv(self) -> bool {
        self.spec_addr() + T::spec_size() <= usize::MAX && self.spec_bitmap().spec_base()
            + T::spec_size() <= usize::MAX
    }

    /// The address of the referenced value.
    pub closed spec fn spec_addr(&self) -> usize {
        self.addr
    }

    /// The dirty-tracking handle of the view.
    pub closed spec fn spec_bitmap(&self) -> BitmapSlice {
        self.bitmap
    }

    /// Whether the referenced bytes (and the dirty handle) lie inside
    /// `region`.
    pub open spec fn valid_for<B: Bitmap>(&self, region: &MemoryRegion<B>) -> bool {
        self.spec_addr() + T::spec_size() <= region.spec_len() && self.spec_bitmap().spec_base()
            + T::spec_size() <= region.spec_bitmap().capacity()
    }

    /// A view of the `T` at `addr`, with its dirty handle landing at `addr`.
    pub fn new(addr: usize) -> (r: VolatileRef<T>)
        requires
            addr + T::spec_size() <= usize::MAX,
        ensures
            r.spec_addr() == addr,
            r.spec_bitmap().spec_base() == addr,
    {
        VolatileRef { addr, bitmap: BitmapSlice::new(addr), phantom: core::marker::PhantomData }
    }

    /// A view of the `T` at `addr` whose marks land through `bitmap`.
    pub fn with_bitmap(addr: usize, bitmap: BitmapSlice) -> (r: VolatileRef<T>)
        requires
            addr + T::spec_size() <= usize::MAX,
            bitmap.spec_base() + T::spec_size() <= usize::MAX,
        ensures
            r.spec_addr() == addr,
            r.spec_bitmap() == bitmap,
    {
        VolatileRef { addr, bitmap, phantom: core::marker::PhantomData }
    }

    /// The address of the referenced value.
    pub fn as_ptr(&self) -> (r: usize)
        ensures
            r == self.spec_addr(),
    {
        self.addr
    }

    /// The size of the referenced type in bytes.
    pub fn len(&self) -> (r: usize)
        ensures
            r == T::spec_size(),
    {
        T::value_size()
    }

    /// Borrows the dirty-tracking handle.
    pub fn bitmap(&self) -> (r: &BitmapSlice)
        ensures
            *r == self.spec_bitmap(),
    {
        &self.bitmap
    }

    /// Stores `v` at the referenced address and marks its bytes dirty.
    pub fn store<B: Bitmap>(&self, region: &mut MemoryRegion<B>, v: T)
        requires
            self.valid_for(&*old(region)),
        ensures
            final(region).spec_len() == old(region).spec_len(),
            final(region).spec_bitmap().capacity() == old(region).spec_bitmap().capacity(),
            final(region).spec_bytes() == update_range(
                old(region).spec_bytes(),
                self.spec_addr() as int,
                v.to_bytes_spec(),
            ),
            B::tracks() ==> final(region).spec_dirty() == old(region).spec_dirty() + range_set(
                self.spec_bitmap().spec_base() as int,
                T::spec_size() as int,
            ),
            !B::tracks() ==> final(region).spec_bitmap() == old(region).spec_bitmap(),
    {
        proof {
            use_type_invariant(self);
        }
        let size = T::value_size();
        let b = v.to_bytes();
        region.copy_in(self.addr, b.as_slice(), 0, size);
        self.bitmap.mark_dirty(&mut region.bitmap, 0, size);
    }

    /// Loads the referenced value.
    pub fn load<B: Bitmap>(&self, region: &MemoryRegion<B>) -> (r: T)
        requires
            self.valid_for(region),
        ensures
            r == T::from_bytes_spec(
                region.spec_bytes().subrange(
                    self.spec_addr() as int,
                    self.spec_addr() + T::spec_size(),
                ),
            ),
    {
        proof {
            use_type_invariant(self);
        }
        let size = T::value_size();
        let sub = vstd::slice::slice_subrange(
            region.bytes.as_slice(),
            self.addr,
            self.addr + size,
        );
        T::from_bytes(sub)
    }

    /// The same bytes as an untyped window, sharing the dirty handle.
    pub fn to_slice(&self) -> (r: VolatileSlice)
        ensures
            r.spec_addr() == self.spec_addr(),
            r.spec_len() == T::spec_size(),
            r.spec_bitmap() == self.spec_bitmap(),
    {
        proof {
            use_type_invariant(self);
        }
        VolatileSlice::with_bitmap(self.addr, T::value_size(), self.bitmap)
    }
}

/// A view of a contiguous run of `nelem` values of type `T` at a fixed
/// address of a region.
#[derive(Copy, Debug)]
pub struct VolatileArrayRef<T: ByteValued> {
    addr: usize,
    nelem: usize,
    bitmap: BitmapSlice,
    phantom: core::marker::PhantomData<T>,
}

impl<T: ByteValued> Clone for VolatileArrayRef<T> {
    fn clone(&self) -> (r: Self)
        ensures
            r == *self,
    {
        *self
    }
}

impl<T: ByteValued> VolatileArrayRef<T> {
    /// The array's bytes never reach past the address space, and neither
    /// does the dirty handle.
    #[verifier::type_invariant]
    pub closed spec fn array_inv(self) -> bool {
        self.spec_addr() + self.spec_nelem() * T::spec_size() <= usize::MAX
            && self.spec_bitmap().spec_base() + self.spec_nelem() * T::spec_size() <= usize::MAX
    }

    /// The address of the first element.
    pub closed spec fn spec_addr(&self) -> usize {
        self.addr
    }

    /// The number of elements.
    pub closed spec fn spec_nelem(&self) -> usize {
        self.nelem
    }

    /// The dirty-tracking handle of the view.
    pub closed spec fn spec_bitmap(&self) -> BitmapSlice {
        self.bitmap
    }

    /// The number of bytes the array occupies.
    pub open spec fn spec_byte_len(&self) -> int {
        self.spec_nelem() * T::spec_size()
    }

    /// Whether the array's bytes (and the dirty handle) lie inside `region`.
    pub open spec fn valid_for<B: Bitmap>(&self, region: &MemoryRegion<B>) -> bool {
        self.spec_addr() + self.spec_byte_len() <= region.spec_len()
            && self.spec_bitmap().spec_base() + self.spec_byte_len()
            <= region.spec_bitmap().capacity()
    }

    /// The value element `i` of the array holds in `region`.
    pub open spec fn spec_element<B: Bitmap>(&self, region: &MemoryRegion<B>, i: int) -> T {
        T::from_bytes_spec(
            region.spec_bytes().subrange(
                self.spec_addr() + i * T::spec_size(),
                self.spec_addr() + (i + 1) * T::spec_size(),
            ),
        )
    }

    /// A view of `nelem` values of `T` at `addr`, with its dirty handle
    /// landing at `addr`.
    pub fn new(addr: usize, nelem: usize) -> (r: VolatileArrayRef<T>)
        requires
            addr + nelem * T::spec_size() <= usize::MAX,
        ensures
            r.spec_addr() == addr,
            r.spec_nelem() == nelem,
            r.spec_bitmap().spec_base() == addr,
    {
        VolatileArrayRef {
            addr,
            nelem,
            bitmap: BitmapSlice::new(addr),
            phantom: core::marker::PhantomData,
        }
    }

    /// A view of `nelem` values of `T` at `addr` whose marks land through
    /// `bitmap`.
    pub fn with_bitmap(addr: usize, nelem: usize, bitmap: BitmapSlice) -> (r: VolatileArrayRef<T>)
        requires
            addr + nelem * T::spec_size() <= usize::MAX,
            bitmap.spec_base() + nelem * T::spec_size() <= usize::MAX,
        ensures
            r.spec_addr() == addr,
            r.spec_nelem() == nelem,
            r.spec_bitmap() == bitmap,
    {
        VolatileArrayRef { addr, nelem, bitmap, phantom: core::marker::PhantomData }
    }

    /// Whether the array holds no elements.
    pub fn is_empty(&self) -> (r: bool)
        ensures
            r == (self.spec_nelem() == 0),
    {
        self.nelem == 0
    }

    /// The number of elements.
    pub fn len(&self) -> (r: usize)
        ensures
            r == self.spec_nelem(),
    {
        self.nelem
    }

    /// The size of one element in bytes.
    pub fn element_size(&self) -> (r: usize)
        ensures
            r == T::spec_size(),
    {
        T::value_size()
    }

    /// The address of the first element.
    pub fn as_ptr(&self) -> (r: usize)
        ensures
            r == self.spec_addr(),
    {
        self.addr
    }

    /// Borrows the dirty-tracking handle.
    pub fn bitmap(&self) -> (r: &BitmapSlice)
        ensures
            *r == self.spec_bitmap(),
    {
        &self.bitmap
    }

    /// The same bytes as an untyped window, sharing the dirty handle.
    pub fn to_slice(&self) -> (r: VolatileSlice)
        ensures
            r.spec_addr() == self.spec_addr(),
            r.spec_len() == self.spec_byte_len(),
            r.spec_bitmap() == self.spec_bitmap(),
    {
        proof {
            use_type_invariant(self);
            T::size_properties();
        }
        VolatileSlice::with_bitmap(self.addr, self.nelem * T::value_size(), self.bitmap)
    }

    /// The view of element `index`; the index must be in range.
    pub fn ref_at(&self, index: usize) -> (r: VolatileRef<T>)
        requires
            index < self.spec_nelem(),
        ensures
            r.spec_addr() == self.spec_addr() + index * T::spec_size(),
            r.spec_bitmap().spec_base() == self.spec_bitmap().spec_base() + index * T::spec_size(),
    {
        proof {
            use_type_invariant(self);
            T::size_properties();
            assert((index + 1) * T::spec_size() <= self.spec_nelem() * T::spec_size()
                && (index + 1) * T::spec_size() == index * T::spec_size() + T::spec_size())
                by (nonlinear_arith)
                requires
                    index < self.spec_nelem(),
                    T::spec_size() >= 0,
            ;
        }
        let byteofs = index * T::value_size();
        VolatileRef::with_bitmap(self.addr + byteofs, self.bitmap.slice_at(byteofs))
    }

    /// Loads element `index`; the index must be in range.
    pub fn load<B: Bitmap>(&self, region: &MemoryRegion<B>, index: usize) -> (r: T)
        requires
            self.valid_for(region),
            index < self.spec_nelem(),
        ensures
            r == self.spec_element(region, index as int),
    {
        proof {
            use_type_invariant(self);
            T::size_properties();
            assert((index + 1) * T::spec_size() <= self.spec_nelem() * T::spec_size()
                && (index + 1) * T::spec_size() == index * T::spec_size() + T::spec_size())
                by (nonlinear_arith)
                requires
                    index < self.spec_nelem(),
                    T::spec_size() >= 0,
            ;
        }
        self.ref_at(index).load(region)
    }

    /// Stores `value` into element `index` and marks its bytes dirty; the
    /// index must be in range.
    pub fn store<B: Bitmap>(&self, region: &mut MemoryRegion<B>, index: usize, value: T)
        requires
            self.valid_for(&*old(region)),
            index < self.spec_nelem(),
        ensures
            final(region).spec_len() == old(region).spec_len(),
            final(region).spec_bitmap().capacity() == old(region).spec_bitmap().capacity(),
            final(region).spec_bytes() == update_range(
                old(region).spec_bytes(),
                self.spec_addr() + index * T::spec_size(),
                value.to_bytes_spec(),
            ),
            B::tracks() ==> final(region).spec_dirty() == old(region).spec_dirty() + range_set(
                self.spec_bitmap().spec_base() + index * T::spec_size(),
                T::spec_size() as int,
            ),
            !B::tracks() ==> final(region).spec_bitmap() == old(region).spec_bitmap(),
    {
        proof {
            use_type_invariant(self);
            T::size_properties();
            assert((index + 1) * T::spec_size() <= self.spec_nelem() * T::spec_size()
                && (index + 1) * T::spec_size() == index * T::spec_size() + T::spec_size())
                by (nonlinear_arith)
                requires
                    index < self.spec_nelem(),
                    T::spec_size() >= 0,
            ;
        }
        self.ref_at(index).store(region, value)
    }

    /// `s` with the encodings of the first `n` values of `buf` laid down one
    /// after another starting at `a`.
    pub open spec fn spec_written(s: Seq<u8>, a: int, buf: Seq<T>, n: int) -> Seq<u8>
        decreases n,
    {
        if n <= 0 {
            s
        } else {
            update_range(
                Self::spec_written(s, a, buf, n - 1),
                a + (n - 1) * T::spec_size(),
                buf[n - 1].to_bytes_spec(),
            )
        }
    }

    /// Copies whole elements from the array into `buf`: exactly
    /// `min(len(), buf.len())` elements move, lowest index first, and the
    /// count is returned; the tail of `buf` keeps its old values.
    pub fn copy_to<B: Bitmap>(&self, region: &MemoryRegion<B>, buf: &mut Vec<T>) -> (r: usize)
        requires
            self.valid_for(region),
        ensures
            final(buf)@.len() == old(buf)@.len(),
            r == if self.spec_nelem() <= old(buf)@.len() {
                self.spec_nelem() as int
            } else {
                old(buf)@.len() as int
            },
            forall|i: int| 0 <= i < r ==> final(buf)@[i] == self.spec_element(region, i),
            forall|i: int| r <= i < old(buf)@.len() ==> final(buf)@[i] == old(buf)@[i],
    {
        let buf_len = buf.len();
        let count = if self.nelem < buf_len {
            self.nelem
        } else {
            buf_len
        };
        let mut i: usize = 0;
        while i < count
            invariant
                i <= count,
                count <= self.spec_nelem(),
                count <= buf@.len(),
                buf@.len() == old(buf)@.len(),
                self.valid_for(region),
                forall|k: int| 0 <= k < i ==> buf@[k] == self.spec_element(region, k),
                forall|k: int| i <= k < buf@.len() ==> buf@[k] == old(buf)@[k],
            decreases count - i,
        {
            let v = self.load(region, i);
            buf[i] = v;
            i = i + 1;
        }
        count
    }

    /// Copies whole elements of `buf` into the array: exactly
    /// `min(len(), buf.len())` elements move, lowest index first, and the
    /// written run is marked dirty.
    pub fn copy_from<B: Bitmap>(&self, region: &mut MemoryRegion<B>, buf: &[T])
        requires
            self.valid_for(&*old(region)),
        ensures
            final(region).spec_len() == old(region).spec_len(),
            final(region).spec_bitmap().capacity() == old(region).spec_bitmap().capacity(),
            ({
                let count = if self.spec_nelem() <= buf@.len() {
                    self.spec_nelem() as int
                } else {
                    buf@.len() as int
                };
                final(region).spec_bytes() == Self::spec_written(
                    old(region).spec_bytes(),
                    self.spec_addr() as int,
                    buf@,
                    count,
                ) && (forall|k: int|
                    0 <= k < count ==> final(region).spec_bytes().subrange(
                        self.spec_addr() + k * T::spec_size(),
                        self.spec_addr() + (k + 1) * T::spec_size(),
                    ) == buf@[k].to_bytes_spec()) && (B::tracks() ==> final(region).spec_dirty()
                    == old(region).spec_dirty() + range_set(
                    self.spec_bitmap().spec_base() as int,
                    count * T::spec_size(),
                )) && (!B::tracks() ==> final(region).spec_bitmap() == old(region).spec_bitmap())
            }),
    {
        proof {
            use_type_invariant(self);
            T::size_properties();
        }
        let buf_len = buf.len();
        let count = if self.nelem < buf_len {
            self.nelem
        } else {
            buf_len
        };
        let ghost s = T::spec_size() as int;
        let ghost a = self.spec_addr() as int;
        let ghost b0 = self.spec_bitmap().spec_base() as int;
        let mut i: usize = 0;
        while i < count
            invariant
                i <= count,
                count <= self.spec_nelem(),
                count <= buf@.len(),
                s == T::spec_size(),
                0 < s,
                a == self.spec_addr(),
                b0 == self.spec_bitmap().spec_base(),
                region.spec_len() == old(region).spec_len(),
                region.spec_bitmap().capacity() == old(region).spec_bitmap().capacity(),
                self.valid_for(region),
                region.spec_bytes() == Self::spec_written(old(region).spec_bytes(), a, buf@, i as int),
                forall|k: int|
                    0 <= k < i ==> region.spec_bytes().subrange(a + k * s, a + (k + 1) * s)
                        == buf@[k].to_bytes_spec(),
                B::tracks() ==> region.spec_dirty() == old(region).spec_dirty() + range_set(
                    b0,
                    i as int * s,
                ),
                !B::tracks() ==> region.spec_bitmap() == old(region).spec_bitmap(),
            decreases count - i,
        {
            let v = buf[i];
            let ghost pre = region.spec_bytes();
            let ghost pre_dirty = region.spec_dirty();
            self.store(region, i, v);
            proof {
                let ii = i as int;
                let n = self.spec_nelem() as int;
                assert((ii + 1) * s == ii * s + s) by (nonlinear_arith);
                vstd::arithmetic::mul::lemma_mul_inequality(ii + 1, n, s);
                vstd::arithmetic::mul::lemma_mul_nonnegative(ii, s);
                v.to_bytes_len();
                assert(region.spec_bytes() == Self::spec_written(
                    old(region).spec_bytes(),
                    a,
                    buf@,
                    ii + 1,
                ));
                assert forall|k: int|
                    0 <= k < ii + 1 implies region.spec_bytes().subrange(a + k * s, a + (k + 1) * s)
                    == buf@[k].to_bytes_spec() by {
                    let kb = buf@[k];
                    kb.to_bytes_len();
                    vstd::arithmetic::mul::lemma_mul_nonnegative(k, s);
                    vstd::arithmetic::mul::lemma_mul_inequality(k + 1, n, s);
                    assert((k + 1) * s == k * s + s) by (nonlinear_arith);
                    if k < ii {
                        vstd::arithmetic::mul::lemma_mul_inequality(k + 1, ii, s);
                        assert(region.spec_bytes().subrange(a + k * s, a + (k + 1) * s) =~= pre.subrange(
                            a + k * s,
                            a + (k + 1) * s,
                        ));
                    } else {
                        assert(region.spec_bytes().subrange(a + k * s, a + (k + 1) * s)
                            =~= kb.to_bytes_spec());
                    }
                }
                if B::tracks() {
                    assert(pre_dirty + range_set(b0 + ii * s, s) =~= old(region).spec_dirty()
                        + range_set(b0, (ii + 1) * s));
                }
            }
            i = i + 1;
        }
        proof {
            if count == 0 && B::tracks() {
                assert(region.spec_dirty() =~= old(region).spec_dirty() + range_set(b0, 0));
            }
        }
    }

    /// Copies `min(byte length, slice.len())` bytes of the array into
    /// `slice`'s region, marking the copied range dirty on the destination.
    /// The two regions are distinct values, so the ranges cannot overlap.
    pub fn copy_to_volatile_slice<B1: Bitmap, B2: Bitmap>(
        &self,
        region: &MemoryRegion<B1>,
        slice: VolatileSlice,
        slice_region: &mut MemoryRegion<B2>,
    )
        requires
            self.valid_for(region),
            slice.valid_for(&*old(slice_region)),
        ensures
            final(slice_region).spec_len() == old(slice_region).spec_len(),
            final(slice_region).spec_bitmap().capacity() == old(
                slice_region,
            ).spec_bitmap().capacity(),
            ({
                let total = if self.spec_byte_len() <= slice.spec_len() {
                    self.spec_byte_len()
                } else {
                    slice.spec_len() as int
                };
                final(slice_region).spec_bytes() == update_range(
                    old(slice_region).spec_bytes(),
                    slice.spec_addr() as int,
                    region.spec_bytes().subrange(
                        self.spec_addr() as int,
                        self.spec_addr() + total,
                    ),
                ) && (B2::tracks() ==> final(slice_region).spec_dirty() == old(
                    slice_region,
                ).spec_dirty() + range_set(slice.spec_bitmap().spec_base() as int, total)) && (
                !B2::tracks() ==> final(slice_region).spec_bitmap() == old(
                    slice_region,
                ).spec_bitmap())
            }),
    {
        proof {
            use_type_invariant(self);
            use_type_invariant(&slice);
            T::size_properties();
        }
        let nbytes = self.nelem * T::value_size();
        let total = if nbytes < slice.len() {
            nbytes
        } else {
            slice.len()
        };
        copy_between(region, self.addr, slice_region, slice.as_ptr(), total);
        slice.bitmap.mark_dirty(&mut slice_region.bitmap, 0, total);
    }
}

impl From<VolatileSlice> for VolatileArrayRef<u8> {
    /// The same window seen as an array of single bytes, sharing the dirty
    /// handle.
    fn from(slice: VolatileSlice) -> (r: VolatileArrayRef<u8>)
        ensures
            r.spec_addr() == slice.spec_addr(),
            r.spec_nelem() == slice.spec_len(),
            r.spec_bitmap() == slice.spec_bitmap(),
    {
        proof {
            use_type_invariant(&slice);
        }
        VolatileArrayRef::with_bitmap(slice.as_ptr(), slice.len(), *slice.bitmap())
    }
}

impl vstd::std_specs::convert::FromSpecImpl<VolatileSlice> for VolatileArrayRef<u8> {
    open spec fn obeys_from_spec() -> bool {
        true
    }

    closed spec fn from_spec(slice: VolatileSlice) -> Self {
        VolatileArrayRef {
            addr: slice.spec_addr(),
            nelem: slice.spec_len(),
            bitmap: slice.spec_bitmap(),
            phantom: core::marker::PhantomData,
        }
    }
}

} // verus!
