//! Bounds-checked, dirty-tracking views over an externally owned byte region.
//!
//! A memory region that other parties may observe or mutate is modelled as a
//! flat run of bytes together with a dirty-range tracker, owned by the caller
//! and handed to each access.  Callers never hold references into the region;
//! they hold cheap, freely copyable view values (`VolatileSlice`,
//! `VolatileRef`, `VolatileArrayRef`) that name an address window, and every
//! access routes through checked address arithmetic before touching a byte.

pub mod bitmap;
pub mod byte_valued;
pub mod copy_slice_impl;
pub mod laws;
pub mod text;
pub mod volatile_memory;

pub use bitmap::Bitmap;
pub use bitmap::BitmapSlice;
pub use bitmap::ByteBitmap;
pub use byte_valued::ByteValued;
pub use volatile_memory::compute_offset;
pub use volatile_memory::Error;
pub use volatile_memory::MemoryRegion;
pub use volatile_memory::VolatileArrayRef;
pub use volatile_memory::VolatileMemory;
pub use volatile_memory::VolatileRef;
pub use volatile_memory::VolatileSlice;
