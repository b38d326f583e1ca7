//! Boot-time physical frame allocation over a firmware memory map.
//!
//! The allocator in [`memory::area_frame_allocator`] hands out runs of
//! physical page frames from the usable areas reported by the bootloader,
//! never touching the frames that hold the kernel image.

pub mod memory;
pub mod paging;
