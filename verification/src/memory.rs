//! Page frames and the usable memory areas they are carved from.

use vstd::prelude::*;

pub mod area_frame_allocator;
pub mod guarantees;
pub mod selection;
pub mod state;

use crate::paging::{PhysicalAddress, PAGE_SIZE};

verus! {

/// The highest frame number any address of this machine can fall into.
pub const MAX_FRAME_NUMBER: usize = usize::MAX / PAGE_SIZE;

/// A physical page frame, identified by its ordinal: the physical address of
/// its first byte divided by the page size.
#[derive(Debug, PartialEq, Eq, PartialOrd, Ord)]
pub struct Frame {
    pub number: usize,
}

impl Frame {
    /// The frame that holds the byte at `address`.
    pub fn containing_address(address: PhysicalAddress) -> (frame: Frame)
        ensures
            frame.number == address@ / PAGE_SIZE,
            frame.number <= MAX_FRAME_NUMBER,
    {
        Frame { number: address.get() / PAGE_SIZE }
    }
}

/// A source of physical page frames.
pub trait FrameAllocator {
    /// Hands out `count` consecutive frames and returns the first of them, or
    /// returns `None` and hands out nothing.
    fn allocate_frames(&mut self, count: usize) -> Option<Frame>;

    /// Takes back `count` frames starting at `frame`.
    fn deallocate_frames(&mut self, frame: Frame, count: usize);
}

/// A contiguous range of usable physical memory, as the bootloader reports it:
/// `length` bytes starting at `base_addr`.
#[derive(Clone, Copy, Debug, PartialEq, Eq, Structural)]
pub struct MemoryArea {
    pub base_addr: u64,
    pub length: u64,
}

impl MemoryArea {
    /// The area's first and last byte addresses can be formed and are
    /// addresses of this machine.
    pub open spec fn well_formed(self) -> bool {
        &&& self.base_addr <= usize::MAX
        &&& 1 <= self.base_addr + self.length
        &&& self.base_addr + self.length - 1 <= usize::MAX
    }

    /// Number of the frame that holds the area's first byte.
    pub open spec fn first_frame(self) -> nat {
        (self.base_addr / PAGE_SIZE as u64) as nat
    }

    /// Number of the frame that holds the byte at `base_addr + length - 1`.
    pub open spec fn last_frame(self) -> nat {
        ((self.base_addr + self.length - 1) / PAGE_SIZE as int) as nat
    }

    /// Whether frame `number` lies between the area's first and last frame.
    pub open spec fn contains_frame(self, number: nat) -> bool {
        self.first_frame() <= number <= self.last_frame()
    }

    /// The frames of a well-formed area are frames of this machine.
    pub proof fn lemma_frames_bounded(self)
        requires
            self.well_formed(),
        ensures
            self.first_frame() <= MAX_FRAME_NUMBER,
            self.last_frame() <= MAX_FRAME_NUMBER,
    {
        assert(self.base_addr as int / 4096 <= usize::MAX as int / 4096);
    }

    /// Decides [`Self::well_formed`].
    pub fn is_well_formed(&self) -> (ok: bool)
        ensures
            ok == self.well_formed(),
    {
        let limit: u64 = usize::MAX as u64;
        if self.base_addr > limit {
            false
        } else if self.length == 0 {
            self.base_addr >= 1
        } else {
            self.length - 1 <= limit - self.base_addr
        }
    }

    /// The frame that holds the area's first byte.
    pub fn start_frame(&self) -> (frame: Frame)
        requires
            self.well_formed(),
        ensures
            frame.number == self.first_frame(),
            frame.number <= MAX_FRAME_NUMBER,
    {
        Frame::containing_address(PhysicalAddress::new(self.base_addr as usize))
    }

    /// The frame that holds the area's last byte.
    pub fn end_frame(&self) -> (frame: Frame)
        requires
            self.well_formed(),
        ensures
            frame.number == self.last_frame(),
            frame.number <= MAX_FRAME_NUMBER,
    {
        let address: u64 = if self.length == 0 {
            self.base_addr - 1
        } else {
            self.base_addr + (self.length - 1)
        };
        Frame::containing_address(PhysicalAddress::new(address as usize))
    }
}

} // verus!
