//! A frame allocator that walks the bootloader's memory map.
//!
//! The allocator keeps a fixed amount of state: the next free frame, the area
//! it currently serves from, and the frames of the kernel image. It hands out
//! runs of consecutive frames in increasing order and never takes a frame
//! back. Each time an area is used up it looks through the whole memory map
//! again for the next one.

use vstd::prelude::*;

use crate::memory::selection::{lemma_selected_is, preferred, qualifies, selected_area, selects};
use crate::memory::state::AllocatorState;
use crate::memory::{Frame, FrameAllocator, MemoryArea};
use crate::paging::{PhysicalAddress, PAGE_SIZE};

verus! {

/// Every area of the memory map is well formed.
pub open spec fn well_formed_map(areas: Seq<MemoryArea>) -> bool {
    forall|i: int| 0 <= i < areas.len() ==> (#[trigger] areas[i]).well_formed()
}

/// Decides [`well_formed_map`].
pub fn memory_map_is_well_formed(areas: &[MemoryArea]) -> (ok: bool)
    ensures
        ok == well_formed_map(areas@),
{
    let mut i: usize = 0;
    while i < areas.len()
        invariant
            i <= areas.len(),
            forall|j: int| 0 <= j < i ==> (#[trigger] areas@[j]).well_formed(),
        decreases areas.len() - i,
    {
        if !areas[i].is_well_formed() {
            return false;
        }
        i += 1;
    }
    true
}

/// A frame allocator over a borrowed memory map.
pub struct AreaFrameAllocator<'a> {
    next_free_frame: Frame,
    current_area: Option<MemoryArea>,
    areas: &'a [MemoryArea],
    kernel_start: Frame,
    kernel_end: Frame,
}

impl<'a> View for AreaFrameAllocator<'a> {
    type V = AllocatorState;

    closed spec fn view(&self) -> AllocatorState {
        AllocatorState {
            next_free_frame: self.next_free_frame.number as nat,
            current_area: self.current_area,
            areas: self.areas@,
            kernel_start: self.kernel_start.number as nat,
            kernel_end: self.kernel_end.number as nat,
        }
    }
}

impl<'a> AreaFrameAllocator<'a> {
    #[verifier::type_invariant]
    spec fn inv(self) -> bool {
        self@.wf()
    }

    /// An allocator over `memory_areas` for a kernel image whose first byte is
    /// at `kernel_start` and whose last byte is at `kernel_end`.
    pub fn new(kernel_start: usize, kernel_end: usize, memory_areas: &'a [MemoryArea]) -> (allocator:
        AreaFrameAllocator<'a>)
        requires
            well_formed_map(memory_areas@),
        ensures
            allocator@ == AllocatorState::initial(
                (kernel_start / PAGE_SIZE) as nat,
                (kernel_end / PAGE_SIZE) as nat,
                memory_areas@,
            ),
            allocator@.wf(),
    {
        let mut allocator = AreaFrameAllocator {
            next_free_frame: Frame::containing_address(PhysicalAddress::new(0)),
            current_area: None,
            areas: memory_areas,
            kernel_start: Frame::containing_address(PhysicalAddress::new(kernel_start)),
            kernel_end: Frame::containing_address(PhysicalAddress::new(kernel_end)),
        };
        allocator.choose_next_area();
        proof {
            use_type_invariant(&allocator);
        }
        allocator
    }

    /// The lowest frame that has neither been handed out nor passed over.
    pub fn next_free_frame(&self) -> (frame: Frame)
        ensures
            frame.number == self@.next_free_frame,
    {
        Frame { number: self.next_free_frame.number }
    }

    /// The area that requests are served from, `None` once the allocator is
    /// exhausted.
    pub fn current_area(&self) -> (area: Option<MemoryArea>)
        ensures
            area == self@.current_area,
    {
        self.current_area
    }

    /// Looks through the memory map for the area to serve from next.
    fn choose_next_area(&mut self)
        ensures
            final(self)@ == old(self)@.choose_next_area(),
    {
        proof {
            use_type_invariant(&*self);
        }
        let next: usize = self.next_free_frame.number;
        let mut best: Option<usize> = None;
        let mut i: usize = 0;
        while i < self.areas.len()
            invariant
                i <= self.areas.len(),
                well_formed_map(self.areas@),
                match best {
                    Some(b) => {
                        &&& b < i
                        &&& qualifies(self.areas@[b as int], next as nat)
                        &&& forall|j: int|
                            0 <= j < i && qualifies(#[trigger] self.areas@[j], next as nat)
                                ==> preferred(self.areas@, b as int, j)
                    },
                    None => forall|j: int|
                        0 <= j < i ==> !qualifies(#[trigger] self.areas@[j], next as nat),
                },
            decreases self.areas.len() - i,
        {
            let area: MemoryArea = self.areas[i];
            if area.end_frame().number >= next {
                match best {
                    Some(b) => {
                        if area.base_addr < self.areas[b].base_addr {
                            best = Some(i);
                        }
                    },
                    None => {
                        best = Some(i);
                    },
                }
            }
            i += 1;
        }
        match best {
            Some(b) => {
                let area: MemoryArea = self.areas[b];
                proof {
                    assert(selects(self.areas@, next as nat, b as int));
                    lemma_selected_is(self.areas@, next as nat, b as int);
                }
                let start_frame = area.start_frame();
                if next < start_frame.number {
                    self.next_free_frame = start_frame;
                }
                self.current_area = Some(area);
            },
            None => {
                proof {
                    assert(selected_area(self.areas@, next as nat) is None);
                }
                self.current_area = None;
            },
        }
    }
}

impl<'a> FrameAllocator for AreaFrameAllocator<'a> {
    /// Hands out `count` consecutive frames and returns the first of them, or
    /// returns `None` and hands out nothing: when `count` is zero, and when the
    /// memory map has no area left that can serve the request.
    fn allocate_frames(&mut self, count: usize) -> (frame: Option<Frame>)
        ensures
            final(self)@ == old(self)@.allocate(count as nat).0,
            match frame {
                Some(first) => old(self)@.allocate(count as nat).1 == Some(first.number as nat),
                None => old(self)@.allocate(count as nat).1 is None,
            },
            final(self)@.wf(),
            final(self)@.areas == old(self)@.areas,
            final(self)@.kernel_start == old(self)@.kernel_start,
            final(self)@.kernel_end == old(self)@.kernel_end,
            old(self)@.next_free_frame <= final(self)@.next_free_frame,
            count == 0 || old(self)@.exhausted() ==> frame is None && final(self)@ == old(self)@,
            frame is None <==> count == 0 || final(self)@.exhausted(),
            frame matches Some(first) ==> {
                &&& old(self)@.next_free_frame <= first.number
                &&& final(self)@.next_free_frame == first.number + count
                &&& final(self)@.current_area matches Some(area) && area.first_frame()
                    <= first.number && first.number + count - 1 <= area.last_frame()
                &&& !old(self)@.in_kernel(first.number as int)
                &&& !old(self)@.in_kernel(first.number + count - 1)
            },
    {
        proof {
            use_type_invariant(&*self);
            self@.lemma_allocate(count as nat);
        }
        if count == 0 {
            return None;
        }
        loop
            invariant
                count > 0,
                self@.wf(),
                old(self)@.wf(),
                self@.allocate(count as nat) == old(self)@.allocate(count as nat),
            decreases self@.retries_left(),
        {
            proof {
                old(self)@.lemma_allocate(count as nat);
            }
            match self.current_area {
                None => {
                    return None;
                },
                Some(area) => {
                    proof {
                        area.lemma_frames_bounded();
                    }
                    let start: usize = self.next_free_frame.number;
                    let last: usize = area.end_frame().number;
                    if start > last || count - 1 > last - start {
                        proof {
                            self@.lemma_next_area_is_progress();
                        }
                        if start <= last {
                            self.next_free_frame = Frame { number: last + 1 };
                        }
                        self.choose_next_area();
                    } else {
                        let end: usize = start + (count - 1);
                        let kernel_start: usize = self.kernel_start.number;
                        let kernel_end: usize = self.kernel_end.number;
                        if (start >= kernel_start && start <= kernel_end) || (end >= kernel_start
                            && end <= kernel_end) {
                            self.next_free_frame = Frame { number: kernel_end + 1 };
                        } else {
                            self.next_free_frame = Frame { number: start + count };
                            return Some(Frame { number: start });
                        }
                    }
                },
            }
        }
    }

    /// Takes back `count` frames starting at `frame`. The allocator keeps no
    /// record of them: they are not handed out again.
    fn deallocate_frames(&mut self, frame: Frame, count: usize)
        ensures
            final(self)@ == old(self)@,
    {
    }
}

} // verus!
