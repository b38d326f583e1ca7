//! The allocator's state and its transitions, as mathematics.
//!
//! [`AllocatorState`] is what an allocator is at one moment; the functions on
//! it say what each operation makes of it. The executable allocator is
//! specified against them.

use vstd::prelude::*;

use crate::memory::selection::{lemma_selected_iff_qualifying, selected_area};
use crate::memory::{MemoryArea, MAX_FRAME_NUMBER};

verus! {

/// The state of a frame allocator: frame numbers as natural numbers, the
/// memory map as a sequence of areas.
pub struct AllocatorState {
    /// The lowest frame number that has not been handed out or passed over.
    pub next_free_frame: nat,
    /// The area that requests are served from, `None` once the memory map has
    /// nothing left to offer.
    pub current_area: Option<MemoryArea>,
    /// The memory map.
    pub areas: Seq<MemoryArea>,
    /// First frame of the kernel image.
    pub kernel_start: nat,
    /// Last frame of the kernel image.
    pub kernel_end: nat,
}

impl AllocatorState {
    /// The memory map is well formed, frame numbers are frame numbers of this
    /// machine, and the current area is an area of the memory map that starts
    /// at or below the next free frame.
    pub open spec fn wf(self) -> bool {
        &&& forall|i: int| 0 <= i < self.areas.len() ==> (#[trigger] self.areas[i]).well_formed()
        &&& self.kernel_end <= MAX_FRAME_NUMBER
        &&& self.next_free_frame <= MAX_FRAME_NUMBER + 1
        &&& match self.current_area {
            Some(area) => self.areas.contains(area) && area.first_frame() <= self.next_free_frame,
            None => true,
        }
    }

    /// No area is left to serve from.
    pub open spec fn exhausted(self) -> bool {
        self.current_area is None
    }

    /// Frame `number` belongs to the kernel image.
    pub open spec fn in_kernel(self, number: int) -> bool {
        self.kernel_start <= number <= self.kernel_end
    }

    /// The last frame of a run of `count` frames that starts at the next free
    /// frame.
    pub open spec fn candidate_end(self, count: nat) -> int {
        self.next_free_frame + count - 1
    }

    /// A run of `count` frames from the next free frame on reaches beyond the
    /// last frame of the current area.
    pub open spec fn outgrows_current_area(self, count: nat) -> bool {
        match self.current_area {
            Some(area) => self.candidate_end(count) > area.last_frame(),
            None => false,
        }
    }

    /// A run of `count` frames from the next free frame on starts or ends
    /// inside the kernel image.
    pub open spec fn touches_kernel(self, count: nat) -> bool {
        self.in_kernel(self.next_free_frame as int) || self.in_kernel(self.candidate_end(count))
    }

    /// Gives up what is left of the current area: the next free frame moves
    /// past the area's last frame, unless it is beyond it already.
    pub open spec fn leave_current_area(self) -> AllocatorState {
        match self.current_area {
            Some(area) if self.next_free_frame <= area.last_frame() => AllocatorState {
                next_free_frame: area.last_frame() + 1,
                ..self
            },
            _ => self,
        }
    }

    /// Turns to the area selected for the next free frame, and moves the next
    /// free frame up to that area's first frame if it lies below it. With no
    /// area to select, the state becomes exhausted.
    pub open spec fn choose_next_area(self) -> AllocatorState {
        match selected_area(self.areas, self.next_free_frame) {
            Some(area) => AllocatorState {
                next_free_frame: if self.next_free_frame < area.first_frame() {
                    area.first_frame()
                } else {
                    self.next_free_frame
                },
                current_area: Some(area),
                ..self
            },
            None => AllocatorState { current_area: None, ..self },
        }
    }

    /// Moves the next free frame to the frame after the kernel image.
    pub open spec fn skip_kernel(self) -> AllocatorState {
        AllocatorState { next_free_frame: self.kernel_end + 1, ..self }
    }

    /// Hands out `count` frames from the next free frame on.
    pub open spec fn take(self, count: nat) -> AllocatorState {
        AllocatorState { next_free_frame: self.next_free_frame + count, ..self }
    }

    /// The state of a new allocator for a kernel image that occupies the
    /// frames `kernel_start..=kernel_end`, over the memory map `areas`.
    pub open spec fn initial(kernel_start: nat, kernel_end: nat, areas: Seq<MemoryArea>) -> AllocatorState {
        AllocatorState {
            next_free_frame: 0,
            current_area: None,
            areas,
            kernel_start,
            kernel_end,
        }.choose_next_area()
    }

    /// The state after the first `n` of the requests `counts` have been made,
    /// one after the other.
    pub open spec fn after_requests(self, counts: Seq<nat>, n: nat) -> AllocatorState
        decreases n,
    {
        if n == 0 {
            self
        } else {
            self.after_requests(counts, (n - 1) as nat).allocate(counts[n - 1]).0
        }
    }

    /// What request number `i` of the requests `counts`, made one after the
    /// other, hands out.
    pub open spec fn outcome(self, counts: Seq<nat>, i: nat) -> Option<nat> {
        self.after_requests(counts, i).allocate(counts[i as int]).1
    }

    /// What holds of every request: the state stays well formed, the memory
    /// map and the kernel image stay as they are, the next free frame does
    /// not move down, and a run that is handed out starts at or above the
    /// next free frame, lies in the area that is current afterwards, and
    /// neither starts nor ends inside the kernel image.
    pub proof fn lemma_allocate(self, count: nat)
        requires
            self.wf(),
        ensures
            ({
                let (after, start) = self.allocate(count);
                &&& after.wf()
                &&& after.areas == self.areas
                &&& after.kernel_start == self.kernel_start
                &&& after.kernel_end == self.kernel_end
                &&& self.next_free_frame <= after.next_free_frame
                &&& (count == 0 || self.exhausted()) ==> after == self && start is None
                &&& start is None <==> count == 0 || after.exhausted()
                &&& start matches Some(first) ==> {
                    &&& self.next_free_frame <= first
                    &&& after.next_free_frame == first + count
                    &&& after.current_area matches Some(area) && area.first_frame() <= first
                        && first + count - 1 <= area.last_frame()
                    &&& !self.in_kernel(first as int)
                    &&& !self.in_kernel(first + count - 1)
                }
            }),
        decreases self.retries_left(),
    {
        if count == 0 || self.exhausted() {
        } else if self.outgrows_current_area(count) {
            self.lemma_next_area_is_progress();
            self.leave_current_area().choose_next_area().lemma_allocate(count);
        } else if self.touches_kernel(count) {
            self.skip_kernel().lemma_allocate(count);
        } else {
        }
    }

    /// The current area has no frame at or above the next free frame.
    pub open spec fn current_area_is_spent(self) -> bool {
        match self.current_area {
            Some(area) => area.last_frame() < self.next_free_frame,
            None => false,
        }
    }

    /// An upper bound on the number of retries a request can still cause.
    pub open spec fn retries_left(self) -> nat {
        let room = 2 * (MAX_FRAME_NUMBER + 1 - self.next_free_frame);
        let room = if room < 0 { 0 } else { room };
        (room + if self.current_area_is_spent() { 1int } else { 0int }) as nat
    }

    /// A request for `count` frames: the state it leaves, and the number of
    /// the first frame of the run handed out, if any.
    ///
    /// A request for no frames, and any request in an exhausted state, hands out
    /// nothing and changes nothing. Otherwise the run of `count` frames from
    /// the next free frame on is the candidate. If it reaches beyond the
    /// current area, the area is left behind, the next one is chosen and the
    /// request is tried again. If it starts or ends inside the kernel image,
    /// the next free frame moves past the kernel and the request is tried
    /// again. Otherwise the candidate is handed out.
    pub open spec fn allocate(self, count: nat) -> (AllocatorState, Option<nat>)
        decreases self.retries_left(),
        when self.wf()
        via Self::allocate_retries_decrease
    {
        if count == 0 || self.exhausted() {
            (self, None)
        } else if self.outgrows_current_area(count) {
            self.leave_current_area().choose_next_area().allocate(count)
        } else if self.touches_kernel(count) {
            self.skip_kernel().allocate(count)
        } else {
            (self.take(count), Some(self.next_free_frame))
        }
    }

    #[via_fn]
    proof fn allocate_retries_decrease(self, count: nat) {
        if count != 0 && !self.exhausted() {
            if self.outgrows_current_area(count) {
                self.lemma_next_area_is_progress();
            }
        }
    }

    /// Leaving an area that a request has outgrown and choosing the next one
    /// keeps the state well formed and uses up a retry.
    pub proof fn lemma_next_area_is_progress(self)
        requires
            self.wf(),
            self.current_area is Some,
        ensures
            self.leave_current_area().choose_next_area().wf(),
            self.current_area_is_spent() || self.next_free_frame
                < self.leave_current_area().choose_next_area().next_free_frame,
            self.leave_current_area().choose_next_area().retries_left() < self.retries_left(),
    {
        let area = self.current_area->0;
        area.lemma_frames_bounded();
        let left = self.leave_current_area();
        lemma_selected_iff_qualifying(left.areas, left.next_free_frame);
        match selected_area(left.areas, left.next_free_frame) {
            Some(next_area) => {
                next_area.lemma_frames_bounded();
            },
            None => {},
        }
    }
}

} // verus!
