//! What callers of the allocator can rely on, proved of every well-formed
//! state and every request.

use vstd::prelude::*;

use crate::memory::area_frame_allocator::well_formed_map;
use crate::memory::selection::{lemma_selected_iff_qualifying, selected_area};
use crate::memory::state::AllocatorState;
use crate::memory::{MemoryArea, MAX_FRAME_NUMBER};

verus! {

/// Frame `frame` is one of the `count` frames that start at frame `first`.
pub open spec fn in_run(first: nat, count: nat, frame: nat) -> bool {
    first <= frame < first + count
}

/// The kernel image lies inside the run of `count` frames from `first` on
/// without reaching its first or its last frame.
pub open spec fn surrounds_kernel(state: AllocatorState, first: nat, count: nat) -> bool {
    first < state.kernel_start <= state.kernel_end < first + count - 1
}

/// A new allocator is well formed.
pub proof fn initial_state_is_well_formed(kernel_start: nat, kernel_end: nat, areas: Seq<MemoryArea>)
    requires
        well_formed_map(areas),
        kernel_end <= MAX_FRAME_NUMBER,
    ensures
        AllocatorState::initial(kernel_start, kernel_end, areas).wf(),
{
    lemma_selected_iff_qualifying(areas, 0);
    if let Some(area) = selected_area(areas, 0) {
        area.lemma_frames_bounded();
    }
}

/// Requests leave the state well formed and change neither the memory map nor
/// the kernel image.
pub proof fn requests_keep_the_state_well_formed(state: AllocatorState, counts: Seq<nat>, n: nat)
    requires
        state.wf(),
        n <= counts.len(),
    ensures
        state.after_requests(counts, n).wf(),
        state.after_requests(counts, n).areas == state.areas,
        state.after_requests(counts, n).kernel_start == state.kernel_start,
        state.after_requests(counts, n).kernel_end == state.kernel_end,
    decreases n,
{
    if n > 0 {
        requests_keep_the_state_well_formed(state, counts, (n - 1) as nat);
        state.after_requests(counts, (n - 1) as nat).lemma_allocate(counts[n - 1]);
    }
}

/// Over any sequence of requests the next free frame never moves down, and a
/// run that is handed out starts at or above the next free frame as it was
/// before the request.
pub proof fn next_free_frame_is_monotonic(state: AllocatorState, counts: Seq<nat>, i: nat, j: nat)
    requires
        state.wf(),
        i <= j <= counts.len(),
    ensures
        state.after_requests(counts, i).next_free_frame <= state.after_requests(
            counts,
            j,
        ).next_free_frame,
        i < j ==> (state.outcome(counts, i) matches Some(first) ==> state.after_requests(
            counts,
            i,
        ).next_free_frame <= first && first + counts[i as int] <= state.after_requests(
            counts,
            j,
        ).next_free_frame),
    decreases j - i,
{
    if i < j {
        requests_keep_the_state_well_formed(state, counts, (j - 1) as nat);
        state.after_requests(counts, (j - 1) as nat).lemma_allocate(counts[j - 1]);
        next_free_frame_is_monotonic(state, counts, i, (j - 1) as nat);
    }
}

/// Two runs handed out in the course of any sequence of requests have no frame
/// in common: the one with the lower first frame ends below the first frame of
/// the other.
pub proof fn allocations_are_disjoint(state: AllocatorState, counts: Seq<nat>, i: nat, j: nat)
    requires
        state.wf(),
        i < counts.len(),
        j < counts.len(),
        i != j,
        state.outcome(counts, i) is Some,
        state.outcome(counts, j) is Some,
    ensures
        forall|frame: nat|
            !(#[trigger] in_run(state.outcome(counts, i)->0, counts[i as int], frame) && in_run(
                state.outcome(counts, j)->0,
                counts[j as int],
                frame,
            )),
        state.outcome(counts, i)->0 < state.outcome(counts, j)->0 ==> state.outcome(counts, i)->0
            + counts[i as int] - 1 < state.outcome(counts, j)->0,
{
    if i < j {
        next_free_frame_is_monotonic(state, counts, i, j);
        next_free_frame_is_monotonic(state, counts, j, j + 1);
    } else {
        next_free_frame_is_monotonic(state, counts, j, i);
        next_free_frame_is_monotonic(state, counts, i, i + 1);
    }
}

/// No frame of a run that is handed out belongs to the kernel image, unless
/// the run surrounds the kernel image: the allocator looks only at the first
/// and the last frame of a run.
pub proof fn allocation_avoids_kernel(state: AllocatorState, count: nat, frame: nat)
    requires
        state.wf(),
        state.allocate(count).1 is Some,
        !surrounds_kernel(state, state.allocate(count).1->0, count),
        in_run(state.allocate(count).1->0, count, frame),
    ensures
        !state.in_kernel(frame as int),
{
    state.lemma_allocate(count);
}

/// A run that is handed out lies between the first and the last frame of one
/// area of the memory map.
pub proof fn allocation_lies_in_one_area(state: AllocatorState, count: nat)
    requires
        state.wf(),
        state.allocate(count).1 is Some,
    ensures
        exists|i: int|
            0 <= i < state.areas.len() && (#[trigger] state.areas[i]).first_frame()
                <= state.allocate(count).1->0 && state.allocate(count).1->0 + count - 1
                <= state.areas[i].last_frame(),
{
    state.lemma_allocate(count);
    let after = state.allocate(count).0;
    let area = after.current_area->0;
    assert(after.areas.contains(area));
    let i = choose|i: int| 0 <= i < after.areas.len() && after.areas[i] == area;
    assert(state.areas[i] == area);
}

/// A request for no frames hands out nothing and leaves the state as it is.
pub proof fn zero_count_is_a_no_op(state: AllocatorState)
    requires
        state.wf(),
    ensures
        state.allocate(0) == (state, None::<nat>),
{
}

/// A request for at least one frame hands out nothing exactly when it leaves
/// the state exhausted, and in an exhausted state a request hands out nothing
/// and leaves the state as it is.
pub proof fn exhaustion_is_final(state: AllocatorState, count: nat)
    requires
        state.wf(),
    ensures
        count > 0 ==> (state.allocate(count).1 is None <==> state.allocate(count).0.exhausted()),
        state.exhausted() ==> state.allocate(count) == (state, None::<nat>),
{
    state.lemma_allocate(count);
}

/// Once a request for at least one frame has handed out nothing, no later
/// request of the sequence hands out anything.
pub proof fn no_allocation_after_exhaustion(state: AllocatorState, counts: Seq<nat>, i: nat, j: nat)
    requires
        state.wf(),
        i < j < counts.len(),
        counts[i as int] > 0,
        state.outcome(counts, i) is None,
    ensures
        state.outcome(counts, j) is None,
        state.after_requests(counts, j).exhausted(),
    decreases j - i,
{
    requests_keep_the_state_well_formed(state, counts, i);
    state.after_requests(counts, i).lemma_allocate(counts[i as int]);
    if i + 1 < j {
        no_allocation_after_exhaustion(state, counts, i, (j - 1) as nat);
        requests_keep_the_state_well_formed(state, counts, (j - 1) as nat);
        state.after_requests(counts, (j - 1) as nat).lemma_allocate(counts[j - 1]);
    }
    requests_keep_the_state_well_formed(state, counts, j);
    state.after_requests(counts, j).lemma_allocate(counts[j as int]);
}

} // verus!
