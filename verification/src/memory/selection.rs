//! Which memory area the allocator turns to next.
//!
//! The bootloader reports areas in no particular order, and areas may overlap.
//! Of the areas that still reach up to the next free frame, the allocator
//! serves from the one with the lowest base address; among areas with the same
//! base address, from the one reported first.

use vstd::prelude::*;

use crate::memory::MemoryArea;

verus! {

/// `area` still has a frame at or above frame number `next`.
pub open spec fn qualifies(area: MemoryArea, next: nat) -> bool {
    area.last_frame() >= next
}

/// Area `i` comes before area `j` in the order of preference: lower base
/// address first, earlier report first among equal base addresses.
pub open spec fn preferred(areas: Seq<MemoryArea>, i: int, j: int) -> bool {
    areas[i].base_addr < areas[j].base_addr || (areas[i].base_addr == areas[j].base_addr && i <= j)
}

/// Area `i` is the one to serve from when the next free frame is `next`: it
/// qualifies, and it is preferred to every other area that does.
pub open spec fn selects(areas: Seq<MemoryArea>, next: nat, i: int) -> bool {
    &&& 0 <= i < areas.len()
    &&& qualifies(areas[i], next)
    &&& forall|j: int|
        0 <= j < areas.len() && qualifies(#[trigger] areas[j], next) ==> preferred(areas, i, j)
}

/// The area to serve from when the next free frame is `next`, or `None` when
/// no area qualifies.
pub open spec fn selected_area(areas: Seq<MemoryArea>, next: nat) -> Option<MemoryArea> {
    if exists|i: int| selects(areas, next, i) {
        Some(areas[choose|i: int| selects(areas, next, i)])
    } else {
        None
    }
}

/// At most one area is selected.
pub proof fn lemma_selects_unique(areas: Seq<MemoryArea>, next: nat, i: int, j: int)
    requires
        selects(areas, next, i),
        selects(areas, next, j),
    ensures
        i == j,
{
    assert(preferred(areas, i, j));
    assert(preferred(areas, j, i));
}

/// The area that `selects` singles out is the selected area.
pub proof fn lemma_selected_is(areas: Seq<MemoryArea>, next: nat, i: int)
    requires
        selects(areas, next, i),
    ensures
        selected_area(areas, next) == Some(areas[i]),
{
    let k = choose|k: int| selects(areas, next, k);
    lemma_selects_unique(areas, next, i, k);
}

/// Some area is selected exactly when some area qualifies.
pub proof fn lemma_selected_iff_qualifying(areas: Seq<MemoryArea>, next: nat)
    ensures
        selected_area(areas, next) is Some <==> exists|j: int|
            0 <= j < areas.len() && qualifies(#[trigger] areas[j], next),
        selected_area(areas, next) matches Some(area) ==> areas.contains(area) && qualifies(
            area,
            next,
        ),
{
    if exists|j: int| 0 <= j < areas.len() && qualifies(#[trigger] areas[j], next) {
        let j = choose|j: int| 0 <= j < areas.len() && qualifies(#[trigger] areas[j], next);
        let i = lemma_best_upto(areas, next, areas.len() as int, j);
        lemma_selected_is(areas, next, i);
    }
    if selected_area(areas, next) is Some {
        let i = choose|i: int| selects(areas, next, i);
        assert(qualifies(areas[i], next));
    }
}

/// Among the first `n` areas, of which area `j` qualifies, one qualifying
/// area is preferred to all the others that qualify.
proof fn lemma_best_upto(areas: Seq<MemoryArea>, next: nat, n: int, j: int) -> (i: int)
    requires
        0 <= j < n <= areas.len(),
        qualifies(areas[j], next),
    ensures
        0 <= i < n,
        qualifies(areas[i], next),
        forall|k: int| 0 <= k < n && qualifies(#[trigger] areas[k], next) ==> preferred(areas, i, k),
    decreases n,
{
    if j == n - 1 {
        if exists|k: int| 0 <= k < n - 1 && qualifies(#[trigger] areas[k], next) {
            let k = choose|k: int| 0 <= k < n - 1 && qualifies(#[trigger] areas[k], next);
            let b = lemma_best_upto(areas, next, n - 1, k);
            if areas[b].base_addr <= areas[j].base_addr {
                b
            } else {
                j
            }
        } else {
            j
        }
    } else {
        let b = lemma_best_upto(areas, next, n - 1, j);
        if qualifies(areas[n - 1], next) && areas[n - 1].base_addr < areas[b].base_addr {
            n - 1
        } else {
            b
        }
    }
}

} // verus!
