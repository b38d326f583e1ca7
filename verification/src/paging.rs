//! Physical addresses and the page size they are measured against.

use vstd::prelude::*;

verus! {

/// Size of one physical page frame, in bytes.
pub const PAGE_SIZE: usize = 4096;

/// An absolute physical byte address.
#[derive(Clone, Copy, Debug, PartialEq, Eq, Structural)]
pub struct PhysicalAddress(usize);

impl View for PhysicalAddress {
    type V = usize;

    closed spec fn view(&self) -> usize {
        self.0
    }
}

impl PhysicalAddress {
    /// Wraps a raw byte address.
    pub fn new(address: usize) -> (r: Self)
        ensures
            r@ == address,
    {
        PhysicalAddress(address)
    }

    /// The raw byte address.
    pub fn get(&self) -> (r: usize)
        ensures
            r == self@,
    {
        self.0
    }
}

} // verus!
