//! Handles that may point at nothing.

use vstd::prelude::*;

verus! {

/// A handle that can be marked as pointing at nothing.
pub trait EntityOpsExt {
    /// The handle points at something.
    spec fn valid(&self) -> bool;

    fn is_valid(&self) -> (valid: bool)
        ensures
            valid == self.valid(),
    ;

    fn invalidate(&mut self)
        ensures
            !final(self).valid(),
    ;
}

/// The handle of a displayed body: a slot in the scene and the generation of
/// its occupant. The highest slot number is reserved for "none".
#[derive(Clone, Copy, Debug, PartialEq, Eq, Structural)]
pub struct BodyEntity {
    pub index: u32,
    pub generation: u32,
}

impl EntityOpsExt for BodyEntity {
    open spec fn valid(&self) -> bool {
        self.index != u32::MAX
    }

    fn is_valid(&self) -> (valid: bool) {
        self.index != u32::MAX
    }

    /// Turns the handle into the one for "none": the reserved slot, in
    /// generation zero.
    fn invalidate(&mut self)
        ensures
            *final(self) == (BodyEntity { index: u32::MAX, generation: 0 }),
    {
        self.index = u32::MAX;
        self.generation = 0;
    }
}

} // verus!
