use vstd::prelude::*;

verus! {

/// A slot index plus a generation counter naming an element of a reserved
/// GPU buffer.  A slot of `u16::MAX` marks a handle that names nothing.
#[derive(Clone, Copy, Debug, PartialEq, Eq, Structural)]
pub struct Handle {
    pub slot: u16,
    pub generation: u16,
}

impl Handle {
    pub open spec fn is_valid(&self) -> bool {
        self.slot != u16::MAX
    }

    pub fn new(slot: u16, generation: u16) -> (h: Handle)
        ensures
            h.slot == slot,
            h.generation == generation,
    {
        Handle { slot, generation }
    }

    /// The handle that names no element.
    pub fn invalid() -> (h: Handle)
        ensures
            h.slot == u16::MAX,
            h.generation == u16::MAX,
            !h.is_valid(),
    {
        Handle { slot: u16::MAX, generation: u16::MAX }
    }

    #[verifier::when_used_as_spec(is_valid)]
    pub fn valid(&self) -> (b: bool)
        ensures
            b == self.is_valid(),
    {
        self.slot != u16::MAX
    }
}

} // verus!
