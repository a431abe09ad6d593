//! The drawing overlay's registration.
use vstd::prelude::*;

verus! {

/// Whether the overlay's frame callback was registered.
pub struct Overlay {
    started: bool,
}

impl View for Overlay {
    type V = bool;

    closed spec fn view(&self) -> bool {
        self.started
    }
}

impl Overlay {
    /// Not started.
    pub fn new() -> (r: Self)
        ensures
            !r@,
    {
        Overlay { started: false }
    }

    /// Marks the overlay started; the result says whether this call is the
    /// first, the one that registers the frame callback.
    pub fn start(&mut self) -> (first: bool)
        ensures
            first == !old(self)@,
            final(self)@,
    {
        let was = self.started;
        self.started = true;
        !was
    }
}

} // verus!
