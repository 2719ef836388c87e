//! The per-frame entry point's own state.
use vstd::prelude::*;

verus! {

/// Remembers whether the first frame, which loads textures and scenes, has
/// run.
pub struct ApiEntryPoint {
    first_loop: bool,
}

impl ApiEntryPoint {
    /// Whether the loading frame is still to come.
    pub closed spec fn pending_first_loop(&self) -> bool {
        self.first_loop
    }

    pub fn new() -> (r: Self)
        ensures
            r.pending_first_loop(),
    {
        ApiEntryPoint { first_loop: true }
    }

    pub fn is_first_loop(&self) -> (r: bool)
        ensures
            r == self.pending_first_loop(),
    {
        self.first_loop
    }

    /// Records that the loading frame has run.
    pub fn finish_first_loop(&mut self)
        ensures
            !final(self).pending_first_loop(),
    {
        self.first_loop = false;
    }
}

} // verus!
