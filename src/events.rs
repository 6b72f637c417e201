use vstd::prelude::*;

verus! {

/// Sent to the window when the tray menu pins or unpins it.
#[derive(Clone, Copy, Debug, PartialEq, Eq, Structural)]
pub struct PinnedFromTrayEvent {
    pinned: bool,
}

impl PinnedFromTrayEvent {
    pub closed spec fn spec_pinned(&self) -> bool {
        self.pinned
    }

    pub fn new(pinned: bool) -> (r: Self)
        ensures
            r.spec_pinned() == pinned,
    {
        PinnedFromTrayEvent { pinned }
    }

    /// Whether the window is now kept on top.
    pub fn pinned(&self) -> (r: &bool)
        ensures
            *r == self.spec_pinned(),
    {
        &self.pinned
    }
}

/// Sent by the window when the user pins or unpins it there.
#[derive(Clone, Copy, Debug, PartialEq, Eq, Structural)]
pub struct PinnedFromWindowEvent {
    pinned: bool,
}

impl PinnedFromWindowEvent {
    pub closed spec fn spec_pinned(&self) -> bool {
        self.pinned
    }

    pub fn new(pinned: bool) -> (r: Self)
        ensures
            r.spec_pinned() == pinned,
    {
        PinnedFromWindowEvent { pinned }
    }

    /// Whether the window is now kept on top.
    pub fn pinned(&self) -> (r: &bool)
        ensures
            *r == self.spec_pinned(),
    {
        &self.pinned
    }
}

} // verus!
