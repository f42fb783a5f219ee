//! The two-state pan mode that selects how input drives the gizmo rig, and the
//! press-edge detection that is the only thing allowed to flip it.

use vstd::prelude::*;

verus! {

/// How yaw and pitch are controlled: continuously by the pointer, or by discrete key steps.
#[derive(Clone, Copy, Debug, PartialEq, Eq, Structural, Hash)]
pub enum Pan {
    Mouse,
    Keys,
}

impl Pan {
    /// The other mode.
    pub open spec fn flipped(self) -> Pan {
        match self {
            Pan::Mouse => Pan::Keys,
            Pan::Keys => Pan::Mouse,
        }
    }

    /// The mode that follows a frame: flipped when the toggle key's press edge
    /// fired in that frame, unchanged otherwise.
    pub open spec fn after(self, toggle_edge: bool) -> Pan {
        if toggle_edge {
            self.flipped()
        } else {
            self
        }
    }

    /// The mode a session starts in.
    pub fn initial() -> (mode: Pan)
        ensures
            mode == Pan::Keys,
    {
        Pan::Keys
    }

    /// Returns the other mode.
    pub fn toggled(self) -> (next: Pan)
        ensures
            next == self.flipped(),
    {
        match self {
            Pan::Mouse => Pan::Keys,
            Pan::Keys => Pan::Mouse,
        }
    }

    /// Advances the mode over one frame, given whether the toggle key's press
    /// edge fired in it. There is no guard: an edge always flips the mode.
    pub fn advance(self, toggle_edge: bool) -> (next: Pan)
        ensures
            next == self.after(toggle_edge),
    {
        if toggle_edge {
            self.toggled()
        } else {
            self
        }
    }
}

impl Default for Pan {
    fn default() -> (mode: Pan)
        ensures
            mode == Pan::Keys,
    {
        Pan::Keys
    }
}

/// Turns the sampled level of one key (held or not) into press edges.
///
/// An edge is reported only for the sample in which the key goes from released
/// to held; further samples of a key that stays held report none.
#[derive(Clone, Copy, Debug, PartialEq, Eq, Structural, Hash)]
pub struct KeyLatch {
    /// Whether the key was held at the last sample.
    pub down: bool,
}

impl KeyLatch {
    /// Whether sampling `down` now is a press edge.
    pub open spec fn rises(self, down: bool) -> bool {
        down && !self.down
    }

    /// The latch after sampling `down`.
    pub open spec fn sampled(self, down: bool) -> KeyLatch {
        KeyLatch { down }
    }

    /// A latch for a key that has not been held yet.
    pub fn new() -> (latch: KeyLatch)
        ensures
            !latch.down,
    {
        KeyLatch { down: false }
    }

    /// Records the key's current level and reports whether this sample is a
    /// press edge.
    pub fn sample(&mut self, down: bool) -> (edge: bool)
        ensures
            edge == old(self).rises(down),
            *final(self) == old(self).sampled(down),
    {
        let edge = down && !self.down;
        self.down = down;
        edge
    }
}

/// Flipping twice returns to the starting mode, and a single flip always leaves it.
pub proof fn lemma_flip_is_an_involution(mode: Pan)
    ensures
        mode.flipped().flipped() == mode,
        mode.flipped() != mode,
{
}

/// One press is one toggle: when the toggle key is sampled as held in two
/// successive frames, only the first sample is an edge, so the mode after both
/// frames is the mode after the first.
pub proof fn lemma_held_key_toggles_once(latch: KeyLatch, mode: Pan)
    ensures
        !latch.sampled(true).rises(true),
        mode.after(latch.rises(true)).after(latch.sampled(true).rises(true)) == mode.after(
            latch.rises(true),
        ),
        !latch.down ==> mode.after(latch.rises(true)).after(latch.sampled(true).rises(true))
            == mode.flipped(),
{
}

/// A key that is released and pressed again toggles a second time, which
/// restores the starting mode.
pub proof fn lemma_two_presses_restore(latch: KeyLatch, mode: Pan)
    requires
        !latch.down,
    ensures
        ({
            let first = latch.rises(true);
            let released = latch.sampled(true).sampled(false);
            let second = released.rises(true);
            mode.after(first).after(second) == mode
        }),
{
}

} // verus!
