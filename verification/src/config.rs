//! Settings that the configuration file holds.
use vstd::prelude::*;

verus! {

/// The screen edge that the deck sits on.
#[derive(Clone, Copy, Debug, PartialEq, Eq, Structural)]
pub enum ScreenEdge {
    Left,
    Right,
    Top,
    Bottom,
}

impl Default for ScreenEdge {
    /// The deck sits on the right edge unless configured otherwise.
    fn default() -> (edge: Self)
        ensures
            edge == ScreenEdge::Right,
    {
        ScreenEdge::Right
    }
}

} // verus!
