//! Snapping kinds.
use vstd::prelude::*;

verus! {

/// What a proposed position snapped to.
#[derive(Clone, Copy, Debug, PartialEq, Eq, Structural)]
pub enum SnapType {
    Grid,
    Face,
    Edge,
    /// Nothing to snap to.
    NoSnap,
}

} // verus!
