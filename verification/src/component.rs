//! Board components.
use vstd::prelude::*;

use crate::ids::NodeId;
use crate::lumber::LumberSize;

verus! {

/// Direction of the wood grain relative to the board.
#[derive(Clone, Copy, Debug, PartialEq, Eq, Structural)]
pub enum GrainDirection {
    AlongLength,
    AlongWidth,
    AlongHeight,
}

impl Default for GrainDirection {
    fn default() -> (g: GrainDirection)
        ensures
            g == GrainDirection::AlongLength,
    {
        GrainDirection::AlongLength
    }
}

/// Whether a board is cut from stock lumber or to custom dimensions.
pub enum LumberType {
    Standard(LumberSize),
    Custom,
}

/// A board: its node, label, width, height and depth (binary64 bit
/// patterns of inches), lumber and grain direction.
pub struct BoardComponent {
    pub node_id: NodeId,
    pub label: String,
    pub dimensions: [u64; 3],
    pub lumber_type: LumberType,
    pub grain_direction: GrainDirection,
}

impl BoardComponent {
    /// A board of stock lumber cut to `length`: labelled with the lumber's
    /// nominal size, as wide and high as the lumber actually is, grain
    /// along its length.
    pub fn new_standard(node_id: NodeId, lumber: &LumberSize, length: u64) -> (b: BoardComponent)
        ensures
            b.node_id == node_id,
            b.label == lumber.nominal_label,
            b.dimensions@ == seq![lumber.actual_width, lumber.actual_height, length],
            b.lumber_type == LumberType::Standard(*lumber),
            b.grain_direction == GrainDirection::AlongLength,
    {
        let label = lumber.nominal_label.clone();
        let dimensions = [lumber.actual_width, lumber.actual_height, length];
        BoardComponent {
            node_id,
            label,
            dimensions,
            lumber_type: LumberType::Standard(lumber.duplicate()),
            grain_direction: GrainDirection::default(),
        }
    }

    /// A board cut to custom dimensions, grain along its length.
    pub fn new_custom(node_id: NodeId, label: String, width: u64, height: u64, depth: u64) -> (b: BoardComponent)
        ensures
            b.node_id == node_id,
            b.label == label,
            b.dimensions@ == seq![width, height, depth],
            b.lumber_type == LumberType::Custom,
            b.grain_direction == GrainDirection::AlongLength,
    {
        BoardComponent {
            node_id,
            label,
            dimensions: [width, height, depth],
            lumber_type: LumberType::Custom,
            grain_direction: GrainDirection::default(),
        }
    }
}

} // verus!
