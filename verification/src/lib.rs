//! Verified core of a woodworking design tool: joint catalogue, undo/redo
//! history, cut-list and build-plan logic, and project bookkeeping.
//!
//! Geometry, structural formulas and rendering work on floating point and
//! are not part of this crate; values of that kind that the library only
//! carries around are held as their IEEE-754 bit patterns.
use vstd::prelude::*;

pub mod ids;
pub mod component;
pub mod components;
pub mod cost;
pub mod finish;
pub mod history;
pub mod instructions;
pub mod joinery;
pub mod lumber;
pub mod materials;
pub mod output;
pub mod project;
pub mod scene;
pub mod snap;
pub mod species;
pub mod structural;
pub mod text;
pub mod units;

verus! {

} // verus!
