//! Navigation mesh data: polygons of the walkable surface, their flags
//! and links, and the kinds of scripted movement over them.
//!
//! The geometry itself (positions, path search, movement) works on
//! floating-point coordinates and lives outside this library.
use vstd::prelude::*;

verus! {

/// No-neighbor sentinel for navmesh polygon edges.
pub const NO_NEIGHBOR: usize = usize::MAX;

/// Surface type flags for navmesh polygons.
#[derive(Debug, Clone, Copy, PartialEq, Eq, Structural)]
pub struct NavFlags {
    /// Standard walkable ground.
    pub walkable: bool,
    /// Water surface (swimming).
    pub water: bool,
    /// Too steep to walk (blocked).
    pub steep: bool,
    /// Indoor area (WMO interior).
    pub indoor: bool,
}

impl Default for NavFlags {
    fn default() -> (f: Self)
        ensures
            !f.walkable,
            !f.water,
            !f.steep,
            !f.indoor,
    {
        NavFlags { walkable: false, water: false, steep: false, indoor: false }
    }
}

/// A convex polygon in the navmesh. Entities can walk anywhere within it.
#[derive(Debug, Clone, PartialEq)]
pub struct NavPolygon {
    /// Unique polygon ID within the tile.
    pub id: u32,
    /// Vertex indices into the tile's vertex list.
    pub vertices: Vec<u16>,
    /// Indices of adjacent polygons (for graph traversal). One per edge.
    /// `NO_NEIGHBOR` (`usize::MAX`) = no neighbor (boundary edge).
    pub neighbors: Vec<usize>,
    /// Surface flags (walkable, water, steep, etc.).
    pub flags: NavFlags,
}

/// Type of forced movement.
#[derive(Debug, Clone, Copy, PartialEq, Eq, Structural)]
pub enum ForcedMoveType {
    /// Fear: run in a random direction, changing direction periodically.
    Fear,
    /// Knockback: single push in a fixed direction.
    Knockback,
}

/// Type of direct-line movement.
#[derive(Debug, Clone, Copy, PartialEq, Eq, Structural)]
pub enum DirectMoveType {
    /// Charge: rush to a target (Warrior Charge). Stops at target.
    Charge,
    /// Leap: jump to a location (Heroic Leap). Lands at destination.
    Leap,
}

} // verus!
