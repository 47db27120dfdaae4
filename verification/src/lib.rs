//! Deterministic, turn-based 2D arena simulation engine.
//!
//! The engine tracks a tile-grid world of blocking cells, a fixed roster of
//! players, fired bullets and deployable smoke obscurants, and exposes
//! per-tick physics: movement resolution, collision detection, vision
//! raycasting and projectile/smoke lifecycles. A host process decides when
//! to call each operation; the engine owns what happens when it does.
//!
//! All coordinates, lengths and angles are fixed-point integers in
//! milli-units: one grid cell is `SCALE` (1000) milli-units wide, and an
//! angle of one degree is 1000 milli-degrees. Collision predicates compare
//! squared distances, so every geometric answer is exact. Headings are
//! turned into per-tick unit step vectors by the host (trigonometry is
//! floating point and stays outside the verified core); the engine takes
//! the step vector as a pair of milli-unit components.
#![verifier::loop_isolation(false)]

pub mod geometry;
pub mod lifecycle;
pub mod ray;
pub mod world;

use vstd::prelude::*;

verus! {

/// Milli-units per world unit (one grid cell side).
pub const SCALE: i64 = 1000;

/// Side length of one wall cell, in milli-units.
pub const CELL_SIZE: i64 = 1000;

/// Side length of a player's bounding box, in milli-units.
pub const PLAYER_SIZE: i64 = 1000;

/// World envelope: every entity coordinate stays within this magnitude.
/// An entity that would step beyond it is reverted or retired, which keeps
/// all position arithmetic free of overflow.
pub const COORD_LIMIT: i64 = 1_000_000_000_000;

/// Magnitude bound on the arguments of the geometry primitives, far above
/// `COORD_LIMIT`; within it all squared distances fit in 128 bits.
pub const GEOM_LIMIT: i64 = 1_000_000_000_000_000;

/// Magnitude bound on one component of a per-tick step vector. A unit
/// heading vector scaled to milli-units has components in this range.
pub const STEP_LIMIT: i64 = 1000;

/// Maximum number of wall-grid rows, and of cells in one row.
pub const MAX_GRID: usize = 4096;

/// A point within this distance (milli-units) of a wall cell counts as
/// touching it; used only for smoke/wall contact (0.1 of a cell).
pub const NEAR_WALL_TOLERANCE: i64 = 100;

/// Rounds of ammunition a player starts with.
pub const START_AMMO: u8 = 30;

/// Smoke charges a player starts with.
pub const START_SMOKES: u8 = 3;

/// Radius of an opened smoke field, in milli-units (4 cells).
pub const SMOKE_RADIUS: i64 = 4000;

/// Ticks a smoke spends moving before it settles.
pub const SMOKE_MAX_MOVE: u8 = 5;

/// Ticks an opened smoke lingers before it is removed.
pub const SMOKE_MAX_OPEN: u8 = 180;

} // verus!
