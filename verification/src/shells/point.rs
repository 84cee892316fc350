use vstd::prelude::*;

verus! {

/// Largest coordinate magnitude a registered point may carry.  Keeping every
/// coordinate within this bound lets the shoelace area sums stay inside
/// `i128` for any number of boundary points.
pub const COORD_LIMIT: i64 = 1_000_000_000;

/// Canonical identity of a deduplicated point: its three rounded coordinates.
/// Two points are the same exactly when their rounded coordinates agree.
#[derive(Debug, Clone, Copy, PartialEq, Eq, Structural)]
pub struct PointKey {
    pub x: i64,
    pub y: i64,
    pub z: i64,
}

/// A deduplicated vertex.  Coordinates are already rounded to the configured
/// precision and scaled to integers; `id` is the sequential number the
/// registry assigned at first insertion.
#[derive(Debug, Clone, Copy, PartialEq, Eq, Structural)]
pub struct Point {
    pub x: i64,
    pub y: i64,
    pub z: i64,
    pub id: usize,
}

impl Point {
    /// The identity key of this point, as a spec-level value.
    pub open spec fn key_spec(self) -> PointKey {
        PointKey { x: self.x, y: self.y, z: self.z }
    }

    /// Whether every coordinate lies within `COORD_LIMIT`.
    pub open spec fn in_range(self) -> bool {
        &&& -COORD_LIMIT <= self.x <= COORD_LIMIT
        &&& -COORD_LIMIT <= self.y <= COORD_LIMIT
        &&& -COORD_LIMIT <= self.z <= COORD_LIMIT
    }

    pub fn new(x: i64, y: i64, z: i64, id: usize) -> (r: Point)
        ensures
            r == (Point { x, y, z, id }),
    {
        Point { x, y, z, id }
    }

    /// The identity key of this point; points with equal rounded coordinates
    /// share one key, whatever their ids.
    pub fn hash(&self) -> (r: PointKey)
        ensures
            r == self.key_spec(),
    {
        PointKey { x: self.x, y: self.y, z: self.z }
    }
}

} // verus!
