use vstd::prelude::*;
use crate::shells::point::COORD_LIMIT;

verus! {

/// Canonical identity of a geometric plane: the three rounded components of
/// its unit normal and its rounded planar constant.  Two triangles whose
/// normals and constants round to the same values share one key.
#[derive(Debug, Clone, Copy, PartialEq, Eq, Structural)]
pub struct PlaneKey {
    pub nx: i64,
    pub ny: i64,
    pub nz: i64,
    pub constant: i64,
}

/// Identity for a geometric plane.  The normal components and the constant
/// are already rounded (each to its own configured precision) and scaled to
/// integers by the caller; `id` is the canonical key built from them.
/// `faces` records which face ids currently reference this plane; it is
/// informational and not used for correctness.
#[derive(Debug, Clone)]
pub struct Plane {
    pub nx: i64,
    pub ny: i64,
    pub nz: i64,
    pub constant: i64,
    pub id: PlaneKey,
    pub faces: Vec<usize>,
}

/// Mathematical identity of a plane: everything but the informational
/// `faces` row.
pub ghost struct PlaneView {
    pub nx: int,
    pub ny: int,
    pub nz: int,
    pub constant: int,
    pub id: PlaneKey,
}

impl View for Plane {
    type V = PlaneView;

    open spec fn view(&self) -> PlaneView {
        PlaneView {
            nx: self.nx as int,
            ny: self.ny as int,
            nz: self.nz as int,
            constant: self.constant as int,
            id: self.id,
        }
    }
}

impl Plane {
    /// Whether the components are small enough for the area projection
    /// arithmetic (absolute values and products stay representable).
    pub open spec fn in_range(self) -> bool {
        &&& -COORD_LIMIT <= self.nx <= COORD_LIMIT
        &&& -COORD_LIMIT <= self.ny <= COORD_LIMIT
        &&& -COORD_LIMIT <= self.nz <= COORD_LIMIT
    }

    /// Builds the plane identity from rounded components.  Planes built from
    /// equal rounded components always carry equal ids.
    pub fn new(nx: i64, ny: i64, nz: i64, constant: i64) -> (r: Plane)
        ensures
            r.nx == nx && r.ny == ny && r.nz == nz && r.constant == constant,
            r.id == (PlaneKey { nx, ny, nz, constant }),
            r.faces@ == Seq::<usize>::empty(),
    {
        Plane { nx, ny, nz, constant, id: PlaneKey { nx, ny, nz, constant }, faces: Vec::new() }
    }
}

} // verus!
