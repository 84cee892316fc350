pub mod edge;
pub mod face;
pub mod faces;
pub mod laws;
pub mod plane;
pub mod point;
pub mod points;
pub mod profile;
pub mod profiles;

use vstd::prelude::*;

verus! {

/// A shell whose deduplicated point count exceeds this threshold is stored
/// with wide (32-bit) point indices instead of narrow (16-bit) ones.
pub const USHORT_MAX_VALUE: usize = 65_000;

/// Whether a shell with `point_count` deduplicated points needs the wide
/// (32-bit) index representation.
pub fn needs_big_indices(point_count: usize) -> (r: bool)
    ensures
        r == (point_count > USHORT_MAX_VALUE),
{
    point_count > USHORT_MAX_VALUE
}

} // verus!
