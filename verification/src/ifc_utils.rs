use vstd::prelude::*;

verus! {

/// An IFC product, reduced to the placement reference the placement walk
/// reads.
#[derive(Debug, Clone, PartialEq, Eq, Structural)]
pub struct IfcProduct {
    pub object_placement: u32,
}

/// One link of an IFC placement chain: the local placement and, when the
/// placement is relative, its parent.
#[derive(Debug, Clone, PartialEq, Eq, Structural)]
pub struct IfcObjectPlacement {
    pub relative_placement: u32,
    pub placement_rel_to: Option<u32>,
}

/// An IFC axis placement: a location point and optional axis directions,
/// all by entity id.
#[derive(Debug, Clone, PartialEq, Eq, Structural)]
pub struct IfcAxis2Placement3D {
    pub location: u32,
    pub axis: Option<u32>,
    pub ref_direction: Option<u32>,
}

/// The unit entities one IFC unit assignment groups.
#[derive(Debug, Clone, PartialEq, Eq)]
pub struct IfcUnitAssignment {
    pub units: Vec<u32>,
}

/// One IFC unit: its type, name and prefix, as far as the model names
/// them.
#[derive(Debug, Clone, PartialEq, Eq)]
pub struct IfcUnit {
    pub unit_type: Option<String>,
    pub name: Option<String>,
    pub prefix: Option<String>,
}

/// Marker for the IFC helpers.  The placement-matrix computation itself
/// works on floating-point matrices through the caller's IFC engine and
/// lives with the caller, outside this verified core.
#[derive(Debug, Clone, Copy, PartialEq, Eq, Structural)]
pub struct FragmentsIfcUtils;

} // verus!
