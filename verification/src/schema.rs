use vstd::prelude::*;

verus! {

/// Which part of an axis an entry describes.
#[derive(Debug, Clone, Copy, PartialEq, Eq, Structural)]
pub enum AxisPartClass {
    Unset,
    Wire,
    WireSet,
    CircleCurve,
}

impl Default for AxisPartClass {
    fn default() -> (r: Self)
        ensures
            r == AxisPartClass::Unset,
    {
        AxisPartClass::Unset
    }
}

/// How many sides of a face are rendered.
#[derive(Debug, Clone, Copy, PartialEq, Eq, Structural)]
pub enum RenderedFaces {
    One,
    Two,
}

impl Default for RenderedFaces {
    fn default() -> (r: Self)
        ensures
            r == RenderedFaces::One,
    {
        RenderedFaces::One
    }
}

/// The kind of geometry a representation carries.
#[derive(Debug, Clone, Copy, PartialEq, Eq, Structural)]
pub enum RepresentationClass {
    Unset,
    Shell,
    CircleExtrusion,
}

impl Default for RepresentationClass {
    fn default() -> (r: Self)
        ensures
            r == RepresentationClass::Unset,
    {
        RepresentationClass::Unset
    }
}

/// Whether a shell uses the narrow or the wide index layout.
#[derive(Debug, Clone, Copy, PartialEq, Eq, Structural)]
pub enum ShellType {
    Unset,
    Big,
}

impl Default for ShellType {
    fn default() -> (r: Self)
        ensures
            r == ShellType::Unset,
    {
        ShellType::Unset
    }
}

/// The stroke style a material draws edges with.
#[derive(Debug, Clone, Copy, PartialEq, Eq, Structural)]
pub enum Stroke {
    Default,
    Dashed,
    Dotted,
}

impl Default for Stroke {
    fn default() -> (r: Self)
        ensures
            r == Stroke::Default,
    {
        Stroke::Default
    }
}

/// A row of attribute strings belonging to one item.
#[derive(Debug, Clone, PartialEq, Eq)]
pub struct Attribute {
    pub data: Vec<String>,
}

impl Attribute {
    pub fn new(data: Vec<String>) -> (r: Self)
        ensures
            r.data == data,
    {
        Attribute { data }
    }
}

impl Default for Attribute {
    fn default() -> (r: Self)
        ensures
            r.data@ == Seq::<String>::empty(),
    {
        Attribute { data: Vec::new() }
    }
}

/// A hole of a wide-indexed shell: its point indices and the profile it
/// belongs to.
#[derive(Debug, Clone, PartialEq, Eq)]
pub struct BigShellHole {
    pub indices: Vec<u32>,
    pub profile_id: u16,
}

impl BigShellHole {
    pub fn new(indices: Vec<u32>, profile_id: u16) -> (r: Self)
        ensures
            r.indices == indices,
            r.profile_id == profile_id,
    {
        BigShellHole { indices, profile_id }
    }
}

impl Default for BigShellHole {
    fn default() -> (r: Self)
        ensures
            r.indices@ == Seq::<u32>::empty(),
            r.profile_id == 0,
    {
        BigShellHole { indices: Vec::new(), profile_id: 0 }
    }
}

/// The outer boundary of a face in a wide-indexed shell.
#[derive(Debug, Clone, PartialEq, Eq)]
pub struct BigShellProfile {
    pub indices: Vec<u32>,
}

impl BigShellProfile {
    pub fn new(indices: Vec<u32>) -> (r: Self)
        ensures
            r.indices == indices,
    {
        BigShellProfile { indices }
    }
}

impl Default for BigShellProfile {
    fn default() -> (r: Self)
        ensures
            r.indices@ == Seq::<u32>::empty(),
    {
        BigShellProfile { indices: Vec::new() }
    }
}

/// A material: an RGBA colour, which faces are rendered, and the stroke.
#[derive(Debug, Clone, Copy, PartialEq, Eq, Structural)]
pub struct Material {
    pub r: u8,
    pub g: u8,
    pub b: u8,
    pub a: u8,
    pub rendered_faces: RenderedFaces,
    pub stroke: Stroke,
}

impl Material {
    pub fn new(r: u8, g: u8, b: u8, a: u8, rendered_faces: RenderedFaces, stroke: Stroke) -> (m:
        Self)
        ensures
            m == (Material { r, g, b, a, rendered_faces, stroke }),
    {
        Material { r, g, b, a, rendered_faces, stroke }
    }
}

impl Default for Material {
    fn default() -> (m: Self)
        ensures
            m == (Material {
                r: 0u8,
                g: 0u8,
                b: 0u8,
                a: 255u8,
                rendered_faces: RenderedFaces::One,
                stroke: Stroke::Default,
            }),
    {
        Material {
            r: 0,
            g: 0,
            b: 0,
            a: 255,
            rendered_faces: RenderedFaces::One,
            stroke: Stroke::Default,
        }
    }
}

/// A row of relation strings belonging to one item.
#[derive(Debug, Clone, PartialEq, Eq)]
pub struct Relation {
    pub data: Vec<String>,
}

impl Relation {
    pub fn new(data: Vec<String>) -> (r: Self)
        ensures
            r.data == data,
    {
        Relation { data }
    }
}

impl Default for Relation {
    fn default() -> (r: Self)
        ensures
            r.data@ == Seq::<String>::empty(),
    {
        Relation { data: Vec::new() }
    }
}

/// One drawable instance: an item with its material, representation and
/// local transform, all by id.
#[derive(Debug, Clone, Copy, PartialEq, Eq, Structural)]
pub struct Sample {
    pub item: u32,
    pub material: u32,
    pub representation: u32,
    pub local_transform: u32,
}

impl Sample {
    pub fn new(item: u32, material: u32, representation: u32, local_transform: u32) -> (r: Self)
        ensures
            r == (Sample { item, material, representation, local_transform }),
    {
        Sample { item, material, representation, local_transform }
    }
}

impl Default for Sample {
    fn default() -> (r: Self)
        ensures
            r == (Sample { item: 0u32, material: 0u32, representation: 0u32, local_transform: 0u32 }),
    {
        Sample { item: 0, material: 0, representation: 0, local_transform: 0 }
    }
}

/// A hole of a narrow-indexed shell.
#[derive(Debug, Clone, PartialEq, Eq)]
pub struct ShellHole {
    pub indices: Vec<u16>,
    pub profile_id: u16,
}

impl ShellHole {
    pub fn new(indices: Vec<u16>, profile_id: u16) -> (r: Self)
        ensures
            r.indices == indices,
            r.profile_id == profile_id,
    {
        ShellHole { indices, profile_id }
    }
}

impl Default for ShellHole {
    fn default() -> (r: Self)
        ensures
            r.indices@ == Seq::<u16>::empty(),
            r.profile_id == 0,
    {
        ShellHole { indices: Vec::new(), profile_id: 0 }
    }
}

/// The outer boundary of a face in a narrow-indexed shell.
#[derive(Debug, Clone, PartialEq, Eq)]
pub struct ShellProfile {
    pub indices: Vec<u16>,
}

impl ShellProfile {
    pub fn new(indices: Vec<u16>) -> (r: Self)
        ensures
            r.indices == indices,
    {
        ShellProfile { indices }
    }
}

impl Default for ShellProfile {
    fn default() -> (r: Self)
        ensures
            r.indices@ == Seq::<u16>::empty(),
    {
        ShellProfile { indices: Vec::new() }
    }
}

/// A node of the spatial containment tree.
#[derive(Debug)]
pub struct SpatialStructure {
    pub local_id: Option<u32>,
    pub category: Option<String>,
    pub children: Vec<SpatialStructure>,
}

impl SpatialStructure {
    pub fn new(local_id: Option<u32>, category: Option<String>, children: Vec<SpatialStructure>)
        -> (r: Self)
        ensures
            r.local_id == local_id,
            r.category == category,
            r.children == children,
    {
        SpatialStructure { local_id, category, children }
    }
}

impl Default for SpatialStructure {
    fn default() -> (r: Self)
        ensures
            r.local_id is None,
            r.category is None,
            r.children@ == Seq::<SpatialStructure>::empty(),
    {
        SpatialStructure { local_id: None, category: None, children: Vec::new() }
    }
}

} // verus!
