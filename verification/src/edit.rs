use vstd::prelude::*;
use std::collections::BTreeMap;
use crate::schema::RenderedFaces;
use crate::schema::Stroke;

verus! {

/// An id in an edit request: a resolved numeric local id, or a temporary
/// textual id that resolution replaces with a number.
#[derive(Debug, Clone, PartialEq, Eq, PartialOrd, Ord, Hash)]
pub enum Id {
    Number(u32),
    Text(String),
}

/// A material as an edit request carries it.
#[derive(Debug, Clone, PartialEq)]
pub struct RawMaterial {
    pub r: u8,
    pub g: u8,
    pub b: u8,
    pub a: u8,
    pub rendered_faces: RenderedFaces,
    pub stroke: Stroke,
}

/// A relation row as an edit request carries it.
#[derive(Debug, Clone, PartialEq)]
pub struct RawRelationData {
    pub data: BTreeMap<String, Vec<u32>>,
}

/// A sample whose references are already resolved to numbers.
#[derive(Debug, Clone, PartialEq)]
pub struct RawSample {
    pub item: u32,
    pub material: u32,
    pub representation: u32,
    pub local_transform: u32,
}

/// A sample whose references may still be temporary ids.
#[derive(Debug, Clone, PartialEq)]
pub struct SampleRequestData {
    pub item: Id,
    pub material: Id,
    pub representation: Id,
    pub local_transform: Id,
}

/// Placeholder for a mesh geometry resource.
#[derive(Debug, Clone, PartialEq, Eq, Structural)]
pub struct BufferGeometry;

/// Placeholder for a mesh material resource.
#[derive(Debug, Clone, PartialEq, Eq, Structural)]
pub struct MeshLambertMaterial;

/// A resource given by value or referenced by id.
#[derive(Debug, Clone, PartialEq)]
pub enum ResourceRef<T> {
    Value(T),
    Id(Id),
}

/// Every kind of edit request.
#[derive(Debug, Clone, Copy, PartialEq, Eq, Structural)]
pub enum EditRequestType {
    CreateMaterial,
    CreateRepresentation,
    CreateSample,
    CreateGlobalTransform,
    CreateLocalTransform,
    CreateItem,
    CreateRelation,
    UpdateMaterial,
    UpdateRepresentation,
    UpdateSample,
    UpdateGlobalTransform,
    UpdateLocalTransform,
    UpdateItem,
    UpdateMaxLocalId,
    UpdateRelation,
    UpdateMetadata,
    UpdateSpatialStructure,
    DeleteMaterial,
    DeleteRepresentation,
    DeleteSample,
    DeleteGlobalTransform,
    DeleteLocalTransform,
    DeleteItem,
    DeleteRelation,
}

/// The kinds of raw data an edit request can address.
#[derive(Debug, Clone, Copy, PartialEq, Eq, Structural)]
pub enum EditKey {
    Material,
    GlobalTransform,
    LocalTransform,
    Sample,
    Item,
    Representation,
    Relation,
}

/// The singleton data slots an edit request can address.
#[derive(Debug, Clone, Copy, PartialEq, Eq, Structural)]
pub enum SpecialKey {
    Metadata,
    SpatialStructure,
}

/// A node of a spatial tree sent in an edit request.
#[derive(Debug)]
pub struct SpatialTreeItem {
    pub local_id: Option<u32>,
    pub category: Option<String>,
    pub children: Vec<SpatialTreeItem>,
}

/// What every edit request carries: its kind and an optional temporary id.
#[derive(Debug, Clone, PartialEq, Eq)]
pub struct BaseEditRequest {
    pub request_type: EditRequestType,
    pub temp_id: Option<String>,
}

/// The base of an update request: the target's local id.
#[derive(Debug, Clone, PartialEq, Eq)]
pub struct BaseUpdateRequest {
    pub base: BaseEditRequest,
    pub local_id: Id,
}

#[derive(Debug, Clone, PartialEq)]
pub struct UpdateMaterialRequest {
    pub base: BaseUpdateRequest,
    pub data: RawMaterial,
}

#[derive(Debug, Clone, PartialEq)]
pub struct UpdateSampleRequest {
    pub base: BaseUpdateRequest,
    pub data: SampleRequestData,
}

#[derive(Debug, Clone, PartialEq, Eq)]
pub struct UpdateMaxLocalIdRequest {
    pub base: BaseUpdateRequest,
}

#[derive(Debug, Clone, PartialEq)]
pub struct UpdateRelationRequest {
    pub base: BaseUpdateRequest,
    pub data: RawRelationData,
}

#[derive(Debug)]
pub struct UpdateSpatialStructureRequest {
    pub base: BaseUpdateRequest,
    pub data: SpatialTreeItem,
}

/// The base of a create request: the local id, once assigned.
#[derive(Debug, Clone, PartialEq, Eq)]
pub struct BaseCreateRequest {
    pub base: BaseEditRequest,
    pub local_id: Option<Id>,
}

#[derive(Debug, Clone, PartialEq)]
pub struct CreateSampleRequest {
    pub base: BaseCreateRequest,
    pub data: SampleRequestData,
}

#[derive(Debug, Clone, PartialEq)]
pub struct CreateMaterialRequest {
    pub base: BaseCreateRequest,
    pub data: RawMaterial,
}

#[derive(Debug, Clone, PartialEq)]
pub struct CreateRelationRequest {
    pub base: BaseCreateRequest,
    pub data: RawRelationData,
}

#[derive(Debug, Clone, PartialEq, Eq)]
pub struct DeleteRequest {
    pub base: BaseUpdateRequest,
}

/// Marker for the edit helpers; the request reconciliation itself works on
/// the caller's raw float payloads and lives with the caller.
#[derive(Debug, Clone, Copy, PartialEq, Eq, Structural)]
pub struct EditUtils;

/// The display name of each request kind.
pub open spec fn edit_request_type_name_spec(request_type: EditRequestType) -> &'static str {
    match request_type {
        EditRequestType::CreateMaterial => "Create Material",
        EditRequestType::CreateRepresentation => "Create Representation",
        EditRequestType::CreateSample => "Create Sample",
        EditRequestType::CreateGlobalTransform => "Create Global Transform",
        EditRequestType::CreateLocalTransform => "Create Local Transform",
        EditRequestType::CreateItem => "Create Item",
        EditRequestType::CreateRelation => "Create Relation",
        EditRequestType::UpdateMaterial => "Update Material",
        EditRequestType::UpdateRepresentation => "Update Representation",
        EditRequestType::UpdateSample => "Update Sample",
        EditRequestType::UpdateGlobalTransform => "Update Global Transform",
        EditRequestType::UpdateLocalTransform => "Update Local Transform",
        EditRequestType::UpdateItem => "Update Item",
        EditRequestType::UpdateMaxLocalId => "Update Max Local Id",
        EditRequestType::UpdateRelation => "Update Relation",
        EditRequestType::UpdateMetadata => "Update Metadata",
        EditRequestType::UpdateSpatialStructure => "Update Spatial Structure",
        EditRequestType::DeleteMaterial => "Delete Material",
        EditRequestType::DeleteRepresentation => "Delete Representation",
        EditRequestType::DeleteSample => "Delete Sample",
        EditRequestType::DeleteGlobalTransform => "Delete Global Transform",
        EditRequestType::DeleteLocalTransform => "Delete Local Transform",
        EditRequestType::DeleteItem => "Delete Item",
        EditRequestType::DeleteRelation => "Delete Relation",
    }
}

/// The display name of a request kind.
pub fn edit_request_type_name(request_type: EditRequestType) -> (r: &'static str)
    ensures
        r == edit_request_type_name_spec(request_type),
{
    match request_type {
        EditRequestType::CreateMaterial => "Create Material",
        EditRequestType::CreateRepresentation => "Create Representation",
        EditRequestType::CreateSample => "Create Sample",
        EditRequestType::CreateGlobalTransform => "Create Global Transform",
        EditRequestType::CreateLocalTransform => "Create Local Transform",
        EditRequestType::CreateItem => "Create Item",
        EditRequestType::CreateRelation => "Create Relation",
        EditRequestType::UpdateMaterial => "Update Material",
        EditRequestType::UpdateRepresentation => "Update Representation",
        EditRequestType::UpdateSample => "Update Sample",
        EditRequestType::UpdateGlobalTransform => "Update Global Transform",
        EditRequestType::UpdateLocalTransform => "Update Local Transform",
        EditRequestType::UpdateItem => "Update Item",
        EditRequestType::UpdateMaxLocalId => "Update Max Local Id",
        EditRequestType::UpdateRelation => "Update Relation",
        EditRequestType::UpdateMetadata => "Update Metadata",
        EditRequestType::UpdateSpatialStructure => "Update Spatial Structure",
        EditRequestType::DeleteMaterial => "Delete Material",
        EditRequestType::DeleteRepresentation => "Delete Representation",
        EditRequestType::DeleteSample => "Delete Sample",
        EditRequestType::DeleteGlobalTransform => "Delete Global Transform",
        EditRequestType::DeleteLocalTransform => "Delete Local Transform",
        EditRequestType::DeleteItem => "Delete Item",
        EditRequestType::DeleteRelation => "Delete Relation",
    }
}

/// The number the table maps a temporary id text to, taking the first
/// entry with that text.
pub open spec fn temp_id_lookup(table: Seq<(String, u32)>, name: Seq<char>) -> Option<u32>
    decreases table.len(),
{
    if table.len() == 0 {
        None
    } else if table[0].0@ == name {
        Some(table[0].1)
    } else {
        temp_id_lookup(table.skip(1), name)
    }
}

/// Whether an id can be resolved against the table: numbers always, a text
/// only when the table maps it.
pub open spec fn resolvable(id: Id, table: Seq<(String, u32)>) -> bool {
    match id {
        Id::Number(_) => true,
        Id::Text(s) => temp_id_lookup(table, s@) is Some,
    }
}

/// The id after resolution: numbers stay, a text becomes the number the
/// table maps it to.
pub open spec fn resolve_id(id: Id, table: Seq<(String, u32)>) -> Id {
    match id {
        Id::Number(n) => Id::Number(n),
        Id::Text(s) => match temp_id_lookup(table, s@) {
            Some(n) => Id::Number(n),
            None => Id::Text(s),
        },
    }
}

/// Replaces every temporary id of the sample with the number the table
/// maps it to.  Every temporary id must be present in the table; a request
/// naming an unknown temporary id is malformed.
pub fn solve_sample_temp_id(sample: &mut SampleRequestData, temp_ids_to_local_ids: &Vec<(String, u32)>)
    requires
        resolvable(old(sample).item, temp_ids_to_local_ids@),
        resolvable(old(sample).material, temp_ids_to_local_ids@),
        resolvable(old(sample).representation, temp_ids_to_local_ids@),
        resolvable(old(sample).local_transform, temp_ids_to_local_ids@),
    ensures
        final(sample).item == resolve_id(old(sample).item, temp_ids_to_local_ids@),
        final(sample).material == resolve_id(old(sample).material, temp_ids_to_local_ids@),
        final(sample).representation == resolve_id(
            old(sample).representation,
            temp_ids_to_local_ids@,
        ),
        final(sample).local_transform == resolve_id(
            old(sample).local_transform,
            temp_ids_to_local_ids@,
        ),
{
    solve_one_id(&mut sample.item, temp_ids_to_local_ids);
    solve_one_id(&mut sample.material, temp_ids_to_local_ids);
    solve_one_id(&mut sample.representation, temp_ids_to_local_ids);
    solve_one_id(&mut sample.local_transform, temp_ids_to_local_ids);
}

/// Replaces one temporary id with its number from the table.
fn solve_one_id(id: &mut Id, table: &Vec<(String, u32)>)
    requires
        resolvable(*old(id), table@),
    ensures
        *final(id) == resolve_id(*old(id), table@),
{
    let is_text = match &*id {
        Id::Text(_) => true,
        Id::Number(_) => false,
    };
    if !is_text {
        return;
    }
    let text_lookup = match &*id {
        Id::Text(text) => lookup_temp_id(table, text),
        Id::Number(_) => None,
    };
    match text_lookup {
        Some(n) => {
            *id = Id::Number(n);
        },
        None => {},
    }
}

/// Scans the table for the first entry with this text.
pub fn lookup_temp_id(table: &Vec<(String, u32)>, name: &String) -> (r: Option<u32>)
    ensures
        r == temp_id_lookup(table@, name@),
{
    let mut i: usize = 0;
    proof {
        assert(table@.skip(0) =~= table@);
    }
    while i < table.len()
        invariant
            0 <= i <= table@.len(),
            temp_id_lookup(table@, name@) == temp_id_lookup(table@.skip(i as int), name@),
        decreases table@.len() - i,
    {
        proof {
            assert(table@.skip(i as int)[0] == table@[i as int]);
        }
        let hit = table[i].0 == *name;
        if hit {
            return Some(table[i].1);
        }
        proof {
            assert(table@.skip(i as int).skip(1) =~= table@.skip(i + 1));
        }
        i = i + 1;
    }
    proof {
        assert(table@.skip(table@.len() as int).len() == 0);
    }
    None
}

} // verus!
