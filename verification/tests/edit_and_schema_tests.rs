use fragments::edit::Id;
use fragments::edit::EditRequestType;
use fragments::edit::SampleRequestData;
use fragments::edit::edit_request_type_name;
use fragments::edit::solve_sample_temp_id;
use fragments::schema::Attribute;
use fragments::schema::Material;
use fragments::schema::RenderedFaces;
use fragments::schema::Sample;
use fragments::schema::ShellHole;
use fragments::schema::ShellProfile;
use fragments::schema::SpatialStructure;
use fragments::schema::Stroke;

#[test]
fn solve_sample_temp_id_resolves_texts() {
    let mut sample = SampleRequestData {
        item: Id::Text("tmp-item".to_string()),
        material: Id::Number(7),
        representation: Id::Text("tmp-rep".to_string()),
        local_transform: Id::Number(9),
    };
    let table = vec![
        ("tmp-item".to_string(), 100u32),
        ("tmp-rep".to_string(), 200u32),
    ];
    solve_sample_temp_id(&mut sample, &table);
    assert_eq!(sample.item, Id::Number(100));
    assert_eq!(sample.material, Id::Number(7));
    assert_eq!(sample.representation, Id::Number(200));
    assert_eq!(sample.local_transform, Id::Number(9));
}

#[test]
fn solve_sample_temp_id_takes_first_entry() {
    let mut sample = SampleRequestData {
        item: Id::Text("t".to_string()),
        material: Id::Number(1),
        representation: Id::Number(2),
        local_transform: Id::Number(3),
    };
    let table = vec![("t".to_string(), 5u32), ("t".to_string(), 6u32)];
    solve_sample_temp_id(&mut sample, &table);
    assert_eq!(sample.item, Id::Number(5));
}

#[test]
fn edit_request_type_names() {
    assert_eq!(
        edit_request_type_name(EditRequestType::CreateMaterial),
        "Create Material"
    );
    assert_eq!(
        edit_request_type_name(EditRequestType::UpdateSpatialStructure),
        "Update Spatial Structure"
    );
    assert_eq!(
        edit_request_type_name(EditRequestType::DeleteRelation),
        "Delete Relation"
    );
}

#[test]
fn schema_defaults_match_wire_defaults() {
    let material = Material::default();
    assert_eq!(material.rendered_faces, RenderedFaces::One);
    assert_eq!(material.stroke, Stroke::Default);
    assert_eq!((material.r, material.g, material.b, material.a), (0, 0, 0, 255));

    let sample = Sample::default();
    assert_eq!(sample.item, 0);
    assert_eq!(sample.local_transform, 0);

    let hole = ShellHole::default();
    assert_eq!(hole.profile_id, 0);
    assert!(hole.indices.is_empty());

    let profile = ShellProfile::default();
    assert!(profile.indices.is_empty());

    let attribute = Attribute::default();
    assert!(attribute.data.is_empty());

    let spatial_structure = SpatialStructure::default();
    assert!(spatial_structure.children.is_empty());
    assert_eq!(spatial_structure.category, None);
}

#[test]
fn schema_new_keeps_arguments() {
    let s = Sample::new(1, 2, 3, 4);
    assert_eq!(
        (s.item, s.material, s.representation, s.local_transform),
        (1, 2, 3, 4)
    );
    let h = ShellHole::new(vec![1, 2, 3], 9);
    assert_eq!(h.indices, vec![1, 2, 3]);
    assert_eq!(h.profile_id, 9);
}
