use fragments::shells::edge::Edge;
use fragments::shells::face::Face;
use fragments::shells::faces::Faces;
use fragments::shells::needs_big_indices;
use fragments::shells::plane::Plane;
use fragments::shells::point::Point;
use fragments::shells::points::Points;
use fragments::shells::profile::Profile;
use fragments::shells::profile::ProfileError;
use fragments::shells::profiles::Profiles;

fn pt(x: i64, y: i64, z: i64, id: usize) -> Point {
    Point::new(x, y, z, id)
}

fn xy_plane() -> Plane {
    Plane::new(0, 0, 10000, 0)
}

#[test]
fn edge_hash_is_order_independent() {
    let a = pt(1, 2, 3, 0);
    let b = pt(4, 5, 6, 1);
    assert_eq!(Edge::new(a, b).hash, Edge::new(b, a).hash);
    // Equal points give the degenerate key of twice the same endpoint.
    assert_eq!(Edge::new(a, a).hash, Edge::new(a, a).hash);
    // Argument order is preserved on p1/p2 even when the key flips.
    let e = Edge::new(b, a);
    assert_eq!(e.p1, b);
    assert_eq!(e.p2, a);
}

#[test]
fn point_registry_deduplicates() {
    let mut registry = Points::new();
    let p1 = registry.create(100, 200, 300);
    let p2 = registry.create(100, 200, 300);
    assert_eq!(p1.id, p2.id);
    assert_eq!(p1.hash(), p2.hash());
    let p3 = registry.create(100, 200, 301);
    assert_ne!(p1.id, p3.id);
    assert_eq!(p3.id, 1);
    assert_eq!(registry.values(), vec![[100, 200, 300], [100, 200, 301]]);
}

#[test]
fn closed_surface_has_empty_boundary() {
    // A tetrahedron: four triangles, every edge shared by exactly two.
    let p0 = pt(0, 0, 0, 0);
    let p1 = pt(10, 0, 0, 1);
    let p2 = pt(0, 10, 0, 2);
    let p3 = pt(0, 0, 10, 3);
    let tris = [[p0, p1, p2], [p0, p1, p3], [p0, p2, p3], [p1, p2, p3]];
    let mut face = Face::new(0, xy_plane());
    for t in tris.iter() {
        let edges = vec![
            Edge::new(t[0], t[1]),
            Edge::new(t[1], t[2]),
            Edge::new(t[2], t[0]),
        ];
        face.add(&edges);
    }
    assert_eq!(face.open_edges().len(), 0);
}

#[test]
fn single_triangle_has_three_open_edges() {
    let p0 = pt(0, 0, 0, 0);
    let p1 = pt(10, 0, 0, 1);
    let p2 = pt(0, 10, 0, 2);
    let triangle = vec![
        Edge::new(p0, p1),
        Edge::new(p1, p2),
        Edge::new(p2, p0),
    ];
    let mut faces = Faces::new();
    faces.add(triangle, xy_plane());
    assert_eq!(faces.list.len(), 1);
    assert_eq!(faces.list[0].open_edges().len(), 3);
    assert_eq!(faces.list[0].id, 0);
    assert_eq!(faces.next_face_id, 1);
}

#[test]
fn square_from_two_triangles() {
    // Two coplanar triangles sharing the diagonal of a 10 x 10 square.
    let p0 = pt(0, 0, 0, 0);
    let p1 = pt(10, 0, 0, 1);
    let p2 = pt(10, 10, 0, 2);
    let p3 = pt(0, 10, 0, 3);
    let t1 = vec![Edge::new(p0, p1), Edge::new(p1, p2), Edge::new(p2, p0)];
    let t2 = vec![Edge::new(p0, p2), Edge::new(p2, p3), Edge::new(p3, p0)];
    let mut faces = Faces::new();
    faces.add(t1, xy_plane());
    faces.add(t2, xy_plane());
    assert_eq!(faces.list.len(), 1);
    let open = faces.list[0].open_edges();
    assert_eq!(open.len(), 4);

    let mut profiles = Profiles::new(xy_plane());
    for edge in open {
        profiles.add(edge).expect("well-formed boundary");
    }
    assert_eq!(profiles.list.len(), 1);
    assert!(profiles.list[0].closed);
    assert_eq!(profiles.list[0].ordered_points.len(), 4);
    // The shoelace computation keeps twice the area, in integers.
    assert_eq!(profiles.list[0].area(), 200);

    let data = profiles.profiles().expect("one closed loop");
    assert_eq!(data.profile.len(), 4);
    assert!(data.holes.is_empty());
}

#[test]
fn hole_detection_picks_largest_profile() {
    // Outer 10 x 10 loop (twice-area 200) around an inner 5 x 2 loop
    // (twice-area 20) on the same plane.
    let o0 = pt(0, 0, 0, 0);
    let o1 = pt(10, 0, 0, 1);
    let o2 = pt(10, 10, 0, 2);
    let o3 = pt(0, 10, 0, 3);
    let i0 = pt(2, 2, 0, 4);
    let i1 = pt(7, 2, 0, 5);
    let i2 = pt(7, 4, 0, 6);
    let i3 = pt(2, 4, 0, 7);
    let mut profiles = Profiles::new(xy_plane());
    for edge in [
        Edge::new(o0, o1),
        Edge::new(o1, o2),
        Edge::new(o2, o3),
        Edge::new(o3, o0),
        Edge::new(i0, i1),
        Edge::new(i1, i2),
        Edge::new(i2, i3),
        Edge::new(i3, i0),
    ] {
        profiles.add(edge).expect("well-formed loops");
    }
    assert_eq!(profiles.list.len(), 2);
    let data = profiles.profiles().expect("two closed loops");
    assert_eq!(data.profile, vec![0, 1, 2, 3]);
    assert_eq!(data.holes, vec![vec![4, 5, 6, 7]]);
}

#[test]
fn mirrored_open_profiles_refuse_to_merge() {
    let p0 = pt(0, 0, 0, 0);
    let p1 = pt(10, 0, 0, 1);
    let p2 = pt(10, 10, 0, 2);
    let p4 = pt(0, 10, 0, 4);
    // Chain p0 - p1 - p2: open ends p0 and p2.
    let mut a = Profile::new(xy_plane());
    a.add(Edge::new(p0, p1)).unwrap();
    a.add(Edge::new(p1, p2)).unwrap();
    // Chain p2 - p4 - p0: open ends p2 and p0, the exact mirror.
    let mut b = Profile::new(xy_plane());
    b.add(Edge::new(p2, p4)).unwrap();
    b.add(Edge::new(p4, p0)).unwrap();
    assert_eq!(a.merge(b), Err(ProfileError::AmbiguousMerge));
}

#[test]
fn plane_id_is_stable_under_rounding() {
    // Two normals differing only in the sixth decimal place, rounded to
    // four decimals on the caller's side, resolve to one plane identity.
    fn round4(value: f32) -> i64 {
        (value * 10000.0).round() as i64
    }
    let n1 = (0.267_261f32, 0.534_522f32, 0.801_784f32);
    let n2 = (0.267_262f32, 0.534_523f32, 0.801_783f32);
    let a = Plane::new(round4(n1.0), round4(n1.1), round4(n1.2), round4(1.5));
    let b = Plane::new(round4(n2.0), round4(n2.1), round4(n2.2), round4(1.5));
    assert_eq!(a.id, b.id);
    let c = Plane::new(round4(0.5), round4(0.5), round4(0.707_107), round4(1.5));
    assert_ne!(a.id, c.id);
}

#[test]
fn profile_add_rejects_unmatched_edge() {
    let p0 = pt(0, 0, 0, 0);
    let p1 = pt(10, 0, 0, 1);
    let p8 = pt(50, 50, 0, 8);
    let p9 = pt(60, 60, 0, 9);
    let mut profile = Profile::new(xy_plane());
    profile.add(Edge::new(p0, p1)).unwrap();
    assert_eq!(
        profile.add(Edge::new(p8, p9)),
        Err(ProfileError::UnmatchedEdge)
    );
}

#[test]
fn profile_add_rejects_overmatched_edge() {
    // A degenerate zero-length edge seeds a chain whose two free ends are
    // the same point; adding it again touches four open endpoints.
    let p0 = pt(0, 0, 0, 0);
    let mut profile = Profile::new(xy_plane());
    profile.add(Edge::new(p0, p0)).unwrap();
    assert_eq!(
        profile.add(Edge::new(p0, p0)),
        Err(ProfileError::OvermatchedEdge)
    );
}

#[test]
fn merge_into_closed_profile_is_refused() {
    let p0 = pt(0, 0, 0, 0);
    let p1 = pt(10, 0, 0, 1);
    let p2 = pt(0, 10, 0, 2);
    let p3 = pt(20, 20, 0, 3);
    let p4 = pt(30, 20, 0, 4);
    let mut closed = Profile::new(xy_plane());
    closed.add(Edge::new(p0, p1)).unwrap();
    closed.add(Edge::new(p1, p2)).unwrap();
    closed.add(Edge::new(p2, p0)).unwrap();
    assert!(closed.closed);
    let mut open = Profile::new(xy_plane());
    open.add(Edge::new(p3, p4)).unwrap();
    assert_eq!(closed.merge(open), Err(ProfileError::ClosedMerge));
}

#[test]
fn open_chain_merges_into_longer_chain() {
    let p0 = pt(0, 0, 0, 0);
    let p1 = pt(10, 0, 0, 1);
    let p2 = pt(10, 10, 0, 2);
    let p3 = pt(0, 10, 0, 3);
    // Chain p0 - p1; chain p2 - p3 does not touch it, so routing the
    // bridging edge p1 - p2 through the collection merges them.
    let mut profiles = Profiles::new(xy_plane());
    profiles.add(Edge::new(p0, p1)).unwrap();
    profiles.add(Edge::new(p2, p3)).unwrap();
    assert_eq!(profiles.list.len(), 2);
    profiles.add(Edge::new(p1, p2)).unwrap();
    assert_eq!(profiles.list.len(), 1);
    assert!(!profiles.list[0].closed);
    assert_eq!(profiles.list[0].ordered_points.len(), 4);
}

#[test]
fn profile_edges_walk_both_directions() {
    let p0 = pt(0, 0, 0, 0);
    let p1 = pt(10, 0, 0, 1);
    let p2 = pt(10, 10, 0, 2);
    let mut profile = Profile::new(xy_plane());
    profile.add(Edge::new(p0, p1)).unwrap();
    profile.add(Edge::new(p1, p2)).unwrap();
    let forward = profile.edges(false);
    assert_eq!(forward.len(), 2);
    assert_eq!((forward[0].p1, forward[0].p2), (p0, p1));
    assert_eq!((forward[1].p1, forward[1].p2), (p1, p2));
    let backward = profile.edges(true);
    assert_eq!((backward[0].p1, backward[0].p2), (p2, p1));
    assert_eq!((backward[1].p1, backward[1].p2), (p1, p0));
    assert_eq!(profile.indices(), vec![0, 1, 2]);
}

#[test]
fn separate_planes_make_separate_faces() {
    let p0 = pt(0, 0, 0, 0);
    let p1 = pt(10, 0, 0, 1);
    let p2 = pt(0, 10, 0, 2);
    let t = |a: Point, b: Point, c: Point| vec![Edge::new(a, b), Edge::new(b, c), Edge::new(c, a)];
    let mut faces = Faces::new();
    faces.add(t(p0, p1, p2), Plane::new(0, 0, 10000, 0));
    faces.add(t(p0, p1, p2), Plane::new(0, 10000, 0, 0));
    assert_eq!(faces.list.len(), 2);
    assert_eq!(faces.next_face_id, 2);
}

#[test]
fn shell_width_threshold() {
    assert!(!needs_big_indices(65_000));
    assert!(needs_big_indices(65_001));
}

#[test]
fn triangle_bridges_two_faces() {
    let p0 = pt(0, 0, 0, 0);
    let p1 = pt(10, 0, 0, 1);
    let p2 = pt(0, 10, 0, 2);
    let p3 = pt(20, 0, 0, 3);
    let p4 = pt(20, 10, 0, 4);
    let t = |a: Point, b: Point, c: Point| vec![Edge::new(a, b), Edge::new(b, c), Edge::new(c, a)];
    let mut faces = Faces::new();
    faces.add(t(p0, p1, p2), xy_plane());
    faces.add(t(p1, p3, p4), xy_plane());
    assert_eq!(faces.list.len(), 2);
    // Shares the edge p1-p2 with the first face and p3-p1 with the second,
    // so both regions collapse into one.
    faces.add(t(p1, p2, p3), xy_plane());
    assert_eq!(faces.list.len(), 1);
    assert_eq!(faces.list[0].open_edges().len(), 5);
    assert_eq!(faces.next_face_id, 2);
}

#[test]
fn degenerate_profiles_yield_nothing() {
    // Three collinear points close a loop of area zero; no profile can be
    // chosen as the outer boundary.
    let p0 = pt(0, 0, 0, 0);
    let p1 = pt(5, 0, 0, 1);
    let p2 = pt(10, 0, 0, 2);
    let mut profiles = Profiles::new(xy_plane());
    profiles.add(Edge::new(p0, p1)).unwrap();
    profiles.add(Edge::new(p1, p2)).unwrap();
    profiles.add(Edge::new(p2, p0)).unwrap();
    assert!(profiles.list[0].closed);
    assert!(profiles.profiles().is_none());
}

#[test]
fn edge_matching_three_chains_absorbs_all() {
    // Three open chains all touch the endpoints of one edge: the first is
    // extended, the others are absorbed into it (and cease to exist), and
    // the replay of the second chain faults because its free end was
    // consumed by the new edge.  Such duplicate-endpoint topology is a
    // malformed input.
    let shared_a = pt(5, 5, 0, 10);
    let shared_b = pt(6, 6, 0, 11);
    let p1 = pt(0, 0, 0, 0);
    let p2 = pt(1, 0, 0, 1);
    let p3 = pt(2, 0, 0, 2);
    let mut profiles = Profiles::new(xy_plane());
    profiles.add(Edge::new(p1, shared_a)).unwrap();
    let mut second = Profile::new(xy_plane());
    second.add(Edge::new(p2, shared_a)).unwrap();
    profiles.list.push(second);
    let mut third = Profile::new(xy_plane());
    third.add(Edge::new(p3, shared_b)).unwrap();
    profiles.list.push(third);

    assert_eq!(
        profiles.add(Edge::new(shared_a, shared_b)),
        Err(ProfileError::UnmatchedEdge)
    );
    assert_eq!(profiles.list.len(), 1);
}
