use vstd::prelude::*;
use crate::shells::edge::Edge;
use crate::shells::edge::EdgeKey;
use crate::shells::face::Face;
use crate::shells::face::keys_of;
use crate::shells::face::seed_all;
use crate::shells::face::toggle_all;
use crate::shells::face::upsert_all;
use crate::shells::plane::Plane;

verus! {

/// Mathematical model of a face: its edge row, its open boundary row, its
/// id and its plane.
pub ghost struct FaceView {
    pub edges: Seq<Edge>,
    pub open_edges: Seq<EdgeKey>,
    pub id: int,
    pub plane: Plane,
}

impl View for Face {
    type V = FaceView;

    open spec fn view(&self) -> FaceView {
        FaceView {
            edges: self.edges@,
            open_edges: self.open_edges@,
            id: self.id as int,
            plane: self.plane,
        }
    }
}

/// Whether a face model accepts the triangle: equal plane identity and at
/// least one triangle edge open on the face.
pub open spec fn fv_matches(v: FaceView, triangle: Seq<Edge>, plane: Plane) -> bool {
    &&& plane.id == v.plane.id
    &&& exists|i: int| 0 <= i < triangle.len() && v.open_edges.contains(triangle[i].hash)
}

/// The model of a freshly created face.
pub open spec fn fv_new(id: int, plane: Plane) -> FaceView {
    FaceView { edges: Seq::empty(), open_edges: Seq::empty(), id, plane }
}

/// What folding a triangle into a face does to its model.
pub open spec fn fv_add(v: FaceView, triangle: Seq<Edge>) -> FaceView {
    FaceView {
        edges: upsert_all(v.edges, triangle),
        open_edges: if v.edges.len() == 0 {
            seed_all(v.open_edges, keys_of(triangle))
        } else {
            toggle_all(v.open_edges, keys_of(triangle))
        },
        id: v.id,
        plane: v.plane,
    }
}

/// What absorbing face `g` into face `b` does to `b`'s model.
pub open spec fn fv_merge(b: FaceView, g: FaceView) -> FaceView {
    FaceView {
        edges: upsert_all(b.edges, g.edges),
        open_edges: toggle_all(b.open_edges, g.open_edges),
        id: b.id,
        plane: b.plane,
    }
}

/// One step of the aggregation scan.  A face that does not match is kept as
/// it stands; the first matching face becomes the merge target (the triangle
/// is folded into it, and it remembers the position it will re-enter the
/// row at); every further matching face is absorbed into the target.
pub open spec fn scan_step(
    acc: (Seq<FaceView>, Option<(FaceView, int)>),
    f: FaceView,
    triangle: Seq<Edge>,
    plane: Plane,
) -> (Seq<FaceView>, Option<(FaceView, int)>) {
    let (kept, base) = acc;
    if fv_matches(f, triangle, plane) {
        match base {
            None => (kept, Some((fv_add(f, triangle), kept.len() as int))),
            Some((b, p)) => (kept, Some((fv_merge(b, f), p))),
        }
    } else {
        (kept.push(f), base)
    }
}

/// Scans a row of faces left to right, splitting it into the faces the
/// triangle does not touch and the face every matching region collapses
/// into.
pub open spec fn scan(s: Seq<FaceView>, triangle: Seq<Edge>, plane: Plane) -> (
    Seq<FaceView>,
    Option<(FaceView, int)>,
)
    decreases s.len(),
{
    if s.len() == 0 {
        (Seq::empty(), None)
    } else {
        scan_step(scan(s.drop_last(), triangle, plane), s.last(), triangle, plane)
    }
}

/// The collection of faces under construction, in insertion order.
#[derive(Debug)]
pub struct Faces {
    pub list: Vec<Face>,
    pub next_face_id: usize,
}

impl Faces {
    pub open spec fn wf(&self) -> bool {
        forall|i: int| 0 <= i < self.list@.len() ==> (#[trigger] self.list@[i]).wf()
    }

    /// The models of the stored faces, in order.
    pub open spec fn views(&self) -> Seq<FaceView> {
        self.list@.map_values(|f: Face| f@)
    }

    pub fn new() -> (r: Faces)
        ensures
            r.wf(),
            r.list@ == Seq::<Face>::empty(),
            r.next_face_id == 0,
    {
        Faces { list: Vec::new(), next_face_id: 0 }
    }

    /// Routes one triangle into the collection.  With no matching face a new
    /// face is created with the next sequential id and seeded with the
    /// triangle; with one match the triangle is folded into it; with several
    /// matches the first becomes the target and absorbs the others, which
    /// cease to exist.
    pub fn add(&mut self, triangle: Vec<Edge>, plane: Plane)
        requires
            old(self).wf(),
            old(self).next_face_id < usize::MAX,
        ensures
            final(self).wf(),
            ({
                let r = scan(old(self).views(), triangle@, plane);
                match r.1 {
                    None => {
                        &&& final(self).views() == r.0.push(
                            fv_add(fv_new(old(self).next_face_id as int, plane), triangle@),
                        )
                        &&& final(self).next_face_id == old(self).next_face_id + 1
                    },
                    Some((b, p)) => {
                        &&& final(self).views() == r.0.insert(p, b)
                        &&& final(self).next_face_id == old(self).next_face_id
                    },
                }
            }),
    {
        let ghost views0 = self.views();
        let n = self.list.len();
        let mut kept: Vec<Face> = Vec::new();
        let mut base: Option<Face> = None;
        let mut base_pos: usize = 0;
        let mut i: usize = 0;
        while i < n
            invariant
                old(self).wf(),
                n == views0.len(),
                views0 == old(self).views(),
                0 <= i <= n,
                self.list@ == old(self).list@.skip(i as int),
                self.next_face_id == old(self).next_face_id,
                old(self).next_face_id < usize::MAX,
                forall|j: int| 0 <= j < kept@.len() ==> (#[trigger] kept@[j]).wf(),
                match base {
                    Some(b) => b.wf(),
                    None => true,
                },
                ({
                    let r = scan(views0.take(i as int), triangle@, plane);
                    &&& kept@.map_values(|f: Face| f@) == r.0
                    &&& match (base, r.1) {
                        (Some(b), Some((bv, p))) => b@ == bv && base_pos as int == p && p
                            <= kept@.len(),
                        (None, None) => true,
                        _ => false,
                    }
                }),
            decreases n - i,
        {
            proof {
                assert(old(self).list@.skip(i as int).len() > 0);
                assert(old(self).list@.skip(i as int)[0] == old(self).list@[i as int]);
            }
            let f = self.list.remove(0);
            proof {
                assert(self.list@ =~= old(self).list@.skip(i + 1));
                assert(f == old(self).list@[i as int]);
                assert(views0[i as int] == f@);
                assert(f.wf()) by {
                    assert(old(self).list@[i as int].wf());
                }
            }
            let matched = f.matches(&triangle, &plane);
            proof {
                assert(matched == fv_matches(f@, triangle@, plane));
            }
            if matched {
                if base.is_none() {
                    let mut g = f;
                    g.add(&triangle);
                    base_pos = kept.len();
                    proof {
                        assert(g@ == fv_add(views0[i as int], triangle@));
                    }
                    base = Some(g);
                } else if let Some(b) = &mut base {
                    b.merge(f);
                }
            } else {
                kept.push(f);
            }
            proof {
                assert(views0.take(i + 1).drop_last() =~= views0.take(i as int));
                assert(views0.take(i + 1).last() == views0[i as int]);
                assert(kept@.map_values(|fc: Face| fc@) == scan(
                    views0.take(i + 1),
                    triangle@,
                    plane,
                ).0);
            }
            i = i + 1;
        }
        proof {
            assert(views0.take(n as int) =~= views0);
        }
        match base {
            None => {
                let mut face = Face::new(self.next_face_id, plane);
                face.add(&triangle);
                self.next_face_id = self.next_face_id + 1;
                kept.push(face);
                self.list = kept;
                proof {
                    assert(final(self).views() =~= scan(views0, triangle@, plane).0.push(
                        fv_add(fv_new(old(self).next_face_id as int, plane), triangle@),
                    ));
                }
            },
            Some(b) => {
                kept.insert(base_pos, b);
                self.list = kept;
                proof {
                    let r = scan(views0, triangle@, plane);
                    let bv = r.1->Some_0.0;
                    let p = r.1->Some_0.1;
                    assert(final(self).views() =~= r.0.insert(p, bv));
                }
            },
        }
    }
}

} // verus!
