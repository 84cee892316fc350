use vstd::prelude::*;
use crate::shells::edge::Edge;
use crate::shells::edge::edge_new_spec;
use crate::shells::plane::Plane;
use crate::shells::plane::PlaneView;
use crate::shells::point::Point;
use crate::shells::point::PointKey;

verus! {

/// The malformed-topology faults of profile extraction.  Each is fatal for
/// the face being reconstructed; none is recovered from.
#[derive(Debug, Clone, Copy, PartialEq, Eq, Structural)]
pub enum ProfileError {
    /// A boundary edge matched no open endpoint of any candidate profile.
    UnmatchedEdge,
    /// A boundary edge matched more than two open endpoints.
    OvermatchedEdge,
    /// Two open profiles whose endpoint pairs exactly mirror each other
    /// were merged; which of the two is the outer loop cannot be decided.
    AmbiguousMerge,
    /// A profile that is already closed took part in a merge.
    ClosedMerge,
}

/// An ordered boundary loop, or open chain while under construction, on one
/// face.  While open, `open_start_point` and `open_end_point` are the keys
/// of the two free ends of `ordered_points`; once the loop closes both are
/// gone.
#[derive(Debug, Clone)]
pub struct Profile {
    pub closed: bool,
    pub open_start_point: Option<PointKey>,
    pub open_end_point: Option<PointKey>,
    pub plane: Plane,
    pub ordered_points: Vec<Point>,
}

/// Mathematical model of a profile.
pub ghost struct ProfileView {
    pub closed: bool,
    pub open_start_point: Option<PointKey>,
    pub open_end_point: Option<PointKey>,
    pub plane: PlaneView,
    pub points: Seq<Point>,
}

impl View for Profile {
    type V = ProfileView;

    open spec fn view(&self) -> ProfileView {
        ProfileView {
            closed: self.closed,
            open_start_point: self.open_start_point,
            open_end_point: self.open_end_point,
            plane: self.plane@,
            points: self.ordered_points@,
        }
    }
}

/// How many of the edge's two endpoints sit on the profile's open ends
/// (0 to 4; a closed profile matches nothing).
pub open spec fn pv_match_edge(v: ProfileView, e: Edge) -> int {
    if v.closed {
        0
    } else {
        (if v.open_start_point == Some(e.p1.key_spec()) {
            1int
        } else {
            0int
        }) + (if v.open_start_point == Some(e.p2.key_spec()) {
            1int
        } else {
            0int
        }) + (if v.open_end_point == Some(e.p1.key_spec()) {
            1int
        } else {
            0int
        }) + (if v.open_end_point == Some(e.p2.key_spec()) {
            1int
        } else {
            0int
        })
    }
}

/// What adding one edge does to a profile.  An empty profile is seeded with
/// the edge's two points; afterwards an edge matching no open end is
/// rejected, one matching more than two is rejected, one matching both ends
/// closes the loop, and one matching a single end extends the chain at that
/// end.
pub open spec fn pv_add(v: ProfileView, e: Edge) -> Result<ProfileView, ProfileError> {
    if v.points.len() == 0 {
        Ok(
            ProfileView {
                open_start_point: Some(e.p1.key_spec()),
                open_end_point: Some(e.p2.key_spec()),
                points: seq![e.p1, e.p2],
                ..v
            },
        )
    } else {
        let m = pv_match_edge(v, e);
        if m == 0 {
            Err(ProfileError::UnmatchedEdge)
        } else if m > 2 {
            Err(ProfileError::OvermatchedEdge)
        } else if m == 2 {
            Ok(ProfileView { closed: true, open_start_point: None, open_end_point: None, ..v })
        } else {
            if v.open_start_point == Some(e.p1.key_spec()) {
                Ok(
                    ProfileView {
                        open_start_point: Some(e.p2.key_spec()),
                        points: v.points.insert(0, e.p2),
                        ..v
                    },
                )
            } else if v.open_end_point == Some(e.p1.key_spec()) {
                Ok(
                    ProfileView {
                        open_end_point: Some(e.p2.key_spec()),
                        points: v.points.push(e.p2),
                        ..v
                    },
                )
            } else if v.open_start_point == Some(e.p2.key_spec()) {
                Ok(
                    ProfileView {
                        open_start_point: Some(e.p1.key_spec()),
                        points: v.points.insert(0, e.p1),
                        ..v
                    },
                )
            } else if v.open_end_point == Some(e.p2.key_spec()) {
                Ok(
                    ProfileView {
                        open_end_point: Some(e.p1.key_spec()),
                        points: v.points.push(e.p1),
                        ..v
                    },
                )
            } else {
                Ok(v)
            }
        }
    }
}

/// The chain's edges in order: between consecutive points, or, reversed,
/// from the last point back to the first.
pub open spec fn pv_edges(v: ProfileView, reverse: bool) -> Seq<Edge> {
    let n = if v.points.len() == 0 {
        0int
    } else {
        v.points.len() - 1
    };
    if reverse {
        Seq::new(n as nat, |i: int| edge_new_spec(v.points[n - i], v.points[n - i - 1]))
    } else {
        Seq::new(n as nat, |i: int| edge_new_spec(v.points[i], v.points[i + 1]))
    }
}

/// Replays a row of edges through `pv_add`, stopping at the first fault:
/// the state reached so far and the fault, if one occurred.
pub open spec fn pv_replay(v: ProfileView, es: Seq<Edge>) -> (ProfileView, Option<ProfileError>)
    decreases es.len(),
{
    if es.len() == 0 {
        (v, None)
    } else {
        let r = pv_replay(v, es.drop_last());
        match r.1 {
            Some(err) => r,
            None => match pv_add(r.0, es.last()) {
                Ok(v2) => (v2, None),
                Err(err) => (r.0, Some(err)),
            },
        }
    }
}

/// What merging another open profile into this one does.  Merging is
/// refused when either profile is closed, and when the two profiles' free
/// ends mirror each other exactly (closing would be ambiguous).  Otherwise
/// the incoming chain's edges are replayed into this profile, reversed when
/// the incoming chain's end touches one of this profile's open ends.
pub open spec fn pv_merge(v: ProfileView, other: ProfileView) -> (
    ProfileView,
    Option<ProfileError>,
) {
    if other.closed || v.closed {
        (v, Some(ProfileError::ClosedMerge))
    } else if other.open_start_point == v.open_end_point && other.open_end_point
        == v.open_start_point {
        (v, Some(ProfileError::AmbiguousMerge))
    } else if other.open_end_point == v.open_end_point && other.open_start_point
        == v.open_start_point {
        (v, Some(ProfileError::AmbiguousMerge))
    } else {
        let reverse = other.open_end_point == v.open_start_point || other.open_end_point
            == v.open_end_point;
        pv_replay(v, pv_edges(other, reverse))
    }
}


/// Absolute value.
pub open spec fn abs_i(v: int) -> int {
    if v < 0 {
        -v
    } else {
        v
    }
}

/// The two coordinate axes a profile is projected onto: the axis with the
/// largest absolute normal component is dropped, to avoid a degenerate
/// near-zero-area projection.
pub open spec fn proj_dims(p: PlaneView) -> (int, int) {
    let ax = abs_i(p.nx);
    let ay = abs_i(p.ny);
    let az = abs_i(p.nz);
    if ax >= ay && ax >= az {
        (1int, 2int)
    } else if ay >= ax && ay >= az {
        (0int, 2int)
    } else {
        (0int, 1int)
    }
}

/// The coordinate of `p` along axis `d` (0 is x, 1 is y, anything else z).
pub open spec fn coord(p: Point, d: int) -> int {
    if d == 0 {
        p.x as int
    } else if d == 1 {
        p.y as int
    } else {
        p.z as int
    }
}

/// One summand of the shoelace formula between point `i` and its cyclic
/// successor.
pub open spec fn shoelace_term(pts: Seq<Point>, d1: int, d2: int, i: int) -> int {
    let j = if i == pts.len() - 1 {
        0int
    } else {
        i + 1
    };
    coord(pts[i], d1) * coord(pts[j], d2) - coord(pts[j], d1) * coord(pts[i], d2)
}

/// The shoelace sum over the first `k` summands.
pub open spec fn shoelace_sum(pts: Seq<Point>, d1: int, d2: int, k: int) -> int
    decreases k,
{
    if k <= 0 {
        0
    } else {
        shoelace_sum(pts, d1, d2, k - 1) + shoelace_term(pts, d1, d2, k - 1)
    }
}

/// Twice the area a profile's loop encloses: the absolute shoelace sum of
/// its points projected onto the two non-dominant axes of its plane.
pub open spec fn pv_area(v: ProfileView) -> int {
    if v.points.len() == 0 {
        0
    } else {
        abs_i(shoelace_sum(v.points, proj_dims(v.plane).0, proj_dims(v.plane).1, v.points.len() as int))
    }
}

impl Profile {
    pub fn new(plane: Plane) -> (r: Profile)
        ensures
            r@ == (ProfileView {
                closed: false,
                open_start_point: None::<PointKey>,
                open_end_point: None::<PointKey>,
                plane: plane@,
                points: Seq::<Point>::empty(),
            }),
    {
        Profile {
            closed: false,
            open_start_point: None,
            open_end_point: None,
            plane,
            ordered_points: Vec::new(),
        }
    }

    /// The chain's edges in order; `reverse` walks the chain backwards.
    pub fn edges(&self, reverse: bool) -> (r: Vec<Edge>)
        ensures
            r@ == pv_edges(self@, reverse),
    {
        let mut r: Vec<Edge> = Vec::new();
        let n = self.ordered_points.len();
        if n == 0 {
            proof {
                assert(r@ =~= pv_edges(self@, reverse));
            }
            return r;
        }
        if reverse {
            let mut i: usize = n - 1;
            while i >= 1
                invariant
                    n == self.ordered_points@.len(),
                    n >= 1,
                    0 <= i <= n - 1,
                    r@.len() == n - 1 - i,
                    forall|j: int|
                        0 <= j < r@.len() ==> r@[j] == edge_new_spec(
                            self.ordered_points@[n - 1 - j],
                            self.ordered_points@[n - 2 - j],
                        ),
                decreases i,
            {
                let e = Edge::new(self.ordered_points[i], self.ordered_points[i - 1]);
                r.push(e);
                i = i - 1;
            }
            proof {
                assert(r@ =~= pv_edges(self@, reverse));
            }
        } else {
            let mut i: usize = 0;
            while i < n - 1
                invariant
                    n == self.ordered_points@.len(),
                    n >= 1,
                    0 <= i <= n - 1,
                    r@.len() == i,
                    forall|j: int|
                        0 <= j < i ==> r@[j] == edge_new_spec(
                            self.ordered_points@[j],
                            self.ordered_points@[j + 1],
                        ),
                decreases n - 1 - i,
            {
                let e = Edge::new(self.ordered_points[i], self.ordered_points[i + 1]);
                r.push(e);
                i = i + 1;
            }
            proof {
                assert(r@ =~= pv_edges(self@, reverse));
            }
        }
        r
    }

    /// The registry ids of the chain's points, in chain order.
    pub fn indices(&self) -> (r: Vec<usize>)
        ensures
            r@ == self.ordered_points@.map_values(|p: Point| p.id),
    {
        let mut r: Vec<usize> = Vec::new();
        let mut i: usize = 0;
        while i < self.ordered_points.len()
            invariant
                0 <= i <= self.ordered_points@.len(),
                r@.len() == i,
                forall|j: int| 0 <= j < i ==> r@[j] == (#[trigger] self.ordered_points@[j]).id,
            decreases self.ordered_points@.len() - i,
        {
            r.push(self.ordered_points[i].id);
            i = i + 1;
        }
        proof {
            assert(r@ =~= self.ordered_points@.map_values(|p: Point| p.id));
        }
        r
    }

    /// How many of the edge's endpoints sit on this profile's open ends.
    pub fn match_edge(&self, edge: &Edge) -> (r: usize)
        ensures
            r == pv_match_edge(self@, *edge),
    {
        if self.closed {
            return 0;
        }
        let p1k = edge.p1.hash();
        let p2k = edge.p2.hash();
        let mut m: usize = 0;
        if let Some(k) = &self.open_start_point {
            if *k == p1k {
                m = m + 1;
            }
            if *k == p2k {
                m = m + 1;
            }
        }
        if let Some(k) = &self.open_end_point {
            if *k == p1k {
                m = m + 1;
            }
            if *k == p2k {
                m = m + 1;
            }
        }
        m
    }

    /// Adds one edge to the chain, per `pv_add`; a fault leaves the profile
    /// unchanged.
    pub fn add(&mut self, edge: Edge) -> (r: Result<(), ProfileError>)
        ensures
            match pv_add(old(self)@, edge) {
                Ok(v) => r is Ok && final(self)@ == v,
                Err(err) => r == Err::<(), ProfileError>(err) && final(self)@ == old(self)@,
            },
    {
        if self.ordered_points.len() == 0 {
            self.open_start_point = Some(edge.p1.hash());
            self.open_end_point = Some(edge.p2.hash());
            self.ordered_points.push(edge.p1);
            self.ordered_points.push(edge.p2);
            proof {
                assert(final(self)@.points =~= seq![edge.p1, edge.p2]);
            }
            return Ok(());
        }
        let m = self.match_edge(&edge);
        if m == 0 {
            return Err(ProfileError::UnmatchedEdge);
        }
        if m > 2 {
            return Err(ProfileError::OvermatchedEdge);
        }
        if m == 2 {
            self.closed = true;
            self.open_end_point = None;
            self.open_start_point = None;
            return Ok(());
        }
        let p1k = edge.p1.hash();
        let p2k = edge.p2.hash();
        let start_is_p1 = match &self.open_start_point {
            Some(k) => *k == p1k,
            None => false,
        };
        let end_is_p1 = match &self.open_end_point {
            Some(k) => *k == p1k,
            None => false,
        };
        let start_is_p2 = match &self.open_start_point {
            Some(k) => *k == p2k,
            None => false,
        };
        let end_is_p2 = match &self.open_end_point {
            Some(k) => *k == p2k,
            None => false,
        };
        if start_is_p1 {
            self.ordered_points.insert(0, edge.p2);
            self.open_start_point = Some(p2k);
        } else if end_is_p1 {
            self.ordered_points.push(edge.p2);
            self.open_end_point = Some(p2k);
        } else if start_is_p2 {
            self.ordered_points.insert(0, edge.p1);
            self.open_start_point = Some(p1k);
        } else if end_is_p2 {
            self.ordered_points.push(edge.p1);
            self.open_end_point = Some(p1k);
        }
        Ok(())
    }

    /// Absorbs another open profile, replaying its edges through `add`; see
    /// `pv_merge` for the refused combinations.  A fault leaves this
    /// profile as the replay left it.
    pub fn merge(&mut self, new_profile: Profile) -> (r: Result<(), ProfileError>)
        ensures
            ({
                let m = pv_merge(old(self)@, new_profile@);
                &&& final(self)@ == m.0
                &&& match m.1 {
                    None => r is Ok,
                    Some(err) => r == Err::<(), ProfileError>(err),
                }
            }),
    {
        if new_profile.closed || self.closed {
            return Err(ProfileError::ClosedMerge);
        }
        let self_start = self.open_start_point;
        let self_end = self.open_end_point;
        let other_start = new_profile.open_start_point;
        let other_end = new_profile.open_end_point;
        let mirror_a = opt_key_eq(&other_start, &self_end) && opt_key_eq(&other_end, &self_start);
        let mirror_b = opt_key_eq(&other_end, &self_end) && opt_key_eq(&other_start, &self_start);
        if mirror_a || mirror_b {
            return Err(ProfileError::AmbiguousMerge);
        }
        let reverse = opt_key_eq(&other_end, &self_start) || opt_key_eq(&other_end, &self_end);
        let new_edges = new_profile.edges(reverse);
        let ghost es = pv_edges(new_profile@, reverse);
        let mut i: usize = 0;
        while i < new_edges.len()
            invariant
                new_edges@ == es,
                0 <= i <= es.len(),
                !old(self)@.closed && !new_profile@.closed,
                !(new_profile@.open_start_point == old(self)@.open_end_point
                    && new_profile@.open_end_point == old(self)@.open_start_point),
                !(new_profile@.open_end_point == old(self)@.open_end_point
                    && new_profile@.open_start_point == old(self)@.open_start_point),
                reverse == (new_profile@.open_end_point == old(self)@.open_start_point
                    || new_profile@.open_end_point == old(self)@.open_end_point),
                es == pv_edges(new_profile@, reverse),
                pv_replay(old(self)@, es.take(i as int)) == (self@, None::<ProfileError>),
            decreases es.len() - i,
        {
            let edge = new_edges[i];
            let step = self.add(edge);
            proof {
                assert(es.take(i + 1).drop_last() =~= es.take(i as int));
                assert(es.take(i + 1).last() == es[i as int]);
            }
            match step {
                Ok(()) => {},
                Err(err) => {
                    proof {
                        assert(pv_replay(old(self)@, es.take(i + 1)) == (
                            self@,
                            Some(err),
                        ));
                        lemma_replay_fault_sticks(old(self)@, es, i + 1);
                    }
                    return Err(err);
                },
            }
            i = i + 1;
        }
        proof {
            assert(es.take(es.len() as int) =~= es);
        }
        Ok(())
    }

    /// Twice the area of the loop, by the shoelace formula on the points
    /// projected onto the two non-dominant axes of the plane.  The doubled
    /// value keeps the computation in integers; only area comparisons are
    /// ever needed.
    pub fn area(&self) -> (r: i128)
        requires
            forall|i: int|
                0 <= i < self.ordered_points@.len() ==> (#[trigger] self.ordered_points@[i]).in_range(),
        ensures
            r == pv_area(self@),
    {
        let n = self.ordered_points.len();
        if n == 0 {
            return 0;
        }
        let ax: i128 = if self.plane.nx < 0 {
            -(self.plane.nx as i128)
        } else {
            self.plane.nx as i128
        };
        let ay: i128 = if self.plane.ny < 0 {
            -(self.plane.ny as i128)
        } else {
            self.plane.ny as i128
        };
        let az: i128 = if self.plane.nz < 0 {
            -(self.plane.nz as i128)
        } else {
            self.plane.nz as i128
        };
        let (d1, d2): (u8, u8) = if ax >= ay && ax >= az {
            (1, 2)
        } else if ay >= ax && ay >= az {
            (0, 2)
        } else {
            (0, 1)
        };
        proof {
            assert(d1 as int == proj_dims(self@.plane).0 && d2 as int == proj_dims(self@.plane).1);
        }
        let mut total: i128 = 0;
        let mut i: usize = 0;
        while i < n
            invariant
                n == self.ordered_points@.len(),
                n >= 1,
                forall|j: int|
                    0 <= j < self.ordered_points@.len() ==> (#[trigger] self.ordered_points@[j]).in_range(),
                0 <= i <= n,
                d1 as int == proj_dims(self@.plane).0,
                d2 as int == proj_dims(self@.plane).1,
                total == shoelace_sum(self.ordered_points@, d1 as int, d2 as int, i as int),
                -(i as i128) * 2_000_000_000_000_000_000 <= total <= (i as i128)
                    * 2_000_000_000_000_000_000,
            decreases n - i,
        {
            let j = if i == n - 1 {
                0
            } else {
                i + 1
            };
            let pi = self.ordered_points[i];
            let pj = self.ordered_points[j];
            let xi: i64 = if d1 == 0 {
                pi.x
            } else if d1 == 1 {
                pi.y
            } else {
                pi.z
            };
            let yi: i64 = if d2 == 0 {
                pi.x
            } else if d2 == 1 {
                pi.y
            } else {
                pi.z
            };
            let xj: i64 = if d1 == 0 {
                pj.x
            } else if d1 == 1 {
                pj.y
            } else {
                pj.z
            };
            let yj: i64 = if d2 == 0 {
                pj.x
            } else if d2 == 1 {
                pj.y
            } else {
                pj.z
            };
            proof {
                assert(xi as int == coord(pi, d1 as int) && yi as int == coord(pi, d2 as int)
                    && xj as int == coord(pj, d1 as int) && yj as int == coord(pj, d2 as int));
                assert((xi as i128) * (yj as i128) <= 1_000_000_000_000_000_000 && (xi as i128)
                    * (yj as i128) >= -1_000_000_000_000_000_000) by (nonlinear_arith)
                    requires
                        -1_000_000_000 <= xi as i128 <= 1_000_000_000,
                        -1_000_000_000 <= yj as i128 <= 1_000_000_000,
                {}
                assert((xj as i128) * (yi as i128) <= 1_000_000_000_000_000_000 && (xj as i128)
                    * (yi as i128) >= -1_000_000_000_000_000_000) by (nonlinear_arith)
                    requires
                        -1_000_000_000 <= xj as i128 <= 1_000_000_000,
                        -1_000_000_000 <= yi as i128 <= 1_000_000_000,
                {}
                assert((i as i128) * 2_000_000_000_000_000_000 + 2_000_000_000_000_000_000 == (i
                    as i128 + 1) * 2_000_000_000_000_000_000) by (nonlinear_arith)
                {}
                assert((i as i128 + 1) * 2_000_000_000_000_000_000
                    <= 40_000_000_000_000_000_000_000_000_000_000_000_000i128) by (nonlinear_arith)
                    requires
                        0 <= i as i128 + 1 <= 18_446_744_073_709_551_615i128,
                {}
                assert(-((i as i128 + 1) * 2_000_000_000_000_000_000)
                    >= -40_000_000_000_000_000_000_000_000_000_000_000_000i128) by (nonlinear_arith)
                    requires
                        0 <= i as i128 + 1 <= 18_446_744_073_709_551_615i128,
                {}
            }
            let term: i128 = (xi as i128) * (yj as i128) - (xj as i128) * (yi as i128);
            total = total + term;
            proof {
                assert(term == shoelace_term(self.ordered_points@, d1 as int, d2 as int, i as int));
                assert(total == shoelace_sum(self.ordered_points@, d1 as int, d2 as int, i + 1));
            }
            i = i + 1;
        }
        if total < 0 {
            -total
        } else {
            total
        }
    }
}

/// Once the replay of a prefix has faulted, replaying more edges changes
/// nothing: the state and the fault stay those of the failing prefix.
pub proof fn lemma_replay_fault_sticks(v: ProfileView, es: Seq<Edge>, k: int)
    requires
        0 <= k <= es.len(),
        pv_replay(v, es.take(k)).1 is Some,
    ensures
        pv_replay(v, es) == pv_replay(v, es.take(k)),
    decreases es.len() - k,
{
    if k < es.len() {
        assert(es.take(k + 1).drop_last() =~= es.take(k));
        assert(pv_replay(v, es.take(k + 1)) == pv_replay(v, es.take(k)));
        lemma_replay_fault_sticks(v, es, k + 1);
    } else {
        assert(es.take(k) =~= es);
    }
}

/// Equality of two optional point keys.
fn opt_key_eq(a: &Option<PointKey>, b: &Option<PointKey>) -> (r: bool)
    ensures
        r == (*a == *b),
{
    match (a, b) {
        (Some(x), Some(y)) => *x == *y,
        (None, None) => true,
        _ => false,
    }
}

} // verus!
