use vstd::prelude::*;
use crate::shells::edge::Edge;
use crate::shells::plane::Plane;
use crate::shells::plane::PlaneView;
use crate::shells::point::Point;
use crate::shells::profile::Profile;
use crate::shells::profile::ProfileError;
use crate::shells::profile::ProfileView;
use crate::shells::profile::pv_add;
use crate::shells::profile::pv_area;
use crate::shells::profile::pv_edges;
use crate::shells::profile::pv_match_edge;
use crate::shells::profile::pv_merge;
use crate::shells::profile::pv_replay;

verus! {

/// The outer boundary of a face and its holes, as ordered rows of
/// point-registry ids.  This is the hand-off value to the shell schema.
#[derive(Debug, Clone, PartialEq, Eq)]
pub struct ProfileData {
    pub profile: Vec<usize>,
    pub holes: Vec<Vec<usize>>,
}

/// Whether every point of a row is within the coordinate bound.
pub open spec fn pts_in_range(pts: Seq<Point>) -> bool {
    forall|i: int| 0 <= i < pts.len() ==> (#[trigger] pts[i]).in_range()
}

/// The fresh profile a collection with plane `plane` starts a new chain
/// with.
pub open spec fn pv_new(plane: PlaneView) -> ProfileView {
    ProfileView {
        closed: false,
        open_start_point: None,
        open_end_point: None,
        plane,
        points: Seq::empty(),
    }
}

/// The positions, in ascending order, of the profiles an edge matches.
pub open spec fn matches_of(vs: Seq<ProfileView>, e: Edge) -> Seq<int>
    decreases vs.len(),
{
    if vs.len() == 0 {
        Seq::empty()
    } else {
        let m = matches_of(vs.drop_last(), e);
        if pv_match_edge(vs.last(), e) > 0 {
            m.push(vs.len() - 1)
        } else {
            m
        }
    }
}

/// Absorbs a row of profiles into `v` one after the other, stopping at
/// the first fault: the state reached and the fault, if one occurred.
pub open spec fn merge_fold(v: ProfileView, others: Seq<ProfileView>) -> (
    ProfileView,
    Option<ProfileError>,
)
    decreases others.len(),
{
    if others.len() == 0 {
        (v, None)
    } else {
        let m = pv_merge(v, others[0]);
        match m.1 {
            Some(_) => m,
            None => merge_fold(m.0, others.skip(1)),
        }
    }
}

/// The row with the elements at the given ascending positions taken out.
pub open spec fn remove_positions<A>(s: Seq<A>, ps: Seq<int>) -> Seq<A>
    decreases ps.len(),
{
    if ps.len() == 0 {
        s
    } else {
        remove_positions(s.remove(ps.last()), ps.drop_last())
    }
}

/// Whether the positions are strictly ascending and within the row.
pub open spec fn positions_ok<A>(s: Seq<A>, ps: Seq<int>) -> bool {
    &&& forall|a: int, b: int| 0 <= a < b < ps.len() ==> ps[a] < ps[b]
    &&& forall|a: int| 0 <= a < ps.len() ==> 0 <= #[trigger] ps[a] < s.len()
}

/// In a strictly ascending row the values grow at least as fast as the
/// positions.
pub proof fn lemma_sorted_gap(ps: Seq<int>, a: int, b: int)
    requires
        forall|x: int, y: int| 0 <= x < y < ps.len() ==> ps[x] < ps[y],
        0 <= a <= b < ps.len(),
    ensures
        ps[b] - ps[a] >= b - a,
    decreases b - a,
{
    if a < b {
        lemma_sorted_gap(ps, a, b - 1);
    }
}

/// Taking ascending positions out can start with the lowest one.
pub proof fn lemma_remove_positions_first<A>(s: Seq<A>, ps: Seq<int>)
    requires
        ps.len() > 0,
        positions_ok(s, ps),
    ensures
        remove_positions(s, ps) == remove_positions(s, ps.skip(1)).remove(ps[0]),
    decreases ps.len(),
{
    if ps.len() == 1 {
        assert(ps.skip(1) =~= Seq::<int>::empty());
        assert(ps.last() == ps[0]);
        assert(remove_positions(s, ps) == remove_positions(s.remove(ps[0]), ps.drop_last()));
        assert(ps.drop_last().len() == 0);
        assert(remove_positions(s.remove(ps[0]), ps.drop_last()) == s.remove(ps[0]));
        assert(remove_positions(s, ps.skip(1)) == s);
    } else {
        let t = s.remove(ps.last());
        assert(ps.drop_last().len() > 0);
        assert(positions_ok(t, ps.drop_last())) by {
            assert(forall|a: int|
                0 <= a < ps.drop_last().len() ==> ps.drop_last()[a] == ps[a]);
        }
        lemma_remove_positions_first(t, ps.drop_last());
        assert(ps.drop_last().skip(1) =~= ps.skip(1).drop_last());
        assert(ps.skip(1).last() == ps.last());
        assert(ps.drop_last()[0] == ps[0]);
        assert(remove_positions(s, ps) == remove_positions(t, ps.drop_last()));
        assert(remove_positions(t, ps.drop_last()) == remove_positions(
            t,
            ps.drop_last().skip(1),
        ).remove(ps[0]));
        assert(ps.skip(1).len() > 0);
        assert(remove_positions(s, ps.skip(1)) == remove_positions(t, ps.skip(1).drop_last()));
    }
}

/// Entries below every taken position stay where they are, and the length
/// drops by the number of positions.
pub proof fn lemma_remove_positions_prefix<A>(s: Seq<A>, ps: Seq<int>, i: int)
    requires
        positions_ok(s, ps),
        0 <= i < s.len(),
        forall|a: int| 0 <= a < ps.len() ==> i < #[trigger] ps[a],
    ensures
        remove_positions(s, ps).len() == s.len() - ps.len(),
        remove_positions(s, ps)[i] == s[i],
    decreases ps.len(),
{
    if ps.len() > 0 {
        let t = s.remove(ps.last());
        s.remove_ensures(ps.last());
        assert(positions_ok(t, ps.drop_last())) by {
            assert(forall|a: int|
                0 <= a < ps.drop_last().len() ==> ps.drop_last()[a] == ps[a]);
        }
        lemma_remove_positions_prefix(t, ps.drop_last(), i);
        assert(t[i] == s[i]);
    }
}

/// The length after taking positions out.
pub proof fn lemma_remove_positions_len<A>(s: Seq<A>, ps: Seq<int>)
    requires
        positions_ok(s, ps),
    ensures
        remove_positions(s, ps).len() == s.len() - ps.len(),
    decreases ps.len(),
{
    if ps.len() > 0 {
        let t = s.remove(ps.last());
        assert(positions_ok(t, ps.drop_last())) by {
            assert(forall|a: int|
                0 <= a < ps.drop_last().len() ==> ps.drop_last()[a] == ps[a]);
        }
        lemma_remove_positions_len(t, ps.drop_last());
    }
}

/// Everything left after taking positions out was in the row before.
pub proof fn lemma_remove_positions_subset<A>(s: Seq<A>, ps: Seq<int>)
    requires
        positions_ok(s, ps),
    ensures
        forall|x: A| #[trigger] remove_positions(s, ps).contains(x) ==> s.contains(x),
    decreases ps.len(),
{
    if ps.len() > 0 {
        let t = s.remove(ps.last());
        s.remove_ensures(ps.last());
        assert(positions_ok(t, ps.drop_last())) by {
            assert(forall|a: int|
                0 <= a < ps.drop_last().len() ==> ps.drop_last()[a] == ps[a]);
        }
        lemma_remove_positions_subset(t, ps.drop_last());
        assert forall|x: A| #[trigger] t.contains(x) implies s.contains(x) by {
            let j = choose|j: int| 0 <= j < t.len() && t[j] == x;
            if j < ps.last() {
                assert(s[j] == x);
            } else {
                assert(s[j + 1] == x);
            }
        }
        assert(remove_positions(s, ps) == remove_positions(t, ps.drop_last()));
        assert forall|x: A| #[trigger] remove_positions(s, ps).contains(x) implies s.contains(
            x,
        ) by {
            assert(remove_positions(t, ps.drop_last()).contains(x));
            assert(t.contains(x));
        }
    }
}

/// The position of the profile chosen as outer boundary: scanning in order,
/// a profile displaces the current best only with a strictly larger area,
/// and nothing with area zero is ever chosen.
pub open spec fn best_idx(vs: Seq<ProfileView>) -> Option<int>
    decreases vs.len(),
{
    if vs.len() == 0 {
        None
    } else {
        let b = best_idx(vs.drop_last());
        let a = pv_area(vs.last());
        match b {
            None => if a > 0 {
                Some(vs.len() - 1)
            } else {
                None
            },
            Some(i) => if a > pv_area(vs[i]) {
                Some(vs.len() - 1)
            } else {
                Some(i)
            },
        }
    }
}

/// The outer-boundary choice is sound: the chosen profile has positive
/// area and no stored profile has a larger one; when nothing is chosen,
/// every profile has area zero.  Among equal areas the earliest profile
/// wins.
pub proof fn lemma_best_idx_is_max(vs: Seq<ProfileView>)
    ensures
        match best_idx(vs) {
            Some(b) => {
                &&& 0 <= b < vs.len()
                &&& pv_area(vs[b]) > 0
                &&& forall|j: int| 0 <= j < vs.len() ==> pv_area(#[trigger] vs[j]) <= pv_area(vs[b])
                &&& forall|j: int| 0 <= j < b ==> pv_area(#[trigger] vs[j]) < pv_area(vs[b])
            },
            None => forall|j: int| 0 <= j < vs.len() ==> pv_area(#[trigger] vs[j]) <= 0,
        },
    decreases vs.len(),
{
    if vs.len() > 0 {
        lemma_best_idx_is_max(vs.drop_last());
        let prior = vs.drop_last();
        assert(forall|j: int| 0 <= j < vs.len() - 1 ==> #[trigger] prior[j] == vs[j]);
        let a = pv_area(vs.last());
        assert(vs.last() == vs[vs.len() - 1]);
        match best_idx(prior) {
            None => {
                if a > 0 {
                    assert(best_idx(vs) == Some(vs.len() - 1));
                    assert forall|j: int| 0 <= j < vs.len() implies pv_area(#[trigger] vs[j])
                        <= pv_area(vs[vs.len() - 1]) by {
                        if j < vs.len() - 1 {
                            assert(pv_area(prior[j]) <= 0);
                        }
                    }
                    assert forall|j: int| 0 <= j < vs.len() - 1 implies pv_area(#[trigger] vs[j])
                        < pv_area(vs[vs.len() - 1]) by {
                        assert(pv_area(prior[j]) <= 0);
                    }
                } else {
                    assert forall|j: int| 0 <= j < vs.len() implies pv_area(#[trigger] vs[j])
                        <= 0 by {
                        if j < vs.len() - 1 {
                            assert(pv_area(prior[j]) <= 0);
                        }
                    }
                }
            },
            Some(i) => {
                assert(pv_area(prior[i]) == pv_area(vs[i]));
                if a > pv_area(vs[i]) {
                    assert(best_idx(vs) == Some(vs.len() - 1));
                    assert forall|j: int| 0 <= j < vs.len() implies pv_area(#[trigger] vs[j])
                        <= pv_area(vs[vs.len() - 1]) by {
                        if j < vs.len() - 1 {
                            assert(pv_area(prior[j]) <= pv_area(prior[i]));
                        }
                    }
                    assert forall|j: int| 0 <= j < vs.len() - 1 implies pv_area(#[trigger] vs[j])
                        < pv_area(vs[vs.len() - 1]) by {
                        assert(pv_area(prior[j]) <= pv_area(prior[i]));
                    }
                } else {
                    assert(best_idx(vs) == Some(i));
                    assert forall|j: int| 0 <= j < vs.len() implies pv_area(#[trigger] vs[j])
                        <= pv_area(vs[i]) by {
                        if j < vs.len() - 1 {
                            assert(pv_area(prior[j]) <= pv_area(prior[i]));
                        }
                    }
                    assert forall|j: int| 0 <= j < i implies pv_area(#[trigger] vs[j]) < pv_area(
                        vs[i],
                    ) by {
                        assert(pv_area(prior[j]) < pv_area(prior[i]));
                    }
                }
            },
        }
    }
}

/// Adding an edge with in-range endpoints keeps a profile's points in
/// range.
pub proof fn lemma_pv_add_range(v: ProfileView, e: Edge)
    requires
        pts_in_range(v.points),
        e.p1.in_range(),
        e.p2.in_range(),
    ensures
        match pv_add(v, e) {
            Ok(v2) => pts_in_range(v2.points),
            Err(_) => true,
        },
{
    match pv_add(v, e) {
        Ok(v2) => {
            assert forall|i: int| 0 <= i < v2.points.len() implies (#[trigger] v2.points[i]).in_range() by {
                if v.points.len() == 0 {
                } else {
                    let m = pv_match_edge(v, e);
                    if m == 1 {
                        if v2.points.len() == v.points.len() + 1 {
                        }
                    }
                }
            }
        },
        Err(_) => {},
    }
}

/// Replaying edges with in-range endpoints keeps the points in range.
pub proof fn lemma_pv_replay_range(v: ProfileView, es: Seq<Edge>)
    requires
        pts_in_range(v.points),
        forall|i: int|
            0 <= i < es.len() ==> (#[trigger] es[i]).p1.in_range() && es[i].p2.in_range(),
    ensures
        pts_in_range(pv_replay(v, es).0.points),
    decreases es.len(),
{
    if es.len() > 0 {
        lemma_pv_replay_range(v, es.drop_last());
        let r = pv_replay(v, es.drop_last());
        if r.1 is None {
            lemma_pv_add_range(r.0, es.last());
        }
    }
}

/// Merging keeps the points in range when both profiles are in range.
pub proof fn lemma_pv_merge_range(v: ProfileView, other: ProfileView)
    requires
        pts_in_range(v.points),
        pts_in_range(other.points),
    ensures
        pts_in_range(pv_merge(v, other).0.points),
{
    if !(other.closed || v.closed) && !(other.open_start_point == v.open_end_point
        && other.open_end_point == v.open_start_point) && !(other.open_end_point
        == v.open_end_point && other.open_start_point == v.open_start_point) {
        let reverse = other.open_end_point == v.open_start_point || other.open_end_point
            == v.open_end_point;
        let es = pv_edges(other, reverse);
        assert forall|i: int|
            0 <= i < es.len() implies (#[trigger] es[i]).p1.in_range() && es[i].p2.in_range() by {}
        lemma_pv_replay_range(v, es);
    }
}

/// The profile collection of one face: the chains under construction, in
/// the order they were started, together with the shared plane.
#[derive(Debug)]
pub struct Profiles {
    pub list: Vec<Profile>,
    pub plane: Plane,
    pub next_profile_id: usize,
}

impl Profiles {
    /// Every stored profile's points are within the coordinate bound, so
    /// areas can always be computed.
    pub open spec fn wf(&self) -> bool {
        forall|i: int| 0 <= i < self.list@.len() ==> pts_in_range((#[trigger] self.list@[i])@.points)
    }

    /// The models of the stored profiles, in order.
    pub open spec fn views(&self) -> Seq<ProfileView> {
        self.list@.map_values(|p: Profile| p@)
    }

    pub fn new(plane: Plane) -> (r: Profiles)
        ensures
            r.wf(),
            r.list@ == Seq::<Profile>::empty(),
            r.plane == plane,
            r.next_profile_id == 0,
    {
        Profiles { list: Vec::new(), plane, next_profile_id: 0 }
    }

    /// The positions of the profiles the edge matches, ascending.
    fn match_profiles(&self, edge: &Edge) -> (r: Vec<usize>)
        ensures
            r@.map_values(|u: usize| u as int) == matches_of(self.views(), *edge),
            forall|j: int| 0 <= j < r@.len() ==> (#[trigger] r@[j]) < self.list@.len(),
    {
        let mut r: Vec<usize> = Vec::new();
        let mut i: usize = 0;
        while i < self.list.len()
            invariant
                0 <= i <= self.list@.len(),
                r@.map_values(|u: usize| u as int) == matches_of(self.views().take(i as int), *edge),
                forall|j: int| 0 <= j < r@.len() ==> (#[trigger] r@[j]) < i,
            decreases self.list@.len() - i,
        {
            let m = self.list[i].match_edge(edge);
            proof {
                assert(self.views().take(i + 1).drop_last() =~= self.views().take(i as int));
                assert(self.views().take(i + 1).last() == self.views()[i as int]);
                assert(self.views()[i as int] == self.list@[i as int]@);
            }
            if m > 0 {
                r.push(i);
                proof {
                    assert(r@.map_values(|u: usize| u as int) =~= matches_of(
                        self.views().take(i + 1),
                        *edge,
                    ));
                }
            } else {
                proof {
                    assert(r@.map_values(|u: usize| u as int) =~= matches_of(
                        self.views().take(i + 1),
                        *edge,
                    ));
                }
            }
            i = i + 1;
        }
        proof {
            assert(self.views().take(self.views().len() as int) =~= self.views());
        }
        r
    }

    /// Routes one boundary edge to the profile it belongs to.  With no
    /// matching chain a new one is started; with one match the chain is
    /// extended; with several, the edge joins the first and the second is
    /// merged into it (and ceases to exist).  A fault is reported as the
    /// error of the face's reconstruction.
    pub fn add(&mut self, edge: Edge) -> (r: Result<(), ProfileError>)
        requires
            old(self).wf(),
            edge.p1.in_range(),
            edge.p2.in_range(),
            old(self).next_profile_id < usize::MAX,
        ensures
            final(self).wf(),
            final(self).plane == old(self).plane,
            final(self).plane@ == old(self).plane@,
            ({
                let ms = matches_of(old(self).views(), edge);
                if ms.len() == 0 {
                    &&& final(self).views() == old(self).views().push(
                        pv_add(pv_new(old(self).plane@), edge)->Ok_0,
                    )
                    &&& final(self).next_profile_id == old(self).next_profile_id + 1
                    &&& r is Ok
                } else if ms.len() == 1 {
                    &&& final(self).next_profile_id == old(self).next_profile_id
                    &&& match pv_add(old(self).views()[ms[0]], edge) {
                        Ok(v) => final(self).views() == old(self).views().update(ms[0], v) && r
                            is Ok,
                        Err(err) => final(self).views() == old(self).views() && r == Err::<
                            (),
                            ProfileError,
                        >(err),
                    }
                } else {
                    &&& final(self).next_profile_id == old(self).next_profile_id
                    &&& match pv_add(old(self).views()[ms[0]], edge) {
                        Err(err) => final(self).views() == old(self).views() && r == Err::<
                            (),
                            ProfileError,
                        >(err),
                        Ok(v1) => {
                            let others = ms.skip(1).map_values(|i: int| old(self).views()[i]);
                            let m = merge_fold(v1, others);
                            &&& final(self).views() == remove_positions(
                                old(self).views(),
                                ms.skip(1),
                            ).update(ms[0], m.0)
                            &&& match m.1 {
                                None => r is Ok,
                                Some(err) => r == Err::<(), ProfileError>(err),
                            }
                        },
                    }
                }
            }),
    {
        let ghost views0 = self.views();
        let matched = self.match_profiles(&edge);
        if matched.len() == 0 {
            let plane = clone_plane(&self.plane);
            let mut profile = Profile::new(plane);
            let seeded = profile.add(edge);
            proof {
                assert(seeded is Ok);
            }
            self.next_profile_id = self.next_profile_id + 1;
            self.list.push(profile);
            proof {
                assert(final(self).views() =~= views0.push(pv_add(pv_new(old(self).plane@), edge)->Ok_0));
            }
            return Ok(());
        }
        if matched.len() == 1 {
            let pos = matched[0];
            let mut p = self.list.remove(pos);
            proof {
                assert(views0[pos as int] == p@);
            }
            let r1 = p.add(edge);
            proof {
                lemma_pv_add_range(views0[pos as int], edge);
            }
            self.list.insert(pos, p);
            proof {
                match pv_add(views0[pos as int], edge) {
                    Ok(v) => {
                        assert(final(self).views() =~= views0.update(pos as int, v));
                    },
                    Err(_) => {
                        assert(final(self).views() =~= views0);
                    },
                }
            }
            return r1;
        }
        let pos0 = matched[0];
        let ghost ms = matches_of(views0, edge);
        proof {
            lemma_matches_sorted(views0, edge);
            assert(positions_ok(views0, ms.skip(1))) by {
                assert(forall|a: int|
                    0 <= a < ms.skip(1).len() ==> #[trigger] ms.skip(1)[a] == ms[a + 1]);
            }
        }
        // A fault in extending the first matched profile leaves the
        // collection untouched; that fault is decided before anything
        // moves.
        let first_len = self.list[pos0].ordered_points.len();
        let m0 = self.list[pos0].match_edge(&edge);
        proof {
            assert(self.list@[pos0 as int]@ == views0[pos0 as int]);
        }
        if first_len > 0 {
            if m0 == 0 {
                return Err(ProfileError::UnmatchedEdge);
            }
            if m0 > 2 {
                return Err(ProfileError::OvermatchedEdge);
            }
        }
        proof {
            assert(pv_add(views0[pos0 as int], edge) is Ok);
        }
        // Gather the absorbed profiles from the highest matched position
        // down, so the lower positions stay valid.
        let mut others: Vec<Profile> = Vec::new();
        let mut k: usize = matched.len();
        while k > 1
            invariant
                views0 == old(self).views(),
                old(self).wf(),
                ms == matches_of(views0, edge),
                matched@.map_values(|u: usize| u as int) == ms,
                forall|a: int, b: int| 0 <= a < b < ms.len() ==> ms[a] < ms[b],
                forall|a: int| 0 <= a < ms.len() ==> 0 <= #[trigger] ms[a] < views0.len(),
                1 <= k <= ms.len(),
                self.plane == old(self).plane,
                self.next_profile_id == old(self).next_profile_id,
                self.views() == remove_positions(views0, ms.skip(k as int)),
                others@.map_values(|q: Profile| q@) == ms.skip(k as int).map_values(
                    |i: int| views0[i],
                ),
            decreases k,
        {
            let ghost pre_views = self.views();
            let ghost pre_list = self.list@;
            let ghost pre_others = others@;
            k = k - 1;
            proof {
                assert(positions_ok(views0, ms.skip(k + 1))) by {
                    assert(forall|a: int|
                        0 <= a < ms.skip(k + 1).len() ==> #[trigger] ms.skip(k + 1)[a] == ms[a + k
                            + 1]);
                }
                lemma_remove_positions_len(views0, ms.skip(k + 1));
                lemma_remove_positions_prefix(views0, ms.skip(k + 1), ms[k as int]);
                assert(pre_views.len() == views0.len() - (ms.len() - k - 1));
                if k + 1 < ms.len() {
                    lemma_sorted_gap(ms, k as int, ms.len() - 1);
                }
                assert(ms[k as int] < pre_views.len());
                assert(pre_list.len() == pre_views.len());
            }
            let other = self.list.remove(matched[k]);
            others.insert(0, other);
            proof {
                let idx = ms[k as int];
                assert(other == pre_list[idx]);
                assert(other@ == pre_views[idx]);
                assert(other@ == views0[idx]);
                assert(self.list@ == pre_list.remove(idx));
                pre_list.remove_ensures(idx);
                pre_views.remove_ensures(idx);
                assert(self.views() =~= pre_views.remove(idx)) by {
                    assert forall|j: int| 0 <= j < self.list@.len() implies self.list@[j]@
                        == pre_views.remove(idx)[j] by {
                        if j < idx {
                            assert(self.list@[j] == pre_list[j]);
                            assert(pre_views.remove(idx)[j] == pre_views[j]);
                            assert(pre_views[j] == pre_list[j]@);
                        } else {
                            assert(self.list@[j] == pre_list[j + 1]);
                            assert(pre_views.remove(idx)[j] == pre_views[j + 1]);
                            assert(pre_views[j + 1] == pre_list[j + 1]@);
                        }
                    }
                }
                assert(positions_ok(views0, ms.skip(k as int))) by {
                    assert(forall|a: int|
                        0 <= a < ms.skip(k as int).len() ==> #[trigger] ms.skip(k as int)[a]
                            == ms[a + k]);
                }
                lemma_remove_positions_first(views0, ms.skip(k as int));
                assert(ms.skip(k as int).skip(1) =~= ms.skip(k + 1));
                assert(ms.skip(k as int)[0] == ms[k as int]);
                assert(self.views() == remove_positions(views0, ms.skip(k as int)));
                assert(others@.map_values(|q: Profile| q@) =~= ms.skip(k as int).map_values(
                    |i: int| views0[i],
                )) by {
                    pre_others.insert_ensures(0, other);
                    assert(others@ == pre_others.insert(0, other));
                    assert(pre_others.map_values(|q: Profile| q@).len() == ms.skip(
                        k + 1,
                    ).map_values(|i: int| views0[i]).len());
                    assert(pre_others.len() == ms.skip(k + 1).len());
                    assert(others@[0] == other);
                    assert(forall|j: int|
                        0 <= j < pre_others.len() ==> #[trigger] others@[j + 1] == pre_others[j]);
                    assert(forall|a: int|
                        0 <= a < ms.skip(k as int).len() ==> #[trigger] ms.skip(k as int)[a]
                            == ms[a + k]);
                    assert(forall|a: int|
                        0 <= a < ms.skip(k + 1).len() ==> #[trigger] ms.skip(k + 1)[a] == ms[a + k
                            + 1]);
                    assert forall|j: int|
                        0 <= j < others@.len() implies (#[trigger] others@[j])@ == views0[ms[j
                        + k]] by {
                        if j == 0 {
                            assert(others@[0]@ == views0[ms[k as int]]);
                        } else {
                            assert(0 <= j - 1 < ms.skip(k + 1).len());
                            assert(others@[j]@ == pre_others[j - 1]@);
                            assert(pre_others.map_values(|q: Profile| q@)[j - 1] == pre_others[j
                                - 1]@);
                            assert(pre_others.map_values(|q: Profile| q@)[j - 1] == ms.skip(
                                k + 1,
                            ).map_values(|i: int| views0[i])[j - 1]);
                            assert(ms.skip(k + 1).map_values(|i: int| views0[i])[j - 1]
                                == views0[ms.skip(k + 1)[j - 1]]);
                        }
                    }
                }
            }
        }
        let ghost ps = ms.skip(1);
        // Extend the first matched profile and absorb the gathered ones in
        // order, stopping at the first fault; the gathered profiles cease
        // to exist either way.
        proof {
            lemma_remove_positions_len(views0, ps);
            lemma_remove_positions_prefix(views0, ps, ms[0]);
        }
        let ghost pre_views = self.views();
        let ghost pre_list = self.list@;
        proof {
            assert(pre_views.len() == views0.len() - ps.len());
            if ps.len() > 0 {
                lemma_sorted_gap(ms, 0, ms.len() - 1);
            }
            assert((pos0 as int) < pre_views.len());
            assert(pre_list.len() == pre_views.len());
        }
        let mut p = self.list.remove(pos0);
        proof {
            assert(p == pre_list[pos0 as int]);
            assert(p@ == pre_views[pos0 as int]);
            assert(p@ == views0[pos0 as int]);
            assert(self.list@ == pre_list.remove(pos0 as int));
            lemma_pv_add_range(views0[pos0 as int], edge);
        }
        let step = p.add(edge);
        proof {
            assert(step is Ok);
        }
        let ghost v1 = pv_add(views0[pos0 as int], edge)->Ok_0;
        let ghost others_views = ps.map_values(|i: int| views0[i]);
        proof {
            assert(others@.map_values(|q: Profile| q@) == others_views);
            assert forall|j: int|
                0 <= j < others@.len() implies pts_in_range(
                (#[trigger] others@[j])@.points,
            ) by {
                assert(others@[j]@ == others@.map_values(|q: Profile| q@)[j]);
                assert(others_views[j] == views0[ps[j]]);
                assert(views0[ps[j]] == old(self).list@[ps[j]]@);
                assert(pts_in_range(old(self).list@[ps[j]]@.points));
            }
            assert(pts_in_range(p@.points));
        }
        let mut fault: Option<ProfileError> = None;
        loop
            invariant
                forall|j: int|
                    0 <= j < others@.len() ==> pts_in_range((#[trigger] others@[j])@.points),
                pts_in_range(p@.points),
                match fault {
                    None => merge_fold(v1, others_views) == merge_fold(
                        p@,
                        others@.map_values(|q: Profile| q@),
                    ),
                    Some(err) => merge_fold(v1, others_views) == (p@, Some(err)),
                },
            ensures
                others@.len() == 0,
            decreases others@.len(),
        {
            if others.len() == 0 {
                break;
            }
            let ghost pre_others = others@;
            let other = others.remove(0);
            proof {
                assert(other@ == pre_others[0]@);
                assert(others@ =~= pre_others.skip(1));
                assert(others@.map_values(|q: Profile| q@) =~= pre_others.map_values(
                    |q: Profile| q@,
                ).skip(1));
            }
            if fault.is_none() {
                proof {
                    lemma_pv_merge_range(p@, other@);
                }
                let r2 = p.merge(other);
                match r2 {
                    Err(err) => {
                        fault = Some(err);
                    },
                    Ok(()) => {},
                }
            }
        }
        self.list.insert(pos0, p);
        proof {
            let rv = remove_positions(views0, ps);
            assert(self.list@ == pre_list.remove(pos0 as int).insert(pos0 as int, p));
            pre_list.remove_ensures(pos0 as int);
            pre_list.remove(pos0 as int).insert_ensures(pos0 as int, p);
            pre_views.remove_ensures(pos0 as int);
            assert(final(self).views() =~= rv.update(pos0 as int, p@)) by {
                assert(rv == pre_views);
                assert forall|j: int| 0 <= j < self.list@.len() implies self.list@[j]@
                    == rv.update(pos0 as int, p@)[j] by {
                    if j < pos0 as int {
                        assert(self.list@[j] == pre_list.remove(pos0 as int)[j]);
                        assert(pre_list.remove(pos0 as int)[j] == pre_list[j]);
                        assert(pre_views[j] == pre_list[j]@);
                    } else if j == pos0 as int {
                        assert(self.list@[j] == p);
                    } else {
                        assert(self.list@[j] == pre_list.remove(pos0 as int)[j - 1]);
                        assert(pre_list.remove(pos0 as int)[j - 1] == pre_list[j]);
                        assert(pre_views[j] == pre_list[j]@);
                    }
                }
                assert(self.list@.len() == pre_list.len());
            }
            let m = merge_fold(v1, others_views);
            assert(p@ == m.0 && (match m.1 {
                None => fault is None,
                Some(err) => fault == Some(err),
            })) by {
                match fault {
                    None => {
                        assert(merge_fold(v1, others_views) == merge_fold(
                            p@,
                            others@.map_values(|q: Profile| q@),
                        ));
                        assert(others@.map_values(|q: Profile| q@).len() == 0);
                        assert(merge_fold(p@, others@.map_values(|q: Profile| q@)) == (
                            p@,
                            None::<ProfileError>,
                        ));
                    },
                    Some(_) => {},
                }
            }
            assert forall|i: int|
                0 <= i < final(self).views().len() implies pts_in_range(
                (#[trigger] final(self).views()[i]).points,
            ) by {
                if i == pos0 as int {
                } else {
                    assert(final(self).views()[i] == rv[i]);
                    assert(rv.contains(rv[i]));
                    lemma_remove_positions_subset(views0, ps);
                    assert(views0.contains(rv[i]));
                    let j = choose|j: int| 0 <= j < views0.len() && views0[j] == rv[i];
                    assert(pts_in_range(old(self).list@[j]@.points));
                }
            }
            assert(final(self).wf()) by {
                assert forall|i: int|
                    0 <= i < final(self).list@.len() implies pts_in_range(
                    (#[trigger] final(self).list@[i])@.points,
                ) by {
                    assert(final(self).views()[i] == final(self).list@[i]@);
                    assert(pts_in_range(final(self).views()[i].points));
                }
            }
        }
        match fault {
            None => Ok(()),
            Some(err) => Err(err),
        }
    }

    /// The reconstructed boundary of the face: the largest-area closed
    /// chain as the outer profile and every other chain as a hole, each as
    /// its row of point ids.  A face whose profiles all have zero area
    /// yields nothing.
    pub fn profiles(&self) -> (r: Option<ProfileData>)
        requires
            self.wf(),
        ensures
            match best_idx(self.views()) {
                None => r is None,
                Some(b) => {
                    &&& r matches Some(pd)
                    &&& (pd.profile@ == self.views()[b].points.map_values(|p: Point| p.id))
                    &&& pd.holes@.len() == self.views().len() - 1
                    &&& forall|j: int|
                        0 <= j < b ==> (#[trigger] pd.holes@[j])@ == self.views()[j].points.map_values(
                            |p: Point| p.id,
                        )
                    &&& forall|j: int|
                        b <= j < self.views().len() - 1 ==> (#[trigger] pd.holes@[j])@ == self.views()[j
                            + 1].points.map_values(|p: Point| p.id)
                },
            },
    {
        let mut best: Option<usize> = None;
        let mut best_area: i128 = 0;
        let mut i: usize = 0;
        while i < self.list.len()
            invariant
                self.wf(),
                0 <= i <= self.list@.len(),
                match best {
                    None => best_idx(self.views().take(i as int)) is None && best_area == 0,
                    Some(b) => {
                        &&& best_idx(self.views().take(i as int)) == Some(b as int)
                        &&& b < i
                        &&& best_area == pv_area(self.views()[b as int])
                        &&& best_area > 0
                    },
                },
            decreases self.list@.len() - i,
        {
            let area = self.list[i].area();
            proof {
                assert(self.views().take(i + 1).drop_last() =~= self.views().take(i as int));
                assert(self.views().take(i + 1).last() == self.views()[i as int]);
                assert(self.views()[i as int] == self.list@[i as int]@);
            }
            if area > best_area {
                best_area = area;
                best = Some(i);
            }
            i = i + 1;
        }
        proof {
            assert(self.views().take(self.views().len() as int) =~= self.views());
        }
        let best = match best {
            None => {
                return None;
            },
            Some(b) => b,
        };
        let profile = self.list[best].indices();
        let mut holes: Vec<Vec<usize>> = Vec::new();
        let mut i: usize = 0;
        while i < self.list.len()
            invariant
                best < self.list@.len(),
                0 <= i <= self.list@.len(),
                holes@.len() == if i <= best {
                    i as int
                } else {
                    i - 1
                },
                forall|j: int|
                    0 <= j < holes@.len() && j < best ==> (#[trigger] holes@[j])@
                        == self.views()[j].points.map_values(|p: Point| p.id),
                forall|j: int|
                    best <= j < holes@.len() ==> (#[trigger] holes@[j])@ == self.views()[j
                        + 1].points.map_values(|p: Point| p.id),
            decreases self.list@.len() - i,
        {
            if i != best {
                let hole = self.list[i].indices();
                holes.push(hole);
            }
            i = i + 1;
        }
        Some(ProfileData { profile, holes })
    }
}

/// The matched positions are strictly ascending.
pub proof fn lemma_matches_sorted(vs: Seq<ProfileView>, e: Edge)
    ensures
        forall|a: int, b: int|
            0 <= a < b < matches_of(vs, e).len() ==> matches_of(vs, e)[a] < matches_of(vs, e)[b],
        forall|a: int|
            0 <= a < matches_of(vs, e).len() ==> 0 <= #[trigger] matches_of(vs, e)[a] < vs.len(),
    decreases vs.len(),
{
    if vs.len() > 0 {
        lemma_matches_sorted(vs.drop_last(), e);
        let m = matches_of(vs.drop_last(), e);
        let w = matches_of(vs, e);
        if pv_match_edge(vs.last(), e) > 0 {
            assert(w == m.push(vs.len() - 1));
            assert forall|a: int, b: int| 0 <= a < b < w.len() implies w[a] < w[b] by {
                if b < m.len() {
                    assert(w[a] == m[a] && w[b] == m[b]);
                } else {
                    assert(w[b] == vs.len() - 1);
                    assert(w[a] == m[a]);
                    assert(m[a] < vs.drop_last().len());
                }
            }
            assert forall|a: int| 0 <= a < w.len() implies 0 <= #[trigger] w[a] < vs.len() by {
                if a < m.len() {
                    assert(w[a] == m[a]);
                }
            }
        } else {
            assert(w == m);
            assert forall|a: int| 0 <= a < w.len() implies 0 <= #[trigger] w[a] < vs.len() by {
                assert(w[a] == m[a]);
            }
        }
    }
}

/// A field-for-field copy of a plane.
fn clone_plane(p: &Plane) -> (r: Plane)
    ensures
        r@ == (*p)@,
        r.faces@ == p.faces@,
{
    let mut faces: Vec<usize> = Vec::new();
    let mut i: usize = 0;
    while i < p.faces.len()
        invariant
            0 <= i <= p.faces@.len(),
            faces@ == p.faces@.take(i as int),
        decreases p.faces@.len() - i,
    {
        faces.push(p.faces[i]);
        proof {
            assert(faces@ =~= p.faces@.take(i + 1));
        }
        i = i + 1;
    }
    proof {
        assert(p.faces@.take(p.faces@.len() as int) =~= p.faces@);
    }
    Plane { nx: p.nx, ny: p.ny, nz: p.nz, constant: p.constant, id: p.id, faces }
}

} // verus!
