use vstd::prelude::*;
use crate::shells::edge::Edge;
use crate::shells::edge::EdgeKey;
use crate::shells::plane::Plane;

verus! {

/// A maximal connected region of coplanar triangles.  `edges` records every
/// edge ever seen on this face, keyed by its canonical identity; `open_edges`
/// lists the identities currently on the boundary, in first-seen order.  An
/// edge identity is open exactly when an odd number of triangles have
/// contributed it so far.
#[derive(Debug, Clone)]
pub struct Face {
    pub edges: Vec<Edge>,
    pub open_edges: Vec<EdgeKey>,
    pub id: usize,
    pub plane: Plane,
}

/// The canonical identities of a row of edges, in order.
pub open spec fn keys_of(s: Seq<Edge>) -> Seq<EdgeKey> {
    s.map_values(|e: Edge| e.hash)
}

/// The position of the edge with identity `k` in `s`.
pub open spec fn edge_at(s: Seq<Edge>, k: EdgeKey) -> int {
    choose|i: int| 0 <= i < s.len() && s[i].hash == k
}

/// Whether some edge in `s` carries the identity `k`.
pub open spec fn has_key(s: Seq<Edge>, k: EdgeKey) -> bool {
    exists|i: int| 0 <= i < s.len() && s[i].hash == k
}

/// Records `e` in the edge row: overwrites the entry with the same identity
/// when one exists, otherwise appends.
pub open spec fn upsert(s: Seq<Edge>, e: Edge) -> Seq<Edge> {
    if has_key(s, e.hash) {
        s.update(edge_at(s, e.hash), e)
    } else {
        s.push(e)
    }
}

/// Records each edge of `es` in turn.
pub open spec fn upsert_all(s: Seq<Edge>, es: Seq<Edge>) -> Seq<Edge>
    decreases es.len(),
{
    if es.len() == 0 {
        s
    } else {
        upsert(upsert_all(s, es.drop_last()), es.last())
    }
}

/// The position of identity `k` in the open row.
pub open spec fn key_at(open: Seq<EdgeKey>, k: EdgeKey) -> int {
    choose|i: int| 0 <= i < open.len() && open[i] == k
}

/// One boundary toggle: an identity already open closes (it has now been
/// seen an even number of times); a new one opens.
pub open spec fn toggle(open: Seq<EdgeKey>, k: EdgeKey) -> Seq<EdgeKey> {
    if open.contains(k) {
        open.remove(key_at(open, k))
    } else {
        open.push(k)
    }
}

/// Toggles each identity of `ks` in turn.
pub open spec fn toggle_all(open: Seq<EdgeKey>, ks: Seq<EdgeKey>) -> Seq<EdgeKey>
    decreases ks.len(),
{
    if ks.len() == 0 {
        open
    } else {
        toggle(toggle_all(open, ks.drop_last()), ks.last())
    }
}

/// Opens `k` unless it is already open; the first triangle of a face seeds
/// its boundary this way.
pub open spec fn seed(open: Seq<EdgeKey>, k: EdgeKey) -> Seq<EdgeKey> {
    if open.contains(k) {
        open
    } else {
        open.push(k)
    }
}

/// Seeds each identity of `ks` in turn.
pub open spec fn seed_all(open: Seq<EdgeKey>, ks: Seq<EdgeKey>) -> Seq<EdgeKey>
    decreases ks.len(),
{
    if ks.len() == 0 {
        open
    } else {
        seed(seed_all(open, ks.drop_last()), ks.last())
    }
}

/// A toggle keeps the open row duplicate-free, and only the toggled identity
/// can appear or disappear.
pub proof fn lemma_toggle_shape(open: Seq<EdgeKey>, k: EdgeKey)
    requires
        open.no_duplicates(),
    ensures
        toggle(open, k).no_duplicates(),
        forall|k2: EdgeKey| #[trigger] toggle(open, k).contains(k2) ==> open.contains(k2) || k2 == k,
        forall|k2: EdgeKey|
            open.contains(k2) && k2 != k ==> #[trigger] toggle(open, k).contains(k2),
{
    broadcast use vstd::seq_lib::group_seq_properties;

    if open.contains(k) {
        let i = key_at(open, k);
        assert(0 <= i < open.len() && open[i] == k);
        open.remove_ensures(i);
        let r = open.remove(i);
        assert(r.no_duplicates()) by {
            assert forall|a: int, b: int| 0 <= a < b < r.len() implies r[a] != r[b] by {
                if b < i {
                } else if a < i {
                    assert(r[a] == open[a] && r[b] == open[b + 1]);
                } else {
                    assert(r[a] == open[a + 1] && r[b] == open[b + 1]);
                }
            }
        }
        assert forall|k2: EdgeKey| #[trigger] r.contains(k2) implies open.contains(k2) by {
            let j = choose|j: int| 0 <= j < r.len() && r[j] == k2;
            if j < i {
                assert(open[j] == k2);
            } else {
                assert(open[j + 1] == k2);
            }
        }
        assert forall|k2: EdgeKey| open.contains(k2) && k2 != k implies #[trigger] r.contains(
            k2,
        ) by {
            let j = choose|j: int| 0 <= j < open.len() && open[j] == k2;
            if j < i {
                assert(r[j] == k2);
            } else {
                assert(j != i);
                assert(r[j - 1] == open[j]);
            }
        }
    } else {
        let r = open.push(k);
        assert(r.no_duplicates()) by {
            assert forall|a: int, b: int| 0 <= a < b < r.len() implies r[a] != r[b] by {
                if b == open.len() {
                    assert(r[a] == open[a]);
                    assert(!open.contains(open[a]) ==> false);
                }
            }
        }
    }
}

/// Seeding keeps the open row duplicate-free and only ever adds the seeded
/// identity.
pub proof fn lemma_seed_shape(open: Seq<EdgeKey>, k: EdgeKey)
    requires
        open.no_duplicates(),
    ensures
        seed(open, k).no_duplicates(),
        forall|k2: EdgeKey| #[trigger] seed(open, k).contains(k2) ==> open.contains(k2) || k2 == k,
        seed(open, k).contains(k),
        forall|k2: EdgeKey| open.contains(k2) ==> #[trigger] seed(open, k).contains(k2)
,
{
    broadcast use vstd::seq_lib::group_seq_properties;

    if !open.contains(k) {
        let r = open.push(k);
        assert(r.no_duplicates()) by {
            assert forall|a: int, b: int| 0 <= a < b < r.len() implies r[a] != r[b] by {
                if b == open.len() {
                    assert(r[a] == open[a]);
                }
            }
        }
        assert(r[open.len() as int] == k);
    }
}

/// Recording an edge preserves the identity row except for adding the new
/// identity when it was absent.
pub proof fn lemma_upsert_keys(s: Seq<Edge>, e: Edge)
    ensures
        keys_of(upsert(s, e)) == if has_key(s, e.hash) {
            keys_of(s)
        } else {
            keys_of(s).push(e.hash)
        },
        has_key(upsert(s, e), e.hash),
        forall|k2: EdgeKey| has_key(s, k2) ==> has_key(upsert(s, e), k2),
        forall|k2: EdgeKey| has_key(upsert(s, e), k2) ==> has_key(s, k2) || k2 == e.hash,
{
    if has_key(s, e.hash) {
        let i = edge_at(s, e.hash);
        assert(0 <= i < s.len() && s[i].hash == e.hash);
        let r = s.update(i, e);
        assert(keys_of(r) =~= keys_of(s));
        assert(r[i].hash == e.hash);
        assert forall|k2: EdgeKey| has_key(s, k2) implies has_key(r, k2) by {
            let j = choose|j: int| 0 <= j < s.len() && s[j].hash == k2;
            if j == i {
                assert(r[i].hash == k2);
            } else {
                assert(r[j].hash == k2);
            }
        }
        assert forall|k2: EdgeKey| has_key(r, k2) implies has_key(s, k2) || k2 == e.hash by {
            let j = choose|j: int| 0 <= j < r.len() && r[j].hash == k2;
            if j != i {
                assert(s[j].hash == k2);
            }
        }
    } else {
        let r = s.push(e);
        assert(keys_of(r) =~= keys_of(s).push(e.hash));
        assert(r[s.len() as int].hash == e.hash);
        assert forall|k2: EdgeKey| has_key(s, k2) implies has_key(r, k2) by {
            let j = choose|j: int| 0 <= j < s.len() && s[j].hash == k2;
            assert(r[j].hash == k2);
        }
        assert forall|k2: EdgeKey| has_key(r, k2) implies has_key(s, k2) || k2 == e.hash by {
            let j = choose|j: int| 0 <= j < r.len() && r[j].hash == k2;
            if j < s.len() {
                assert(s[j].hash == k2);
            }
        }
    }
}

impl Face {
    /// Face well-formedness: open identities are distinct, edge identities
    /// are distinct, and every open identity has its edge recorded.
    pub open spec fn wf(&self) -> bool {
        &&& self.open_edges@.no_duplicates()
        &&& keys_of(self.edges@).no_duplicates()
        &&& forall|k: EdgeKey| #[trigger] self.open_edges@.contains(k) ==> has_key(self.edges@, k)
    }

    /// What `matches` decides: same plane identity and at least one of the
    /// triangle's edges currently open on this face.
    pub open spec fn matches_spec(&self, triangle: Seq<Edge>, plane: Plane) -> bool {
        &&& plane.id == self.plane.id
        &&& exists|i: int| 0 <= i < triangle.len() && self.open_edges@.contains(triangle[i].hash)
    }

    pub fn new(id: usize, plane: Plane) -> (r: Face)
        ensures
            r.wf(),
            r.id == id,
            r.plane == plane,
            r.edges@ == Seq::<Edge>::empty(),
            r.open_edges@ == Seq::<EdgeKey>::empty(),
    {
        Face { edges: Vec::new(), open_edges: Vec::new(), id, plane }
    }

    /// Whether `open_edges` holds `k`, and at which position.
    fn find_open(&self, k: &EdgeKey) -> (r: Option<usize>)
        requires
            self.open_edges@.no_duplicates(),
        ensures
            match r {
                Some(i) => i < self.open_edges@.len() && self.open_edges@[i as int] == *k
                    && i == key_at(self.open_edges@, *k) && self.open_edges@.contains(*k),
                None => !self.open_edges@.contains(*k),
            },
    {
        let mut i: usize = 0;
        while i < self.open_edges.len()
            invariant
                self.open_edges@.no_duplicates(),
                0 <= i <= self.open_edges@.len(),
                forall|j: int| 0 <= j < i ==> self.open_edges@[j] != *k,
            decreases self.open_edges@.len() - i,
        {
            let cand = self.open_edges[i];
            if cand.a.x == k.a.x && cand.a.y == k.a.y && cand.a.z == k.a.z && cand.b.x == k.b.x
                && cand.b.y == k.b.y && cand.b.z == k.b.z {
                proof {
                    assert(self.open_edges@[i as int] == *k);
                    assert(key_at(self.open_edges@, *k) == i as int) by {
                        let j = key_at(self.open_edges@, *k);
                        assert(0 <= j < self.open_edges@.len() && self.open_edges@[j] == *k);
                    };
                }
                return Some(i);
            }
            i = i + 1;
        }
        None
    }

    /// Whether `edges` holds an edge with identity `k`, and at which position.
    fn find_edge(&self, k: &EdgeKey) -> (r: Option<usize>)
        requires
            keys_of(self.edges@).no_duplicates(),
        ensures
            match r {
                Some(i) => i < self.edges@.len() && self.edges@[i as int].hash == *k && has_key(
                    self.edges@,
                    *k,
                ) && i == edge_at(self.edges@, *k),
                None => !has_key(self.edges@, *k),
            },
    {
        let mut i: usize = 0;
        while i < self.edges.len()
            invariant
                keys_of(self.edges@).no_duplicates(),
                0 <= i <= self.edges@.len(),
                forall|j: int| 0 <= j < i ==> (#[trigger] self.edges@[j]).hash != *k,
            decreases self.edges@.len() - i,
        {
            let cand = self.edges[i].hash;
            if cand.a.x == k.a.x && cand.a.y == k.a.y && cand.a.z == k.a.z && cand.b.x == k.b.x
                && cand.b.y == k.b.y && cand.b.z == k.b.z {
                proof {
                    assert(self.edges@[i as int].hash == *k);
                    assert(edge_at(self.edges@, *k) == i as int) by {
                        let j = edge_at(self.edges@, *k);
                        assert(0 <= j < self.edges@.len() && self.edges@[j].hash == *k);
                        assert(keys_of(self.edges@)[j] == *k);
                        assert(keys_of(self.edges@)[i as int] == *k);
                    };
                }
                return Some(i);
            }
            i = i + 1;
        }
        None
    }

    /// Records `e`, overwriting any edge with the same identity.
    fn record_edge(&mut self, e: Edge)
        requires
            keys_of(old(self).edges@).no_duplicates(),
        ensures
            final(self).edges@ == upsert(old(self).edges@, e),
            final(self).open_edges == old(self).open_edges,
            final(self).id == old(self).id,
            final(self).plane == old(self).plane,
    {
        let found = self.find_edge(&e.hash);
        match found {
            Some(i) => {
                self.edges[i] = e;
            },
            None => {
                self.edges.push(e);
            },
        }
    }

    /// One boundary toggle on `open_edges`.
    fn toggle_open(&mut self, k: EdgeKey)
        requires
            old(self).open_edges@.no_duplicates(),
        ensures
            final(self).open_edges@ == toggle(old(self).open_edges@, k),
            final(self).edges == old(self).edges,
            final(self).id == old(self).id,
            final(self).plane == old(self).plane,
    {
        let found = self.find_open(&k);
        match found {
            Some(i) => {
                self.open_edges.remove(i);
            },
            None => {
                self.open_edges.push(k);
            },
        }
    }

    /// Folds a triangle's edges into this face.  On a face that has not seen
    /// any edge yet, every edge of the triangle starts open; on a face
    /// already seeded, each edge toggles: an identity contributed an odd
    /// number of times so far is open, one contributed an even number of
    /// times is closed.
    pub fn add(&mut self, triangle: &Vec<Edge>)
        requires
            old(self).wf(),
        ensures
            final(self).wf(),
            final(self).id == old(self).id,
            final(self).plane == old(self).plane,
            final(self).edges@ == upsert_all(old(self).edges@, triangle@),
            final(self).open_edges@ == if old(self).edges@.len() == 0 {
                seed_all(old(self).open_edges@, keys_of(triangle@))
            } else {
                toggle_all(old(self).open_edges@, keys_of(triangle@))
            },
    {
        let seeded = self.edges.len() == 0;
        let mut i: usize = 0;
        while i < triangle.len()
            invariant
                old(self).wf(),
                0 <= i <= triangle@.len(),
                seeded == (old(self).edges@.len() == 0),
                self.id == old(self).id,
                self.plane == old(self).plane,
                self.edges@ == upsert_all(old(self).edges@, triangle@.take(i as int)),
                self.open_edges@ == if seeded {
                    seed_all(old(self).open_edges@, keys_of(triangle@).take(i as int))
                } else {
                    toggle_all(old(self).open_edges@, keys_of(triangle@).take(i as int))
                },
                self.wf(),
            decreases triangle@.len() - i,
        {
            let ghost pre = *self;
            let edge = triangle[i];
            if seeded {
                let found = self.find_open(&edge.hash);
                if found.is_none() {
                    self.open_edges.push(edge.hash);
                }
            } else {
                self.toggle_open(edge.hash);
            }
            proof {
                if seeded {
                    assert(self.open_edges@ == seed(pre.open_edges@, edge.hash));
                    lemma_seed_shape(pre.open_edges@, edge.hash);
                } else {
                    lemma_toggle_shape(pre.open_edges@, edge.hash);
                }
            }
            self.record_edge(edge);
            proof {
                lemma_upsert_keys(pre.edges@, edge);
                assert(keys_of(self.edges@).no_duplicates()) by {
                    if !has_key(pre.edges@, edge.hash) {
                        let ks = keys_of(pre.edges@);
                        let r = ks.push(edge.hash);
                        assert forall|a: int, b: int| 0 <= a < b < r.len() implies r[a] != r[b] by {
                            if b == ks.len() {
                                assert(r[a] == ks[a]);
                                assert(pre.edges@[a].hash == ks[a]);
                            }
                        }
                    }
                }
                assert forall|k2: EdgeKey| #[trigger] self.open_edges@.contains(k2) implies
                    has_key(self.edges@, k2) by {
                    if k2 != edge.hash {
                        assert(pre.open_edges@.contains(k2));
                        assert(has_key(pre.edges@, k2));
                    }
                }
                assert(triangle@.take(i + 1).drop_last() =~= triangle@.take(i as int));
                assert(triangle@.take(i + 1).last() == triangle@[i as int]);
                assert(keys_of(triangle@).take(i + 1).drop_last() =~= keys_of(triangle@).take(
                    i as int,
                ));
                assert(keys_of(triangle@).take(i + 1).last() == triangle@[i as int].hash);
            }
            i = i + 1;
        }
        proof {
            assert(triangle@.take(triangle@.len() as int) =~= triangle@);
            assert(keys_of(triangle@).take(keys_of(triangle@).len() as int) =~= keys_of(
                triangle@,
            ));
        }
    }

    /// Whether the incoming triangle belongs to this face: the plane
    /// identities agree and at least one of the triangle's edges is
    /// currently open here.
    pub fn matches(&self, triangle: &Vec<Edge>, plane: &Plane) -> (r: bool)
        requires
            self.open_edges@.no_duplicates(),
        ensures
            r == self.matches_spec(triangle@, *plane),
    {
        if !(plane.id.nx == self.plane.id.nx && plane.id.ny == self.plane.id.ny && plane.id.nz
            == self.plane.id.nz && plane.id.constant == self.plane.id.constant) {
            return false;
        }
        let mut i: usize = 0;
        while i < triangle.len()
            invariant
                self.open_edges@.no_duplicates(),
                plane.id == self.plane.id,
                0 <= i <= triangle@.len(),
                forall|j: int| 0 <= j < i ==> !self.open_edges@.contains(triangle@[j].hash),
            decreases triangle@.len() - i,
        {
            let edge = triangle[i];
            if self.find_open(&edge.hash).is_some() {
                return true;
            }
            i = i + 1;
        }
        false
    }

    /// The edges currently on the boundary, in the order their identities
    /// stand in `open_edges`.
    pub fn open_edges(&self) -> (r: Vec<Edge>)
        requires
            self.wf(),
        ensures
            r@.len() == self.open_edges@.len(),
            forall|i: int|
                0 <= i < r@.len() ==> #[trigger] r@[i] == self.edges@[edge_at(
                    self.edges@,
                    self.open_edges@[i],
                )] && r@[i].hash == self.open_edges@[i],
    {
        let mut r: Vec<Edge> = Vec::new();
        let mut i: usize = 0;
        while i < self.open_edges.len()
            invariant
                self.wf(),
                0 <= i <= self.open_edges@.len(),
                r@.len() == i,
                forall|j: int|
                    0 <= j < i ==> #[trigger] r@[j] == self.edges@[edge_at(
                        self.edges@,
                        self.open_edges@[j],
                    )] && r@[j].hash == self.open_edges@[j],
            decreases self.open_edges@.len() - i,
        {
            let k = self.open_edges[i];
            proof {
                assert(self.open_edges@.contains(k)) by {
                    assert(self.open_edges@[i as int] == k);
                }
            }
            let found = self.find_edge(&k);
            match found {
                Some(j) => {
                    let e = self.edges[j];
                    r.push(e);
                },
                None => {
                    proof {
                        assert(false);
                    }
                },
            }
            i = i + 1;
        }
        r
    }

    /// Absorbs another face: its edge records are taken over (overwriting
    /// entries with equal identities) and each of its open identities
    /// toggles this face's boundary, so an identity open on both faces
    /// closes and one open on a single face stays open.
    pub fn merge(&mut self, face: Face)
        requires
            old(self).wf(),
            face.wf(),
        ensures
            final(self).wf(),
            final(self).id == old(self).id,
            final(self).plane == old(self).plane,
            final(self).edges@ == upsert_all(old(self).edges@, face.edges@),
            final(self).open_edges@ == toggle_all(old(self).open_edges@, face.open_edges@),
    {
        let mut i: usize = 0;
        while i < face.edges.len()
            invariant
                old(self).wf(),
                face.wf(),
                0 <= i <= face.edges@.len(),
                self.id == old(self).id,
                self.plane == old(self).plane,
                self.open_edges == old(self).open_edges,
                self.edges@ == upsert_all(old(self).edges@, face.edges@.take(i as int)),
                keys_of(self.edges@).no_duplicates(),
                forall|k2: EdgeKey|
                    has_key(old(self).edges@, k2) || has_key(face.edges@.take(i as int), k2)
                        ==> has_key(self.edges@, k2),
            decreases face.edges@.len() - i,
        {
            let ghost pre = *self;
            let e = face.edges[i];
            self.record_edge(e);
            proof {
                lemma_upsert_keys(pre.edges@, e);
                assert(keys_of(self.edges@).no_duplicates()) by {
                    if !has_key(pre.edges@, e.hash) {
                        let ks = keys_of(pre.edges@);
                        let r2 = ks.push(e.hash);
                        assert forall|a: int, b: int| 0 <= a < b < r2.len() implies r2[a] != r2[b]
                        by {
                            if b == ks.len() {
                                assert(r2[a] == ks[a]);
                                assert(pre.edges@[a].hash == ks[a]);
                            }
                        }
                    }
                }
                assert(face.edges@.take(i + 1).drop_last() =~= face.edges@.take(i as int));
                assert(face.edges@.take(i + 1).last() == face.edges@[i as int]);
                assert forall|k2: EdgeKey|
                    has_key(old(self).edges@, k2) || has_key(face.edges@.take(i + 1), k2) implies
                    has_key(self.edges@, k2) by {
                    if has_key(old(self).edges@, k2) || has_key(face.edges@.take(i as int), k2) {
                        assert(has_key(pre.edges@, k2));
                        assert(has_key(self.edges@, k2));
                    } else {
                        let j = choose|j: int|
                            0 <= j < face.edges@.take(i + 1).len() && (#[trigger] face.edges@.take(
                                i + 1,
                            )[j]).hash == k2;
                        assert(j == i);
                        assert(k2 == e.hash);
                        assert(has_key(self.edges@, e.hash));
                    }
                }
            }
            i = i + 1;
        }
        proof {
            assert(face.edges@.take(face.edges@.len() as int) =~= face.edges@);
            assert forall|k2: EdgeKey| has_key(face.edges@, k2) implies has_key(self.edges@, k2)
            by {}
        }
        let ghost mid = *self;
        let mut j: usize = 0;
        while j < face.open_edges.len()
            invariant
                mid.wf(),
                face.wf(),
                0 <= j <= face.open_edges@.len(),
                self.id == mid.id,
                self.plane == mid.plane,
                self.edges == mid.edges,
                self.open_edges@ == toggle_all(mid.open_edges@, face.open_edges@.take(j as int)),
                self.open_edges@.no_duplicates(),
                forall|k2: EdgeKey|
                    #[trigger] self.open_edges@.contains(k2) ==> has_key(self.edges@, k2),
                forall|k2: EdgeKey| has_key(face.edges@, k2) ==> has_key(self.edges@, k2),
            decreases face.open_edges@.len() - j,
        {
            let ghost pre = *self;
            let k = face.open_edges[j];
            self.toggle_open(k);
            proof {
                lemma_toggle_shape(pre.open_edges@, k);
                assert(face.open_edges@.contains(k)) by {
                    assert(face.open_edges@[j as int] == k);
                }
                assert(has_key(face.edges@, k));
                assert(face.open_edges@.take(j + 1).drop_last() =~= face.open_edges@.take(
                    j as int,
                ));
                assert(face.open_edges@.take(j + 1).last() == face.open_edges@[j as int]);
            }
            j = j + 1;
        }
        proof {
            assert(face.open_edges@.take(face.open_edges@.len() as int) =~= face.open_edges@);
        }
    }
}

} // verus!
