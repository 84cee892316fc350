use vstd::prelude::*;
use crate::shells::point::Point;
use crate::shells::point::PointKey;
use crate::shells::point::COORD_LIMIT;

verus! {

/// The registry of deduplicated points.  `list` grows monotonically in
/// insertion order; a point's `id` is its position in the list.  Rounding of
/// raw float coordinates to the scaled integers stored here happens at the
/// caller's side, before a point enters the registry.
#[derive(Debug, Clone)]
pub struct Points {
    pub list: Vec<Point>,
}

/// The position of the point with key `k`, if one is registered.
pub open spec fn find_key(list: Seq<Point>, k: PointKey) -> Option<int> {
    if exists|i: int| 0 <= i < list.len() && list[i].key_spec() == k {
        Some(choose|i: int| 0 <= i < list.len() && list[i].key_spec() == k)
    } else {
        None
    }
}

/// What one registry call does: the relation between the registry before
/// and after, and the point handed back.
pub open spec fn create_post(
    pre: Seq<Point>,
    x: i64,
    y: i64,
    z: i64,
    post: Seq<Point>,
    p: Point,
) -> bool {
    match find_key(pre, PointKey { x, y, z }) {
        Some(i) => post == pre && p == pre[i],
        None => {
            &&& post == pre.push(Point { x, y, z, id: pre.len() as usize })
            &&& p == (Point { x, y, z, id: pre.len() as usize })
        },
    }
}

/// Registering the same rounded coordinates twice is idempotent: the second
/// call returns the same point, with the same id and key, and leaves the
/// registry unchanged.
pub proof fn lemma_create_idempotent(
    pre: Seq<Point>,
    x: i64,
    y: i64,
    z: i64,
    mid: Seq<Point>,
    p1: Point,
    post: Seq<Point>,
    p2: Point,
)
    requires
        forall|i: int, j: int| 0 <= i < j < pre.len() ==> pre[i].key_spec() != pre[j].key_spec(),
        create_post(pre, x, y, z, mid, p1),
        create_post(mid, x, y, z, post, p2),
    ensures
        p2 == p1,
        post == mid,
        p1.key_spec() == (PointKey { x, y, z }),
{
    let k = PointKey { x, y, z };
    match find_key(pre, k) {
        Some(i) => {
            assert(0 <= i < pre.len() && pre[i].key_spec() == k);
            assert(mid == pre);
            let j = choose|j: int| 0 <= j < mid.len() && mid[j].key_spec() == k;
            assert(j == i);
        },
        None => {
            assert(mid == pre.push(Point { x, y, z, id: pre.len() as usize }));
            assert(mid[pre.len() as int].key_spec() == k);
            let j = choose|j: int| 0 <= j < mid.len() && mid[j].key_spec() == k;
            assert(forall|a: int| 0 <= a < pre.len() ==> #[trigger] mid[a].key_spec()
                != k) by {
                assert(forall|a: int|
                    0 <= a < pre.len() ==> mid[a] == pre[a] && !(#[trigger] pre[a].key_spec()
                        == k));
            }
            assert(j == pre.len());
        },
    }
}

impl Points {
    /// Registry well-formedness: ids are positions, keys are unique, and
    /// every coordinate is within `COORD_LIMIT`.
    pub open spec fn wf(&self) -> bool {
        &&& forall|i: int|
            0 <= i < self.list@.len() ==> (#[trigger] self.list@[i]).id == i
        &&& forall|i: int|
            0 <= i < self.list@.len() ==> (#[trigger] self.list@[i]).in_range()
        &&& forall|i: int, j: int|
            0 <= i < j < self.list@.len() ==> self.list@[i].key_spec() != self.list@[j].key_spec()
    }

    pub fn new() -> (r: Points)
        ensures
            r.wf(),
            r.list@ == Seq::<Point>::empty(),
    {
        Points { list: Vec::new() }
    }

    /// Returns the registered point with the rounded coordinates `(x, y, z)`,
    /// inserting a fresh one with `id == list.len()` when none exists yet.
    /// Same rounded coordinates always yield the same point within one run;
    /// ids follow first-insertion order.
    pub fn create(&mut self, x: i64, y: i64, z: i64) -> (p: Point)
        requires
            old(self).wf(),
            -COORD_LIMIT <= x <= COORD_LIMIT,
            -COORD_LIMIT <= y <= COORD_LIMIT,
            -COORD_LIMIT <= z <= COORD_LIMIT,
            old(self).list@.len() < usize::MAX,
        ensures
            final(self).wf(),
            p.key_spec() == (PointKey { x, y, z }),
            create_post(old(self).list@, x, y, z, final(self).list@, p),
    {
        let ghost key = PointKey { x, y, z };
        let mut i: usize = 0;
        while i < self.list.len()
            invariant
                key == (PointKey { x, y, z }),
                *self == *old(self),
                old(self).wf(),
                0 <= i <= self.list@.len(),
                forall|j: int| 0 <= j < i ==> (#[trigger] self.list@[j]).key_spec() != key,
            decreases self.list@.len() - i,
        {
            let q = self.list[i];
            if q.x == x && q.y == y && q.z == z {
                proof {
                    assert(find_key(old(self).list@, key) matches Some(j) && j == i);
                }
                return q;
            }
            i = i + 1;
        }
        proof {
            assert(find_key(old(self).list@, key) is None);
        }
        let id = self.list.len();
        let p = Point { x, y, z, id };
        self.list.push(p);
        p
    }

    /// The registered coordinate triples, in insertion (id) order.
    pub fn values(&self) -> (r: Vec<[i64; 3]>)
        ensures
            r@.len() == self.list@.len(),
            forall|i: int|
                0 <= i < self.list@.len() ==> #[trigger] r@[i] == [
                    self.list@[i].x,
                    self.list@[i].y,
                    self.list@[i].z,
                ],
    {
        let mut r: Vec<[i64; 3]> = Vec::new();
        let mut i: usize = 0;
        while i < self.list.len()
            invariant
                0 <= i <= self.list@.len(),
                r@.len() == i,
                forall|j: int|
                    0 <= j < i ==> #[trigger] r@[j] == [
                        self.list@[j].x,
                        self.list@[j].y,
                        self.list@[j].z,
                    ],
            decreases self.list@.len() - i,
        {
            let q = self.list[i];
            r.push([q.x, q.y, q.z]);
            i = i + 1;
        }
        r
    }
}

} // verus!
