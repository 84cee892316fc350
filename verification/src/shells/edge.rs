use vstd::prelude::*;
use crate::shells::point::Point;
use crate::shells::point::PointKey;

verus! {

/// Order-independent identity of an edge: the keys of its two endpoints,
/// stored in ascending coordinate order.
#[derive(Debug, Clone, Copy, PartialEq, Eq, Structural)]
pub struct EdgeKey {
    pub a: PointKey,
    pub b: PointKey,
}

/// An unordered pair of points.  `p1` and `p2` keep the order the caller
/// gave (direction-sensitive consumers read them), while `hash` is the
/// canonical, order-independent identity.
#[derive(Debug, Clone, Copy, PartialEq, Eq, Structural)]
pub struct Edge {
    pub p1: Point,
    pub p2: Point,
    pub hash: EdgeKey,
}

/// Ascending coordinate order on point keys: by `x`, then `y`, then `z`.
pub open spec fn key_le(a: PointKey, b: PointKey) -> bool {
    if a.x != b.x {
        a.x < b.x
    } else if a.y != b.y {
        a.y < b.y
    } else {
        a.z <= b.z
    }
}

/// The canonical identity of the edge between `p` and `q`: the two point
/// keys in ascending order.
pub open spec fn edge_key(p: Point, q: Point) -> EdgeKey {
    if key_le(p.key_spec(), q.key_spec()) {
        EdgeKey { a: p.key_spec(), b: q.key_spec() }
    } else {
        EdgeKey { a: q.key_spec(), b: p.key_spec() }
    }
}

/// The edge value `Edge::new` builds from two points.
pub open spec fn edge_new_spec(p: Point, q: Point) -> Edge {
    Edge { p1: p, p2: q, hash: edge_key(p, q) }
}

/// Swapping the endpoints never changes the canonical identity.
pub proof fn lemma_edge_key_symmetric(p: Point, q: Point)
    ensures
        edge_key(p, q) == edge_key(q, p),
{
}

impl Edge {
    pub fn new(p1: Point, p2: Point) -> (r: Edge)
        ensures
            r == edge_new_spec(p1, p2),
            r.hash == edge_key(p2, p1),
    {
        let first_le = if p1.x != p2.x {
            p1.x < p2.x
        } else if p1.y != p2.y {
            p1.y < p2.y
        } else {
            p1.z <= p2.z
        };
        let hash = if first_le {
            EdgeKey { a: p1.hash(), b: p2.hash() }
        } else {
            EdgeKey { a: p2.hash(), b: p1.hash() }
        };
        Edge { p1, p2, hash }
    }
}

} // verus!
