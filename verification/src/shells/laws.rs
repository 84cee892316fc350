use vstd::prelude::*;
use crate::shells::edge::Edge;
use crate::shells::edge::EdgeKey;
use crate::shells::face::keys_of;
use crate::shells::face::seed_all;
use crate::shells::face::toggle;
use crate::shells::face::toggle_all;
use crate::shells::face::lemma_toggle_shape;
use crate::shells::faces::fv_add;
use crate::shells::faces::fv_new;
use crate::shells::plane::Plane;

verus! {

/// How often identity `k` occurs in a row of identities.
pub open spec fn count_key(ks: Seq<EdgeKey>, k: EdgeKey) -> nat
    decreases ks.len(),
{
    if ks.len() == 0 {
        0
    } else {
        count_key(ks.drop_last(), k) + if ks.last() == k {
            1nat
        } else {
            0nat
        }
    }
}

/// A toggle flips exactly the membership of the toggled identity.
pub proof fn lemma_toggle_flips(open: Seq<EdgeKey>, k: EdgeKey)
    requires
        open.no_duplicates(),
    ensures
        toggle(open, k).no_duplicates(),
        toggle(open, k).contains(k) == !open.contains(k),
        forall|k2: EdgeKey| k2 != k ==> #[trigger] toggle(open, k).contains(k2) == open.contains(k2),
{
    lemma_toggle_shape(open, k);
    if open.contains(k) {
        let i = crate::shells::face::key_at(open, k);
        assert(0 <= i < open.len() && open[i] == k);
        let r = open.remove(i);
        open.remove_ensures(i);
        assert(!r.contains(k)) by {
            if r.contains(k) {
                let j = choose|j: int| 0 <= j < r.len() && r[j] == k;
                if j < i {
                    assert(open[j] == k);
                } else {
                    assert(open[j + 1] == k);
                }
            }
        }
    } else {
        assert(toggle(open, k)[open.len() as int] == k);
    }
    assert forall|k2: EdgeKey| k2 != k implies #[trigger] toggle(open, k).contains(k2)
        == open.contains(k2) by {
        lemma_toggle_shape(open, k);
    }
}

/// After toggling a row of identities, an identity is open exactly when its
/// total count (its prior membership counted in) is odd: the boundary rule.
pub proof fn lemma_toggle_parity(open: Seq<EdgeKey>, ks: Seq<EdgeKey>)
    requires
        open.no_duplicates(),
    ensures
        toggle_all(open, ks).no_duplicates(),
        forall|k: EdgeKey|
            #[trigger] toggle_all(open, ks).contains(k) == (open.contains(k) != (count_key(ks, k)
                % 2 == 1)),
    decreases ks.len(),
{
    if ks.len() == 0 {
    } else {
        lemma_toggle_parity(open, ks.drop_last());
        let mid = toggle_all(open, ks.drop_last());
        lemma_toggle_flips(mid, ks.last());
        assert forall|k: EdgeKey|
            #[trigger] toggle_all(open, ks).contains(k) == (open.contains(k) != (count_key(ks, k)
                % 2 == 1)) by {
            if k == ks.last() {
                assert(count_key(ks, k) == count_key(ks.drop_last(), k) + 1);
            } else {
                assert(count_key(ks, k) == count_key(ks.drop_last(), k));
                assert(toggle_all(open, ks).contains(k) == mid.contains(k));
            }
        }
    }
}

/// Seeding fresh identities into a boundary they do not touch is the same
/// as toggling them in.
pub proof fn lemma_seed_is_toggle(open: Seq<EdgeKey>, ks: Seq<EdgeKey>)
    requires
        open.no_duplicates(),
        ks.no_duplicates(),
        forall|j: int| 0 <= j < ks.len() ==> !open.contains(#[trigger] ks[j]),
    ensures
        seed_all(open, ks) == toggle_all(open, ks),
        seed_all(open, ks) == open + ks,
    decreases ks.len(),
{
    if ks.len() == 0 {
        assert(open + ks =~= open);
    } else {
        assert(ks.drop_last().no_duplicates());
        assert(forall|j: int| 0 <= j < ks.drop_last().len() ==> ks.drop_last()[j] == ks[j]);
        lemma_seed_is_toggle(open, ks.drop_last());
        let mid = open + ks.drop_last();
        assert(!mid.contains(ks.last())) by {
            if mid.contains(ks.last()) {
                let j = choose|j: int| 0 <= j < mid.len() && mid[j] == ks.last();
                if j < open.len() {
                    assert(open[j] == ks.last());
                    assert(open.contains(ks.last()));
                } else {
                    assert(ks.drop_last()[j - open.len()] == ks.last());
                    assert(ks[j - open.len()] == ks[ks.len() - 1]);
                }
            }
        }
        assert(seed_all(open, ks) == mid.push(ks.last()));
        assert(toggle_all(open, ks) == mid.push(ks.last()));
        assert(mid.push(ks.last()) =~= open + ks);
    }
}

/// The boundary a face reaches after its first (seeding) triangle and a row
/// of further (toggling) triangles.
pub open spec fn open_after(tris: Seq<Seq<EdgeKey>>) -> Seq<EdgeKey>
    decreases tris.len(),
{
    if tris.len() == 0 {
        Seq::empty()
    } else if tris.len() == 1 {
        seed_all(Seq::empty(), tris[0])
    } else {
        toggle_all(open_after(tris.drop_last()), tris.last())
    }
}

/// Feeding triangles one after another leaves open exactly the identities
/// contributed an odd number of times in total.
pub proof fn lemma_open_after_parity(tris: Seq<Seq<EdgeKey>>)
    requires
        forall|i: int| 0 <= i < tris.len() ==> (#[trigger] tris[i]).no_duplicates(),
    ensures
        open_after(tris).no_duplicates(),
        forall|k: EdgeKey|
            #[trigger] open_after(tris).contains(k) == (count_key(tris.flatten(), k) % 2 == 1),
    decreases tris.len(),
{
    if tris.len() == 0 {
        assert(tris.flatten() =~= Seq::<EdgeKey>::empty());
        assert forall|k: EdgeKey|
            #[trigger] open_after(tris).contains(k) == (count_key(tris.flatten(), k) % 2 == 1) by {
            assert(!open_after(tris).contains(k));
            assert(count_key(tris.flatten(), k) == 0);
        }
    } else if tris.len() == 1 {
        assert(tris[0].no_duplicates());
        lemma_seed_is_toggle(Seq::empty(), tris[0]);
        lemma_toggle_parity(Seq::empty(), tris[0]);
        assert(tris.flatten() == tris[0]) by {
            tris.lemma_flatten_singleton();
        }
        assert forall|k: EdgeKey|
            #[trigger] open_after(tris).contains(k) == (count_key(tris.flatten(), k) % 2 == 1) by {
            assert(open_after(tris) == toggle_all(Seq::empty(), tris[0]));
            assert(!Seq::<EdgeKey>::empty().contains(k));
            lemma_count_key_eq(tris.flatten(), tris[0], k);
        }
    } else {
        lemma_open_after_parity(tris.drop_last());
        lemma_toggle_parity(open_after(tris.drop_last()), tris.last());
        assert forall|k: EdgeKey|
            #[trigger] open_after(tris).contains(k) == (count_key(tris.flatten(), k) % 2 == 1) by {
            lemma_flatten_count(tris, k);
        }
    }
}

/// Equal rows have equal counts.
proof fn lemma_count_key_eq(a: Seq<EdgeKey>, b: Seq<EdgeKey>, k: EdgeKey)
    requires
        a == b,
    ensures
        count_key(a, k) == count_key(b, k),
{
}

/// Counting over a flattened row of triangles: the last triangle's
/// occurrences come on top of the earlier ones.
proof fn lemma_flatten_count(tris: Seq<Seq<EdgeKey>>, k: EdgeKey)
    requires
        tris.len() > 0,
    ensures
        count_key(tris.flatten(), k) == count_key(tris.drop_last().flatten(), k) + count_key(
            tris.last(),
            k,
        ),
{
    assert(tris =~= tris.drop_last().push(tris.last()));
    tris.drop_last().lemma_flatten_push(tris.last());
    lemma_count_concat(tris.drop_last().flatten(), tris.last(), k);
}

/// Counts add over concatenation.
proof fn lemma_count_concat(a: Seq<EdgeKey>, b: Seq<EdgeKey>, k: EdgeKey)
    ensures
        count_key(a + b, k) == count_key(a, k) + count_key(b, k),
    decreases b.len(),
{
    if b.len() == 0 {
        assert(a + b =~= a);
    } else {
        lemma_count_concat(a, b.drop_last(), k);
        assert((a + b).drop_last() =~= a + b.drop_last());
        assert((a + b).last() == b.last());
    }
}

/// Boundary invariant: a fully closed two-manifold patch — every edge
/// identity contributed an even number of times over the whole triangle
/// row — fed triangle by triangle into one face leaves no open edge.
pub proof fn lemma_closed_patch_boundary_empty(tris: Seq<Seq<EdgeKey>>)
    requires
        forall|i: int| 0 <= i < tris.len() ==> (#[trigger] tris[i]).no_duplicates(),
        forall|k: EdgeKey| count_key(tris.flatten(), k) % 2 == 0,
    ensures
        open_after(tris).len() == 0,
{
    lemma_open_after_parity(tris);
    let open = open_after(tris);
    if open.len() > 0 {
        assert(open.contains(open[0]));
        assert(count_key(tris.flatten(), open[0]) % 2 == 0);
    }
}

/// A single triangle with three distinct edges seeds a fresh face whose
/// boundary is exactly those three edges.
pub proof fn lemma_single_triangle_face(id: int, plane: Plane, triangle: Seq<Edge>)
    requires
        keys_of(triangle).no_duplicates(),
        triangle.len() == 3,
    ensures
        fv_add(fv_new(id, plane), triangle).open_edges == keys_of(triangle),
        fv_add(fv_new(id, plane), triangle).open_edges.len() == 3,
{
    let v = fv_new(id, plane);
    lemma_seed_is_toggle(Seq::empty(), keys_of(triangle));
    assert(Seq::<EdgeKey>::empty() + keys_of(triangle) =~= keys_of(triangle));
}

} // verus!
