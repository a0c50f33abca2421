//! The geodesic sphere as a closed surface.
//!
//! In the icosahedron, and in every sphere subdivided from it, each edge is
//! shared by exactly two triangles, which run through it in opposite directions:
//! the surface has no border and all its triangles are wound the same way. From
//! this follows how many edges and vertices a sphere has.

use vstd::arithmetic::div_mod::lemma_fundamental_div_mod_converse;
use vstd::prelude::*;
use crate::icosphere::{
    base_indices, corners_differ, distinct, edge_at, edges, icosphere, lemma_corner_position, lemma_distinct,
    lemma_distinct_step, lemma_icosphere_wf, lemma_one_midpoint_per_edge, lemma_refined_triangle,
    lemma_triangle_edges, next_corner, pow4, with_one, Shape,
};
use crate::mesh::MAX_VERTICES;

verus! {

/// `twin` pairs the corners of an index list, as the triangles of a closed
/// surface that are wound the same way pair them: the edge that leaves a corner
/// is the edge that leaves its twin, run through the other way; no third corner
/// has that edge; and the three edges of a triangle lead to three different
/// triangles.
pub open spec fn paired(indices: Seq<int>, twin: Seq<int>) -> bool {
    &&& twin.len() == indices.len()
    &&& forall|i: int| 0 <= i < indices.len() ==> reversed(indices, twin, i)
    &&& forall|i: int, j: int|
        0 <= i < indices.len() && 0 <= j < indices.len() ==> no_third(indices, twin, i, j)
    &&& forall|i: int, j: int|
        0 <= i < indices.len() && 0 <= j < indices.len() ==> apart(twin, i, j)
}

/// The twin of corner `i` is a corner whose twin is `i`, and the edge that
/// leaves it is the edge that leaves `i`, reversed.
pub open spec fn reversed(indices: Seq<int>, twin: Seq<int>, i: int) -> bool {
    &&& 0 <= twin[i] < indices.len()
    &&& twin[twin[i]] == i
    &&& indices[twin[i]] == indices[next_corner(i)]
    &&& indices[next_corner(twin[i])] == indices[i]
}

/// Where the corners `i` and `j` have the same edge, `j` is `i` or its twin.
pub open spec fn no_third(indices: Seq<int>, twin: Seq<int>, i: int, j: int) -> bool {
    edge_at(indices, i) == edge_at(indices, j) ==> j == i || j == twin[i]
}

/// The twins of two different corners of one triangle lie in different triangles.
pub open spec fn apart(twin: Seq<int>, i: int, j: int) -> bool {
    i != j && i / 3 == j / 3 ==> twin[i] / 3 != twin[j] / 3
}

/// Number of corners before `j` whose twin comes after them.
pub open spec fn firsts(twin: Seq<int>, j: int) -> int
    decreases j,
{
    if j <= 0 {
        0
    } else {
        firsts(twin, j - 1) + if twin[j - 1] > j - 1 {
            1int
        } else {
            0int
        }
    }
}

/// Number of corners before `j` whose twin is at `bound` or after it.
spec fn pending(twin: Seq<int>, j: int, bound: int) -> int
    decreases j,
{
    if j <= 0 {
        0
    } else {
        pending(twin, j - 1, bound) + if twin[j - 1] >= bound {
            1int
        } else {
            0int
        }
    }
}

/// Raising the bound by one loses the corner whose twin is at the bound, if it
/// is among the corners counted.
proof fn lemma_pending_step(twin: Seq<int>, j: int, bound: int)
    requires
        0 <= j <= twin.len(),
        0 <= bound < twin.len(),
        forall|i: int| 0 <= i < twin.len() ==> 0 <= #[trigger] twin[i] < twin.len(),
        forall|i: int| 0 <= i < twin.len() ==> twin[#[trigger] twin[i]] == i,
    ensures
        pending(twin, j, bound) == pending(twin, j, bound + 1) + if twin[bound] < j {
            1int
        } else {
            0int
        },
    decreases j,
{
    if j > 0 {
        lemma_pending_step(twin, j - 1, bound);
        if twin[j - 1] == bound {
            assert(twin[twin[j - 1]] == j - 1);
        } else if twin[bound] == j - 1 {
            assert(twin[twin[bound]] == bound);
        }
    }
}

/// No corner has its twin beyond the end.
proof fn lemma_pending_none(twin: Seq<int>, j: int)
    requires
        0 <= j <= twin.len(),
        forall|i: int| 0 <= i < twin.len() ==> 0 <= #[trigger] twin[i] < twin.len(),
    ensures
        pending(twin, j, twin.len() as int) == 0,
    decreases j,
{
    if j > 0 {
        lemma_pending_none(twin, j - 1);
    }
}

/// Of the corners before `j`, those whose twin comes after them are as many
/// as those whose twin comes before them and those whose twin is still to come.
proof fn lemma_firsts(twin: Seq<int>, j: int)
    requires
        0 <= j <= twin.len(),
        forall|i: int| 0 <= i < twin.len() ==> 0 <= #[trigger] twin[i] < twin.len(),
        forall|i: int| 0 <= i < twin.len() ==> twin[#[trigger] twin[i]] == i,
        forall|i: int| 0 <= i < twin.len() ==> #[trigger] twin[i] != i,
    ensures
        2 * firsts(twin, j) == j + pending(twin, j, j),
    decreases j,
{
    if j > 0 {
        lemma_firsts(twin, j - 1);
        lemma_pending_step(twin, j - 1, j - 1);
        assert(twin[j - 1] != j - 1);
        assert(twin[twin[j - 1]] == j - 1);
    }
}

/// The distinct edges read up to corner `j` are as many as the corners before
/// `j` whose twin comes after them.
proof fn lemma_distinct_firsts(indices: Seq<int>, twin: Seq<int>, j: int)
    requires
        paired(indices, twin),
        forall|i: int| 0 <= i < indices.len() ==> corners_differ(indices, i),
        0 <= j <= indices.len(),
    ensures
        distinct(edges(indices).take(j)).len() == firsts(twin, j),
    decreases j,
{
    let all = edges(indices);
    if j == 0 {
        assert(all.take(0) =~= Seq::<(int, int)>::empty());
    } else {
        lemma_distinct_firsts(indices, twin, j - 1);
        lemma_distinct_step(all, j - 1);
        let before = all.take(j - 1);
        let found = distinct(before);
        lemma_distinct(before);
        let e = all[j - 1];
        assert(e == edge_at(indices, j - 1));
        assert(reversed(indices, twin, j - 1));
        let other = twin[j - 1];
        assert(reversed(indices, twin, other));
        assert(edge_at(indices, other) == e);
        assert(corners_differ(indices, j - 1));
        assert(other != j - 1);
        assert(distinct(all.take(j)) == with_one(found, e));
        if other < j - 1 {
            assert(before[other] == all[other]);
            assert(all[other] == e);
            assert(found.contains(e));
        } else {
            if found.contains(e) {
                assert(before.contains(e));
                let i = before.index_of(e);
                assert(before[i] == all[i]);
                assert(all[i] == edge_at(indices, i));
                assert(no_third(indices, twin, j - 1, i));
            }
            assert(!found.contains(e));
        }
    }
}

/// A closed surface has half as many edges as its triangles have corners.
pub proof fn lemma_edge_count(indices: Seq<int>, twin: Seq<int>)
    requires
        paired(indices, twin),
        forall|i: int| 0 <= i < indices.len() ==> corners_differ(indices, i),
    ensures
        2 * distinct(edges(indices)).len() == indices.len(),
{
    let n = indices.len() as int;
    assert forall|i: int| 0 <= i < twin.len() implies 0 <= #[trigger] twin[i] < twin.len()
        && twin[twin[i]] == i && twin[i] != i by {
        assert(reversed(indices, twin, i));
        assert(corners_differ(indices, i));
    }
    lemma_distinct_firsts(indices, twin, n);
    lemma_firsts(twin, n);
    lemma_pending_none(twin, n);
    assert(edges(indices).take(n) =~= edges(indices));
}

/// The twin of every corner of the icosahedron.
pub open spec fn base_twin() -> Seq<int> {
    seq![
        14, 18, 3, 2, 15, 6, 5, 27, 9, 8, 24, 12, 11, 21, 0,
        4, 46, 59, 1, 49, 47, 13, 52, 50, 10, 55, 53, 7, 58, 56,
        44, 45, 33, 32, 48, 36, 35, 51, 39, 38, 54, 42, 41, 57, 30,
        31, 16, 20, 34, 19, 23, 37, 22, 26, 40, 25, 29, 43, 28, 17,
    ]
}

/// The icosahedron is a closed surface.
#[verifier::rlimit(40)]
pub proof fn lemma_base_paired()
    ensures
        paired(base_indices(), base_twin()),
{
    let b = base_indices();
    let w = base_twin();
    assert(b.len() == 60 && w.len() == 60);
    assert forall|i: int| 0 <= i < 60 implies reversed(b, w, i) by {}
    assert forall|i: int, j: int| 0 <= i < 60 && 0 <= j < 60 implies apart(w, i, j) by {}
    assert forall|i: int, j: int| 0 <= i < 60 && 0 <= j < 60 implies no_third(b, w, i, j) by {}
}

/// What the edge that leaves corner `q` of a refined block is: `0` for the half
/// of an old edge at its tail, from the old corner to the midpoint; `1` for the
/// half at its head, from the midpoint to the next old corner; `2` for an edge
/// between two midpoints.
pub open spec fn part(q: int) -> int {
    if q == 0 || q == 3 || q == 6 {
        0
    } else if q == 2 || q == 5 || q == 8 {
        1
    } else {
        2
    }
}

/// The old edge, as the place `0`, `1` or `2` of its first corner in the
/// triangle, of which the edge that leaves corner `q` is a half, or from whose
/// midpoint it starts.
pub open spec fn slot(q: int) -> int {
    if q == 0 || q == 1 || q == 5 || q == 9 {
        0
    } else if q == 3 || q == 4 || q == 8 || q == 10 {
        1
    } else {
        2
    }
}

/// The old edge at whose midpoint the edge between two midpoints that leaves
/// corner `q` ends.
pub open spec fn far_slot(q: int) -> int {
    if q == 4 || q == 11 {
        0
    } else if q == 7 || q == 9 {
        1
    } else {
        2
    }
}

/// The corner of the same block that runs the other way through the edge
/// between two midpoints that leaves corner `q`.
pub open spec fn partner(q: int) -> int {
    if q == 1 {
        11
    } else if q == 11 {
        1
    } else if q == 4 {
        9
    } else if q == 9 {
        4
    } else if q == 7 {
        10
    } else {
        7
    }
}

/// The corner of a block at which the half at the head of old edge `c` begins.
pub open spec fn head_place(c: int) -> int {
    if c == 0 {
        5
    } else if c == 1 {
        8
    } else {
        2
    }
}

/// The twin of corner `q` of block `t` after refinement: the halves of an old
/// edge are paired crosswise with the halves of its twin, the edges between
/// midpoints within their block.
pub open spec fn refined_twin_at(twin: Seq<int>, t: int, q: int) -> int {
    if part(q) == 0 {
        let other = twin[3 * t + slot(q)];
        12 * (other / 3) + head_place(other % 3)
    } else if part(q) == 1 {
        let other = twin[3 * t + slot(q)];
        12 * (other / 3) + 3 * (other % 3)
    } else {
        12 * t + partner(q)
    }
}

/// The pairing of the corners after refinement.
pub open spec fn refined_twin(twin: Seq<int>) -> Seq<int> {
    Seq::new(4 * twin.len(), |k: int| refined_twin_at(twin, k / 12, k % 12))
}

/// The twin of a corner lies in another triangle.
proof fn lemma_twin_elsewhere(s: Shape, twin: Seq<int>, t: int, c: int)
    requires
        s.wf(),
        paired(s.indices, twin),
        0 <= t < s.face_count(),
        0 <= c < 3,
    ensures
        0 <= twin[3 * t + c] < s.indices.len(),
        0 <= twin[3 * t + c] / 3 < s.face_count(),
        0 <= twin[3 * t + c] % 3 < 3,
        twin[3 * t + c] == 3 * (twin[3 * t + c] / 3) + twin[3 * t + c] % 3,
        twin[3 * t + c] / 3 != t,
        twin[twin[3 * t + c]] == 3 * t + c,
        s.midpoint(twin[3 * t + c]) == s.midpoint(3 * t + c),
        s.indices[twin[3 * t + c]] == s.indices[next_corner(3 * t + c)],
        s.indices[next_corner(twin[3 * t + c])] == s.indices[3 * t + c],
{
    let j = 3 * t + c;
    let o = twin[j];
    assert(reversed(s.indices, twin, j));
    assert(edge_at(s.indices, o) == edge_at(s.indices, j));
    lemma_one_midpoint_per_edge(s, j, o);
    lemma_triangle_edges(s, t);
    if o / 3 == t {
        assert(o == 3 * t || o == 3 * t + 1 || o == 3 * t + 2);
        assert(j == 3 * t || j == 3 * t + 1 || j == 3 * t + 2);
        assert(next_corner(3 * t) == 3 * t + 1);
        assert(next_corner(3 * t + 1) == 3 * t + 2);
        assert(next_corner(3 * t + 2) == 3 * t);
    }
}

/// From where to where the edge goes that leaves corner `q` of block `t`.
proof fn lemma_new_edge(s: Shape, t: int, q: int)
    requires
        s.wf(),
        0 <= t < s.face_count(),
        0 <= q < 12,
    ensures
        ({
            let r = s.refine().indices;
            let k = 12 * t + q;
            let j = 3 * t + slot(q);
            let n = s.vertex_count();
            &&& 0 <= k < r.len()
            &&& 0 <= next_corner(k) < r.len()
            &&& next_corner(k) / 3 == k / 3
            &&& k / 12 == t && k % 12 == q
            &&& 0 <= j < s.indices.len() && j / 3 == t && j % 3 == slot(q)
            &&& part(q) == 0 ==> r[k] == s.indices[j] && r[next_corner(k)] == s.midpoint(j)
            &&& part(q) == 1 ==> r[k] == s.midpoint(j) && r[next_corner(k)]
                == s.indices[next_corner(j)]
            &&& part(q) == 2 ==> r[k] == s.midpoint(j) && r[next_corner(k)] == s.midpoint(
                3 * t + far_slot(q),
            ) && slot(q) != far_slot(q)
            &&& n <= s.midpoint(j)
            &&& n <= s.midpoint(3 * t + far_slot(q))
            &&& 0 <= s.indices[j] < n
            &&& 0 <= s.indices[next_corner(j)] < n
            &&& s.indices[j] != s.indices[next_corner(j)]
        }),
{
    let k = 12 * t + q;
    lemma_refined_triangle(s, t);
    lemma_triangle_edges(s, t);
    lemma_corner_position(k);
    lemma_fundamental_div_mod_converse(k, 12, t, q);
    lemma_fundamental_div_mod_converse(3 * t + slot(q), 3, t, slot(q));
    assert(next_corner(3 * t) == 3 * t + 1);
    assert(next_corner(3 * t + 1) == 3 * t + 2);
    assert(next_corner(3 * t + 2) == 3 * t);
    assert(next_corner(k) == 12 * t + next_corner(q));
}

/// After refinement the twin of a corner runs the other way through its edge,
/// and is the twin of its twin.
proof fn lemma_new_reversed(s: Shape, twin: Seq<int>, t: int, q: int)
    requires
        s.wf(),
        paired(s.indices, twin),
        0 <= t < s.face_count(),
        0 <= q < 12,
    ensures
        ({
            let r = s.refine().indices;
            let k = 12 * t + q;
            let w = refined_twin_at(twin, t, q);
            &&& 0 <= w < r.len()
            &&& 0 <= w / 12 < s.face_count()
            &&& refined_twin_at(twin, w / 12, w % 12) == k
            &&& r[w] == r[next_corner(k)]
            &&& r[next_corner(w)] == r[k]
        }),
{
    lemma_new_edge(s, t, q);
    if part(q) == 2 {
        lemma_new_edge(s, t, partner(q));
    } else {
        let c = slot(q);
        lemma_twin_elsewhere(s, twin, t, c);
        let other = twin[3 * t + c];
        let far = other / 3;
        let place = if part(q) == 0 {
            head_place(other % 3)
        } else {
            3 * (other % 3)
        };
        lemma_new_edge(s, far, place);
    }
}

/// The triangle in which the refined twin of a corner lies: for the half of an
/// old edge one of the four in the block of the old twin's triangle, for an
/// edge between midpoints another of the four in its own block.
proof fn lemma_new_twin_face(s: Shape, twin: Seq<int>, t: int, q: int)
    requires
        s.wf(),
        paired(s.indices, twin),
        0 <= t < s.face_count(),
        0 <= q < 12,
    ensures
        ({
            let w = refined_twin_at(twin, t, q);
            let other = twin[3 * t + slot(q)];
            &&& part(q) != 2 ==> 4 * (other / 3) <= w / 3 < 4 * (other / 3) + 4 && other / 3 != t
            &&& part(q) == 2 ==> w / 3 == 4 * t + partner(q) / 3
        }),
{
    let w = refined_twin_at(twin, t, q);
    if part(q) == 2 {
        lemma_fundamental_div_mod_converse(w, 3, 4 * t + partner(q) / 3, partner(q) % 3);
    } else {
        lemma_twin_elsewhere(s, twin, t, slot(q));
        let other = twin[3 * t + slot(q)];
        let place = w - 12 * (other / 3);
        lemma_fundamental_div_mod_converse(w, 3, 4 * (other / 3) + place / 3, place % 3);
    }
}

/// After refinement the three edges of a triangle lead to three different
/// triangles.
proof fn lemma_new_apart(s: Shape, twin: Seq<int>, t: int, q1: int, q2: int)
    requires
        s.wf(),
        paired(s.indices, twin),
        0 <= t < s.face_count(),
        0 <= q1 < 12,
        0 <= q2 < 12,
        q1 != q2,
        q1 / 3 == q2 / 3,
    ensures
        refined_twin_at(twin, t, q1) / 3 != refined_twin_at(twin, t, q2) / 3,
{
    lemma_new_twin_face(s, twin, t, q1);
    lemma_new_twin_face(s, twin, t, q2);
    if part(q1) != 2 && part(q2) != 2 {
        let j1 = 3 * t + slot(q1);
        let j2 = 3 * t + slot(q2);
        lemma_fundamental_div_mod_converse(j1, 3, t, slot(q1));
        lemma_fundamental_div_mod_converse(j2, 3, t, slot(q2));
        assert(apart(twin, j1, j2));
    }
}

/// After refinement no third corner has the edge of a corner and its twin.
proof fn lemma_new_no_third(s: Shape, twin: Seq<int>, t1: int, q1: int, t2: int, q2: int)
    requires
        s.wf(),
        paired(s.indices, twin),
        0 <= t1 < s.face_count(),
        0 <= q1 < 12,
        0 <= t2 < s.face_count(),
        0 <= q2 < 12,
        edge_at(s.refine().indices, 12 * t1 + q1) == edge_at(s.refine().indices, 12 * t2 + q2),
    ensures
        12 * t2 + q2 == 12 * t1 + q1 || 12 * t2 + q2 == refined_twin_at(twin, t1, q1),
{
    lemma_new_edge(s, t1, q1);
    lemma_new_edge(s, t2, q2);
    let j1 = 3 * t1 + slot(q1);
    let j2 = 3 * t2 + slot(q2);
    if part(q1) != 2 && part(q2) != 2 {
        // two halves of old edges: the same midpoint and the same old corner
        assert(s.midpoint(j1) == s.midpoint(j2));
        lemma_one_midpoint_per_edge(s, j1, j2);
        assert(no_third(s.indices, twin, j1, j2));
        lemma_twin_elsewhere(s, twin, t1, slot(q1));
    } else if part(q1) == 2 && part(q2) == 2 {
        // two edges between midpoints: the same two midpoints
        let f1 = 3 * t1 + far_slot(q1);
        let f2 = 3 * t2 + far_slot(q2);
        lemma_fundamental_div_mod_converse(f1, 3, t1, far_slot(q1));
        lemma_fundamental_div_mod_converse(f2, 3, t2, far_slot(q2));
        lemma_one_midpoint_per_edge(s, j1, j2);
        lemma_one_midpoint_per_edge(s, j1, f2);
        lemma_one_midpoint_per_edge(s, f1, j2);
        lemma_one_midpoint_per_edge(s, f1, f2);
        lemma_one_midpoint_per_edge(s, j1, f1);
        lemma_triangle_edges(s, t1);
        lemma_triangle_edges(s, t2);
        assert(no_third(s.indices, twin, j1, j2));
        assert(no_third(s.indices, twin, j1, f2));
        assert(no_third(s.indices, twin, f1, j2));
        assert(no_third(s.indices, twin, f1, f2));
        assert(apart(twin, j1, f1));
        if t1 != t2 {
            lemma_twin_elsewhere(s, twin, t1, slot(q1));
            lemma_twin_elsewhere(s, twin, t1, far_slot(q1));
        }
    }
}

/// Refinement keeps a closed surface closed, with the halves of the old edges
/// and the edges between midpoints paired as `refined_twin` says.
pub proof fn lemma_refine_paired(s: Shape, twin: Seq<int>)
    requires
        s.wf(),
        paired(s.indices, twin),
    ensures
        paired(s.refine().indices, refined_twin(twin)),
{
    let r = s.refine().indices;
    let w = refined_twin(twin);
    assert forall|k: int| 0 <= k < r.len() implies reversed(r, w, k) by {
        lemma_corner_position(k);
        lemma_new_reversed(s, twin, k / 12, k % 12);
    }
    assert forall|i: int, j: int| 0 <= i < r.len() && 0 <= j < r.len() implies no_third(
        r,
        w,
        i,
        j,
    ) by {
        lemma_corner_position(i);
        lemma_corner_position(j);
        if edge_at(r, i) == edge_at(r, j) {
            lemma_new_no_third(s, twin, i / 12, i % 12, j / 12, j % 12);
        }
    }
    assert forall|i: int, j: int| 0 <= i < r.len() && 0 <= j < r.len() implies apart(w, i, j) by {
        lemma_corner_position(i);
        lemma_corner_position(j);
        if i != j && i / 3 == j / 3 {
            assert(i / 12 == j / 12);
            assert((i % 12) / 3 == (j % 12) / 3);
            lemma_new_apart(s, twin, i / 12, i % 12, j % 12);
        }
    }
}

/// The pairing of the corners of the geodesic sphere of a level.
pub open spec fn sphere_twin(level: nat) -> Seq<int>
    decreases level,
{
    if level == 0 {
        base_twin()
    } else {
        refined_twin(sphere_twin((level - 1) as nat))
    }
}

/// Every geodesic sphere is a closed surface whose triangles are all wound the
/// same way: each edge is shared by exactly two triangles, which run through
/// it in opposite directions.
pub proof fn lemma_icosphere_closed(level: nat)
    ensures
        paired(icosphere(level).indices, sphere_twin(level)),
    decreases level,
{
    if level == 0 {
        lemma_base_paired();
    } else {
        let before = (level - 1) as nat;
        lemma_icosphere_closed(before);
        lemma_icosphere_wf(before);
        lemma_refine_paired(icosphere(before), sphere_twin(before));
    }
}

/// The powers of four grow.
pub proof fn lemma_pow4_grows(low: nat, high: nat)
    requires
        low <= high,
    ensures
        pow4(low) <= pow4(high),
    decreases high - low,
{
    if low < high {
        lemma_pow4_grows(low, (high - 1) as nat);
    }
}

/// A geodesic sphere of a level has `20 * 4^level` triangles, `30 * 4^level`
/// edges and `10 * 4^level + 2` vertices: vertices less edges plus triangles
/// are two, as on every sphere.
pub proof fn lemma_counts(level: nat)
    ensures
        icosphere(level).face_count() == 20 * pow4(level),
        icosphere(level).split_edges().len() == 30 * pow4(level),
        icosphere(level).vertex_count() == 10 * pow4(level) + 2,
        icosphere(level).vertex_count() - icosphere(level).split_edges().len() + icosphere(
            level,
        ).face_count() == 2,
    decreases level,
{
    lemma_icosphere_wf(level);
    lemma_icosphere_closed(level);
    lemma_edge_count(icosphere(level).indices, sphere_twin(level));
    if level > 0 {
        let before = (level - 1) as nat;
        lemma_counts(before);
    }
}

/// The vertices of a geodesic sphere are few enough for 16-bit indices up to
/// the sixth level, and no further.
pub proof fn lemma_sixteen_bits(level: nat)
    ensures
        icosphere(level).vertex_count() <= MAX_VERTICES <==> level <= 6,
{
    lemma_counts(level);
    assert(pow4(0) == 1);
    assert(pow4(1) == 4);
    assert(pow4(2) == 16);
    assert(pow4(3) == 64);
    assert(pow4(4) == 256);
    assert(pow4(5) == 1024);
    assert(pow4(6) == 4096);
    assert(pow4(7) == 16384);
    if level >= 7 {
        lemma_pow4_grows(7, level);
    } else {
        lemma_pow4_grows(level, 6);
    }
}

} // verus!
