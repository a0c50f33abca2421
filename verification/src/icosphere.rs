//! Topology of the geodesic sphere.
//!
//! The terrain mesh starts as an icosahedron and is refined by splitting every
//! triangle into four: each edge gets a midpoint vertex, shared by the two
//! triangles that meet in the edge. This module computes which vertices exist and
//! how they are connected. Where a vertex lies in space is a matter of arithmetic
//! with fractions and is left to the caller, who learns of every midpoint vertex
//! the two older vertices between which it lies.

use std::collections::HashMap;
use vstd::arithmetic::div_mod::lemma_fundamental_div_mod_converse;
use vstd::prelude::*;
use vstd::std_specs::hash::*;
use crate::mesh::{as_ints, TriangleList, MAX_VERTICES};
use crate::surface::{lemma_counts, lemma_sixteen_bits};

verus! {

/// Number of vertices of the icosahedron.
pub const BASE_VERTICES: usize = 12;

/// An undirected edge: its two end points, the smaller first.
pub open spec fn edge_key(a: int, b: int) -> (int, int) {
    if a < b {
        (a, b)
    } else {
        (b, a)
    }
}

/// Position of the corner that follows corner `j` in its triangle.
pub open spec fn next_corner(j: int) -> int {
    if j % 3 == 2 {
        j - 2
    } else {
        j + 1
    }
}

/// Corner `k` of an index list is another vertex than the next corner of its
/// triangle.
pub open spec fn corners_differ(indices: Seq<int>, k: int) -> bool {
    indices[k] != indices[next_corner(k)]
}

/// The edge that leaves corner `j` of an index list for the next corner of the
/// same triangle.
pub open spec fn edge_at(indices: Seq<int>, j: int) -> (int, int) {
    edge_key(indices[j], indices[next_corner(j)])
}

/// The edges of all triangles, three per triangle, in the order of their first corners.
pub open spec fn edges(indices: Seq<int>) -> Seq<(int, int)> {
    Seq::new(indices.len(), |j: int| edge_at(indices, j))
}

/// The elements of `s` without repetition, each at the place of its first occurrence.
pub open spec fn distinct<T>(s: Seq<T>) -> Seq<T>
    decreases s.len(),
{
    if s.len() == 0 {
        Seq::empty()
    } else {
        let before = distinct(s.drop_last());
        if before.contains(s.last()) {
            before
        } else {
            before.push(s.last())
        }
    }
}

/// `4` to the power `n`.
pub open spec fn pow4(n: nat) -> nat
    decreases n,
{
    if n == 0 {
        1
    } else {
        4 * pow4((n - 1) as nat)
    }
}

/// What a geodesic sphere is made of, apart from positions in space.
///
/// The vertices are numbered from 0. The first twelve are the corners of the
/// icosahedron. Vertex `12 + k` is the midpoint of the edge between the two
/// vertices `parents[k]`. `indices` lists the corners of the triangles, three
/// per triangle.
pub struct Shape {
    pub parents: Seq<(int, int)>,
    pub indices: Seq<int>,
}

impl Shape {
    /// Number of vertices.
    pub open spec fn vertex_count(self) -> int {
        BASE_VERTICES + self.parents.len()
    }

    /// Number of triangles.
    pub open spec fn face_count(self) -> int {
        self.indices.len() as int / 3
    }

    /// The corners come in threes, each names a vertex, the three corners of a
    /// triangle differ, and every midpoint vertex lies between two different
    /// vertices that were numbered before it.
    pub open spec fn wf(self) -> bool {
        &&& self.indices.len() % 3 == 0
        &&& forall|k: int|
            0 <= k < self.indices.len() ==> 0 <= (#[trigger] self.indices[k])
                < self.vertex_count()
        &&& forall|k: int| 0 <= k < self.indices.len() ==> corners_differ(self.indices, k)
        &&& forall|k: int|
            0 <= k < self.parents.len() ==> 0 <= (#[trigger] self.parents[k]).0
                < self.parents[k].1 < BASE_VERTICES + k
    }

    /// The edges that get a midpoint when the shape is refined, in the order in
    /// which the midpoints are numbered.
    pub open spec fn split_edges(self) -> Seq<(int, int)> {
        distinct(edges(self.indices))
    }

    /// Number of the midpoint vertex of the edge that leaves corner `j`.
    pub open spec fn midpoint(self, j: int) -> int {
        self.vertex_count() + self.split_edges().index_of(edge_at(self.indices, j))
    }

    /// Corner `q` of the twelve that refinement puts in the place of triangle `t`.
    /// With the corners `v1 v2 v3` of the triangle and the midpoints `a` of
    /// `v1 v2`, `b` of `v2 v3` and `c` of `v3 v1`, the twelve are
    /// `v1 a c`, `v2 b a`, `v3 c b`, `a b c`.
    pub open spec fn refined_corner(self, t: int, q: int) -> int {
        if q == 0 {
            self.indices[3 * t]
        } else if q == 3 {
            self.indices[3 * t + 1]
        } else if q == 6 {
            self.indices[3 * t + 2]
        } else if q == 1 || q == 5 || q == 9 {
            self.midpoint(3 * t)
        } else if q == 4 || q == 8 || q == 10 {
            self.midpoint(3 * t + 1)
        } else {
            self.midpoint(3 * t + 2)
        }
    }

    /// Corner `k` of the refined index list.
    #[verifier::opaque]
    pub open spec fn refined_index(self, k: int) -> int {
        self.refined_corner(k / 12, k % 12)
    }

    /// The shape after one subdivision: one new vertex per edge, four triangles
    /// per triangle.
    pub open spec fn refine(self) -> Shape {
        Shape {
            parents: self.parents + self.split_edges(),
            indices: Seq::new(4 * self.indices.len(), |k: int| self.refined_index(k)),
        }
    }
}

/// The twenty triangles of the icosahedron.
pub open spec fn base_indices() -> Seq<int> {
    seq![
        0, 11, 5, 0, 5, 1, 0, 1, 7, 0, 7, 10, 0, 10, 11,
        1, 5, 9, 5, 11, 4, 11, 10, 2, 10, 7, 6, 7, 1, 8,
        3, 9, 4, 3, 4, 2, 3, 2, 6, 3, 6, 8, 3, 8, 9,
        4, 9, 5, 2, 4, 11, 6, 2, 10, 8, 6, 7, 9, 8, 1,
    ]
}

/// The icosahedron.
pub open spec fn base_shape() -> Shape {
    Shape { parents: Seq::empty(), indices: base_indices() }
}

/// The geodesic sphere after `level` subdivisions of the icosahedron.
pub open spec fn icosphere(level: nat) -> Shape
    decreases level,
{
    if level == 0 {
        base_shape()
    } else {
        icosphere((level - 1) as nat).refine()
    }
}

/// In a sequence without repetition an element is found where it stands.
pub proof fn lemma_index_of_unique<T>(s: Seq<T>, i: int)
    requires
        s.no_duplicates(),
        0 <= i < s.len(),
    ensures
        s.index_of(s[i]) == i,
{
    let j = s.index_of(s[i]);
    assert(0 <= j < s.len() && s[j] == s[i]);
}

/// `distinct(s)` holds the elements of `s`, each once.
pub proof fn lemma_distinct<T>(s: Seq<T>)
    ensures
        distinct(s).no_duplicates(),
        distinct(s).len() <= s.len(),
        forall|i: int| 0 <= i < s.len() ==> distinct(s).contains(#[trigger] s[i]),
        forall|j: int| 0 <= j < distinct(s).len() ==> s.contains(#[trigger] distinct(s)[j]),
        forall|x: T| distinct(s).contains(x) <==> s.contains(x),
    decreases s.len(),
{
    if s.len() > 0 {
        let head = s.drop_last();
        let before = distinct(head);
        let all = distinct(s);
        lemma_distinct(head);
        assert forall|i: int| 0 <= i < s.len() implies all.contains(#[trigger] s[i]) by {
            if i < s.len() - 1 {
                assert(before.contains(head[i]));
                let j = before.index_of(head[i]);
                assert(all[j] == s[i]);
            } else if before.contains(s.last()) {
                let j = before.index_of(s.last());
                assert(all[j] == s[i]);
            } else {
                assert(all[before.len() as int] == s[i]);
            }
        }
        assert forall|j: int| 0 <= j < all.len() implies s.contains(#[trigger] all[j]) by {
            if j < before.len() {
                assert(head.contains(before[j]));
                let i = head.index_of(before[j]);
                assert(s[i] == all[j]);
            } else {
                assert(s[s.len() - 1] == all[j]);
            }
        }
    }
}

/// `found` with `x` added at the end, unless it was there.
pub open spec fn with_one<T>(found: Seq<T>, x: T) -> Seq<T> {
    if found.contains(x) {
        found
    } else {
        found.push(x)
    }
}

/// Reading one more element of `s` adds it to the distinct elements at the end,
/// unless it was there.
pub proof fn lemma_distinct_step<T>(s: Seq<T>, j: int)
    requires
        0 <= j < s.len(),
    ensures
        distinct(s.take(j + 1)) == with_one(distinct(s.take(j)), s[j]),
{
    assert(s.take(j + 1).drop_last() =~= s.take(j));
    assert(s.take(j + 1).last() == s[j]);
}

/// The distinct elements of a prefix are a prefix of the distinct elements.
pub proof fn lemma_distinct_prefix<T>(s: Seq<T>, j: int)
    requires
        0 <= j <= s.len(),
    ensures
        distinct(s.take(j)).len() <= distinct(s).len(),
        distinct(s.take(j)) == distinct(s).take(distinct(s.take(j)).len() as int),
    decreases s.len() - j,
{
    if j == s.len() {
        assert(s.take(j) =~= s);
        assert(distinct(s).take(distinct(s).len() as int) =~= distinct(s));
    } else {
        lemma_distinct_prefix(s, j + 1);
        lemma_distinct_step(s, j);
        let small = distinct(s.take(j));
        let large = distinct(s.take(j + 1));
        assert(small =~= large.take(small.len() as int));
        assert(small =~= distinct(s).take(small.len() as int));
    }
}

/// Pairs of vertex numbers as pairs of mathematical integers.
pub open spec fn pair_ints(pairs: Seq<(u16, u16)>) -> Seq<(int, int)> {
    pairs.map_values(|p: (u16, u16)| (p.0 as int, p.1 as int))
}

/// The key under which the midpoint of an edge is remembered.
spec fn encode(e: (int, int)) -> int {
    e.0 * 65536 + e.1
}

/// An edge between two different vertices that 16 bits can number.
spec fn valid_edge(e: (int, int)) -> bool {
    0 <= e.0 < e.1 < 65536
}

/// The cache knows exactly the edges in `found`, and of each the number of its
/// midpoint: `first` and up, in the order of `found`.
#[verifier::opaque]
spec fn cache_matches(cache: Map<u64, u16>, found: Seq<(int, int)>, first: int) -> bool {
    &&& forall|i: int|
        0 <= i < found.len() ==> valid_edge(#[trigger] found[i]) && cache.contains_key(
            encode(found[i]) as u64,
        ) && cache[encode(found[i]) as u64] == first + i
    &&& forall|k: u64| #[trigger]
        cache.contains_key(k) ==> first <= cache[k] < first + found.len() && encode(
            found[cache[k] - first],
        ) == k
}

/// Looks up the midpoint of the edge between `v1` and `v2`, and numbers a new
/// vertex for it where the edge has none yet. `None` where that vertex would be
/// one more than 16 bits can number.
fn get_midpoint(
    v1: u16,
    v2: u16,
    first: usize,
    fresh: &mut Vec<(u16, u16)>,
    cache: &mut HashMap<u64, u16>,
) -> (r: Option<u16>)
    requires
        v1 != v2,
        first + old(fresh)@.len() <= MAX_VERTICES,
        cache_matches(old(cache)@, pair_ints(old(fresh)@), first as int),
    ensures
        ({
            let before = pair_ints(old(fresh)@);
            let after = pair_ints(final(fresh)@);
            let e = edge_key(v1 as int, v2 as int);
            match r {
                Some(m) => {
                    &&& after == with_one(before, e)
                    &&& first + after.len() <= MAX_VERTICES
                    &&& cache_matches(final(cache)@, after, first as int)
                    &&& first <= m < first + after.len()
                    &&& after[m - first] == e
                },
                None => {
                    &&& !before.contains(e)
                    &&& first + before.len() == MAX_VERTICES
                    &&& after == before
                },
            }
        }),
{
    broadcast use vstd::std_specs::hash::group_hash_axioms;

    reveal(cache_matches);
    let ghost before = pair_ints(fresh@);
    let ghost e = edge_key(v1 as int, v2 as int);
    let (low, high) = if v1 < v2 {
        (v1, v2)
    } else {
        (v2, v1)
    };
    let key: u64 = (low as u64) * 65536 + (high as u64);
    assert(key == encode(e) && valid_edge(e));
    match cache.get(&key) {
        Some(index) => {
            let m: u16 = *index;
            proof {
                let at = before[m - first];
                assert(valid_edge(at) && encode(at) == encode(e));
                assert(at == e);
            }
            Some(m)
        },
        None => {
            proof {
                if before.contains(e) {
                    let i = before.index_of(e);
                    assert(valid_edge(before[i]));
                    assert(cache@.contains_key(encode(before[i]) as u64));
                }
            }
            if first + fresh.len() >= MAX_VERTICES {
                return None;
            }
            let m: u16 = (first + fresh.len()) as u16;
            let ghost old_cache = cache@;
            fresh.push((low, high));
            cache.insert(key, m);
            proof {
                let after = pair_ints(fresh@);
                assert(after =~= before.push(e));
                assert forall|i: int| 0 <= i < after.len() implies valid_edge(
                    #[trigger] after[i],
                ) && cache@.contains_key(encode(after[i]) as u64) && cache@[encode(
                    after[i],
                ) as u64] == first + i by {
                    if i < before.len() {
                        assert(after[i] == before[i]);
                        assert(valid_edge(before[i]));
                        assert(before.contains(before[i]));
                        assert(encode(before[i]) != encode(e));
                    }
                }
                assert forall|k: u64| #[trigger] cache@.contains_key(k) implies first <= cache@[k]
                    < first + after.len() && encode(after[cache@[k] - first]) == k by {
                    if k != key {
                        assert(old_cache.contains_key(k));
                        assert(after[old_cache[k] - first] == before[old_cache[k] - first]);
                    }
                }
            }
            Some(m)
        },
    }
}

/// `value` numbers the midpoint of the edge `e`, by the edges in `found`.
spec fn is_midpoint(found: Seq<(int, int)>, first: int, value: int, e: (int, int)) -> bool {
    first <= value < first + found.len() && found[value - first] == e
}

/// The last twelve entries of `r` are the corners put in the place of the
/// triangle `v1 v2 v3`, where the midpoints are told by the edges in `found`.
spec fn block_ok(
    found: Seq<(int, int)>,
    first: int,
    v1: int,
    v2: int,
    v3: int,
    r: Seq<u16>,
    start: int,
) -> bool {
    let e1 = edge_key(v1, v2);
    let e2 = edge_key(v2, v3);
    let e3 = edge_key(v3, v1);
    &&& r.len() == start + 12
    &&& r[start] == v1
    &&& is_midpoint(found, first, r[start + 1] as int, e1)
    &&& is_midpoint(found, first, r[start + 2] as int, e3)
    &&& r[start + 3] == v2
    &&& is_midpoint(found, first, r[start + 4] as int, e2)
    &&& is_midpoint(found, first, r[start + 5] as int, e1)
    &&& r[start + 6] == v3
    &&& is_midpoint(found, first, r[start + 7] as int, e3)
    &&& is_midpoint(found, first, r[start + 8] as int, e2)
    &&& is_midpoint(found, first, r[start + 9] as int, e1)
    &&& is_midpoint(found, first, r[start + 10] as int, e2)
    &&& is_midpoint(found, first, r[start + 11] as int, e3)
}

/// The edges found after the three edges of the triangle `v1 v2 v3` were looked up.
spec fn with_triangle(found: Seq<(int, int)>, v1: int, v2: int, v3: int) -> Seq<(int, int)> {
    with_one(with_one(with_one(found, edge_key(v1, v2)), edge_key(v2, v3)), edge_key(v3, v1))
}

/// Puts four triangles in the place of the triangle `v1 v2 v3`: looks up or
/// numbers the midpoints of its edges and appends the twelve corners. `false`
/// where a midpoint would need a number beyond 16 bits.
fn split_triangle(
    v1: u16,
    v2: u16,
    v3: u16,
    first: usize,
    fresh: &mut Vec<(u16, u16)>,
    cache: &mut HashMap<u64, u16>,
    refined: &mut Vec<u16>,
) -> (fits: bool)
    requires
        v1 != v2,
        v2 != v3,
        v3 != v1,
        first + old(fresh)@.len() <= MAX_VERTICES,
        cache_matches(old(cache)@, pair_ints(old(fresh)@), first as int),
    ensures
        ({
            let before = pair_ints(old(fresh)@);
            let after = with_triangle(before, v1 as int, v2 as int, v3 as int);
            let start = old(refined)@.len() as int;
            if fits {
                &&& pair_ints(final(fresh)@) == after
                &&& before.len() <= after.len()
                &&& before == after.take(before.len() as int)
                &&& first + after.len() <= MAX_VERTICES
                &&& cache_matches(final(cache)@, after, first as int)
                &&& final(refined)@.take(start) == old(refined)@
                &&& block_ok(
                    after,
                    first as int,
                    v1 as int,
                    v2 as int,
                    v3 as int,
                    final(refined)@,
                    start,
                )
            } else {
                first + after.len() > MAX_VERTICES
            }
        }),
{
    let ghost found0 = pair_ints(fresh@);
    let ghost done = refined@;
    let a: u16 = match get_midpoint(v1, v2, first, fresh, cache) {
        Some(m) => m,
        None => {
            return false;
        },
    };
    let ghost found1 = pair_ints(fresh@);
    let b: u16 = match get_midpoint(v2, v3, first, fresh, cache) {
        Some(m) => m,
        None => {
            return false;
        },
    };
    let ghost found2 = pair_ints(fresh@);
    let c: u16 = match get_midpoint(v3, v1, first, fresh, cache) {
        Some(m) => m,
        None => {
            return false;
        },
    };
    let ghost found3 = pair_ints(fresh@);
    refined.push(v1);
    refined.push(a);
    refined.push(c);
    refined.push(v2);
    refined.push(b);
    refined.push(a);
    refined.push(v3);
    refined.push(c);
    refined.push(b);
    refined.push(a);
    refined.push(b);
    refined.push(c);
    proof {
        assert(found0 =~= found3.take(found0.len() as int));
        assert(found1[a - first] == found3[a - first]);
        assert(found2[b - first] == found3[b - first]);
        assert(refined@ =~= done + seq![v1, a, c, v2, b, a, v3, c, b, a, b, c]);
        assert(refined@.take(done.len() as int) =~= done);
    }
    true
}

/// The three corners of a triangle, and so its three edges, differ.
pub proof fn lemma_triangle_edges(s: Shape, t: int)
    requires
        s.wf(),
        0 <= t < s.face_count(),
    ensures
        ({
            let v1 = s.indices[3 * t];
            let v2 = s.indices[3 * t + 1];
            let v3 = s.indices[3 * t + 2];
            let n = s.vertex_count();
            &&& 0 <= v1 < n && 0 <= v2 < n && 0 <= v3 < n
            &&& v1 != v2 && v2 != v3 && v3 != v1
            &&& edge_at(s.indices, 3 * t) == edge_key(v1, v2)
            &&& edge_at(s.indices, 3 * t + 1) == edge_key(v2, v3)
            &&& edge_at(s.indices, 3 * t + 2) == edge_key(v3, v1)
            &&& edge_key(v1, v2) != edge_key(v2, v3)
            &&& edge_key(v2, v3) != edge_key(v3, v1)
            &&& edge_key(v3, v1) != edge_key(v1, v2)
        }),
{
    assert(next_corner(3 * t) == 3 * t + 1);
    assert(next_corner(3 * t + 1) == 3 * t + 2);
    assert(next_corner(3 * t + 2) == 3 * t);
    assert(corners_differ(s.indices, 3 * t));
    assert(corners_differ(s.indices, 3 * t + 1));
    assert(corners_differ(s.indices, 3 * t + 2));
}

/// Looking up the three edges of triangle `t` finds the distinct edges of the
/// first `t + 1` triangles, which are among the distinct edges of all.
proof fn lemma_triangle_found(s: Shape, t: int)
    requires
        s.indices.len() % 3 == 0,
        0 <= t < s.face_count(),
    ensures
        distinct(edges(s.indices).take(3 * t + 3)) == with_triangle(
            distinct(edges(s.indices).take(3 * t)),
            s.indices[3 * t],
            s.indices[3 * t + 1],
            s.indices[3 * t + 2],
        ),
        distinct(edges(s.indices).take(3 * t + 3)).len() <= s.split_edges().len(),
{
    let all = edges(s.indices);
    assert(next_corner(3 * t) == 3 * t + 1);
    assert(next_corner(3 * t + 1) == 3 * t + 2);
    assert(next_corner(3 * t + 2) == 3 * t);
    lemma_distinct_step(all, 3 * t);
    lemma_distinct_step(all, 3 * t + 1);
    lemma_distinct_step(all, 3 * t + 2);
    lemma_distinct_prefix(all, 3 * t + 3);
}

/// Every edge of the shape has a midpoint among the new vertices of its
/// refinement, and that midpoint lies on this edge.
pub proof fn lemma_midpoint(s: Shape, j: int)
    requires
        0 <= j < s.indices.len(),
    ensures
        s.vertex_count() <= s.midpoint(j) < s.refine().vertex_count(),
        s.refine().parents[s.midpoint(j) - BASE_VERTICES] == edge_at(s.indices, j),
{
    let all = edges(s.indices);
    lemma_distinct(all);
    assert(all[j] == edge_at(s.indices, j));
    assert(s.split_edges().contains(all[j]));
}

/// Corner `q` of triangle `t` stands at `12 * t + q` in the refined index list.
pub proof fn lemma_refined_entry(s: Shape, t: int, q: int)
    requires
        0 <= t,
        0 <= q < 12,
        3 * t < s.indices.len(),
        s.indices.len() % 3 == 0,
    ensures
        12 * t + q < s.refine().indices.len(),
        s.refine().indices[12 * t + q] == s.refined_corner(t, q),
{
    reveal(Shape::refined_index);
    lemma_fundamental_div_mod_converse(12 * t + q, 12, t, q);
}

/// The twelve corners that refinement puts in the place of triangle `t`.
pub proof fn lemma_refined_triangle(s: Shape, t: int)
    requires
        s.wf(),
        0 <= t < s.face_count(),
    ensures
        ({
            let r = s.refine().indices;
            let v1 = s.indices[3 * t];
            let v2 = s.indices[3 * t + 1];
            let v3 = s.indices[3 * t + 2];
            let a = s.midpoint(3 * t);
            let b = s.midpoint(3 * t + 1);
            let c = s.midpoint(3 * t + 2);
            let n = s.vertex_count();
            let m = s.refine().vertex_count();
            &&& 12 * t + 11 < r.len()
            &&& r[12 * t] == v1 && r[12 * t + 1] == a && r[12 * t + 2] == c
            &&& r[12 * t + 3] == v2 && r[12 * t + 4] == b && r[12 * t + 5] == a
            &&& r[12 * t + 6] == v3 && r[12 * t + 7] == c && r[12 * t + 8] == b
            &&& r[12 * t + 9] == a && r[12 * t + 10] == b && r[12 * t + 11] == c
            &&& 0 <= v1 < n && 0 <= v2 < n && 0 <= v3 < n
            &&& n <= a < m && n <= b < m && n <= c < m
            &&& a != b && b != c && c != a
        }),
{
    lemma_triangle_edges(s, t);
    lemma_midpoint(s, 3 * t);
    lemma_midpoint(s, 3 * t + 1);
    lemma_midpoint(s, 3 * t + 2);
    lemma_refined_entry(s, t, 0);
    lemma_refined_entry(s, t, 1);
    lemma_refined_entry(s, t, 2);
    lemma_refined_entry(s, t, 3);
    lemma_refined_entry(s, t, 4);
    lemma_refined_entry(s, t, 5);
    lemma_refined_entry(s, t, 6);
    lemma_refined_entry(s, t, 7);
    lemma_refined_entry(s, t, 8);
    lemma_refined_entry(s, t, 9);
    lemma_refined_entry(s, t, 10);
    lemma_refined_entry(s, t, 11);
}

/// Where corner `k` and the corner after it stand among the twelve of their triangle.
pub proof fn lemma_corner_position(k: int)
    requires
        0 <= k,
    ensures
        k == 12 * (k / 12) + k % 12,
        0 <= k % 12 < 12,
        next_corner(k) == 12 * (k / 12) + next_corner(k % 12),
{
    assert(k % 3 == (k % 12) % 3);
}

/// After refinement every corner names a vertex and differs from the next
/// corner of its triangle.
proof fn lemma_refined_corners(s: Shape, k: int)
    requires
        s.wf(),
        0 <= k < s.refine().indices.len(),
    ensures
        0 <= s.refine().indices[k] < s.refine().vertex_count(),
        s.refine().indices[k] != s.refine().indices[next_corner(k)],
{
    let t = k / 12;
    let q = k % 12;
    lemma_corner_position(k);
    lemma_refined_triangle(s, t);
    let r = s.refine().indices;
    if q == 0 {
        assert(r[k] != r[12 * t + 1]);
    } else if q == 1 {
        assert(r[k] != r[12 * t + 2]);
    } else if q == 2 {
        assert(r[k] != r[12 * t]);
    } else if q == 3 {
        assert(r[k] != r[12 * t + 4]);
    } else if q == 4 {
        assert(r[k] != r[12 * t + 5]);
    } else if q == 5 {
        assert(r[k] != r[12 * t + 3]);
    } else if q == 6 {
        assert(r[k] != r[12 * t + 7]);
    } else if q == 7 {
        assert(r[k] != r[12 * t + 8]);
    } else if q == 8 {
        assert(r[k] != r[12 * t + 6]);
    } else if q == 9 {
        assert(r[k] != r[12 * t + 10]);
    } else if q == 10 {
        assert(r[k] != r[12 * t + 11]);
    } else {
        assert(r[k] != r[12 * t + 9]);
    }
}

/// A vertex that refinement adds lies between two different older vertices.
proof fn lemma_refined_parents(s: Shape, i: int)
    requires
        s.wf(),
        0 <= i < s.split_edges().len(),
    ensures
        0 <= s.split_edges()[i].0 < s.split_edges()[i].1 < s.vertex_count(),
{
    let all = edges(s.indices);
    let found = s.split_edges();
    lemma_distinct(all);
    assert(all.contains(found[i]));
    let j = all.index_of(found[i]);
    lemma_triangle_edges(s, j / 3);
}

/// Refinement keeps a shape well formed.
pub proof fn lemma_refine_wf(s: Shape)
    requires
        s.wf(),
    ensures
        s.refine().wf(),
        s.refine().face_count() == 4 * s.face_count(),
{
    let r = s.refine();
    assert forall|k: int| 0 <= k < r.indices.len() implies 0 <= (#[trigger] r.indices[k])
        < r.vertex_count() by {
        lemma_refined_corners(s, k);
    }
    assert forall|k: int| 0 <= k < r.indices.len() implies corners_differ(r.indices, k) by {
        lemma_refined_corners(s, k);
    }
    assert forall|k: int| 0 <= k < r.parents.len() implies 0 <= (#[trigger] r.parents[k]).0
        < r.parents[k].1 < BASE_VERTICES + k by {
        if k >= s.parents.len() {
            lemma_refined_parents(s, k - s.parents.len());
        }
    }
}

/// Every geodesic sphere is well formed and has `20 * 4^level` triangles.
pub proof fn lemma_icosphere_wf(level: nat)
    ensures
        icosphere(level).wf(),
        icosphere(level).face_count() == 20 * pow4(level),
        icosphere(level).indices.len() == 60 * pow4(level),
    decreases level,
{
    if level == 0 {
        let b = base_indices();
        assert(b.len() == 60);
        assert forall|k: int| 0 <= k < 60 implies 0 <= (#[trigger] b[k]) < 12 by {}
        assert forall|k: int| 0 <= k < 60 implies corners_differ(b, k) by {}
    } else {
        lemma_icosphere_wf((level - 1) as nat);
        lemma_refine_wf(icosphere((level - 1) as nat));
    }
}

/// Refinement gives every edge one midpoint: two corners get the same midpoint
/// vertex exactly when their edges are the same edge, whichever triangles they
/// belong to, and no two of the new vertices lie on the same edge.
pub proof fn lemma_one_midpoint_per_edge(s: Shape, j1: int, j2: int)
    requires
        0 <= j1 < s.indices.len(),
        0 <= j2 < s.indices.len(),
    ensures
        s.midpoint(j1) == s.midpoint(j2) <==> edge_at(s.indices, j1) == edge_at(s.indices, j2),
        s.split_edges().no_duplicates(),
{
    lemma_midpoint(s, j1);
    lemma_midpoint(s, j2);
    lemma_distinct(edges(s.indices));
}

/// A corner of the refined list under construction is what refinement asks for,
/// where the midpoints are told by the edges `found` so far.
spec fn corner_done(s: Shape, found: Seq<(int, int)>, value: int, t: int, q: int) -> bool {
    let n = s.vertex_count();
    if q == 0 {
        value == s.indices[3 * t]
    } else if q == 3 {
        value == s.indices[3 * t + 1]
    } else if q == 6 {
        value == s.indices[3 * t + 2]
    } else if q == 1 || q == 5 || q == 9 {
        n <= value < n + found.len() && found[value - n] == edge_at(s.indices, 3 * t)
    } else if q == 4 || q == 8 || q == 10 {
        n <= value < n + found.len() && found[value - n] == edge_at(s.indices, 3 * t + 1)
    } else {
        n <= value < n + found.len() && found[value - n] == edge_at(s.indices, 3 * t + 2)
    }
}

/// The first `t` triangles are refined: twelve corners each, all done.
#[verifier::opaque]
spec fn all_done(s: Shape, found: Seq<(int, int)>, refined: Seq<u16>, t: int) -> bool {
    &&& refined.len() == 12 * t
    &&& forall|k: int|
        0 <= k < 12 * t ==> corner_done(s, found, (#[trigger] refined[k]) as int, k / 12, k % 12)
}

/// The shape is well formed. Kept apart so that the loop below carries the
/// fact without its quantifiers.
#[verifier::opaque]
spec fn sound(s: Shape) -> bool {
    s.wf()
}

/// The corners of triangle `t` differ.
proof fn lemma_corners_differ(s: Shape, indices: Seq<u16>, t: int)
    requires
        sound(s),
        s.indices == as_ints(indices),
        0 <= t < s.face_count(),
    ensures
        3 * t + 2 < indices.len(),
        indices[3 * t] != indices[3 * t + 1],
        indices[3 * t + 1] != indices[3 * t + 2],
        indices[3 * t + 2] != indices[3 * t],
{
    reveal(sound);
    lemma_triangle_edges(s, t);
    assert(s.indices[3 * t] == indices[3 * t]);
    assert(s.indices[3 * t + 1] == indices[3 * t + 1]);
    assert(s.indices[3 * t + 2] == indices[3 * t + 2]);
}

/// Where the midpoints of triangle `t` do not fit, the refined shape has too
/// many vertices.
proof fn lemma_step_fails(s: Shape, indices: Seq<u16>, t: int, found: Seq<(int, int)>)
    requires
        sound(s),
        s.indices == as_ints(indices),
        0 <= t < s.face_count(),
        found == distinct(edges(s.indices).take(3 * t)),
        s.vertex_count() + with_triangle(
            found,
            indices[3 * t] as int,
            indices[3 * t + 1] as int,
            indices[3 * t + 2] as int,
        ).len() > MAX_VERTICES,
    ensures
        s.refine().vertex_count() > MAX_VERTICES,
{
    reveal(sound);
    lemma_triangle_found(s, t);
    assert(s.indices[3 * t] == indices[3 * t]);
    assert(s.indices[3 * t + 1] == indices[3 * t + 1]);
    assert(s.indices[3 * t + 2] == indices[3 * t + 2]);
}

/// Once the twelve corners of triangle `t` are appended, one more triangle is
/// refined and the edges of one more triangle are found.
proof fn lemma_step_done(
    s: Shape,
    indices: Seq<u16>,
    t: int,
    found: Seq<(int, int)>,
    later: Seq<(int, int)>,
    done: Seq<u16>,
    refined: Seq<u16>,
)
    requires
        sound(s),
        s.indices == as_ints(indices),
        0 <= t < s.face_count(),
        found == distinct(edges(s.indices).take(3 * t)),
        all_done(s, found, done, t),
        later == with_triangle(
            found,
            indices[3 * t] as int,
            indices[3 * t + 1] as int,
            indices[3 * t + 2] as int,
        ),
        found.len() <= later.len(),
        found == later.take(found.len() as int),
        refined.take(done.len() as int) == done,
        block_ok(
            later,
            s.vertex_count(),
            indices[3 * t] as int,
            indices[3 * t + 1] as int,
            indices[3 * t + 2] as int,
            refined,
            done.len() as int,
        ),
    ensures
        later == distinct(edges(s.indices).take(3 * t + 3)),
        all_done(s, later, refined, t + 1),
{
    reveal(sound);
    reveal(all_done);
    lemma_triangle_found(s, t);
    lemma_triangle_edges(s, t);
    assert(s.indices[3 * t] == indices[3 * t]);
    assert(s.indices[3 * t + 1] == indices[3 * t + 1]);
    assert(s.indices[3 * t + 2] == indices[3 * t + 2]);
    let n = s.vertex_count();
    assert forall|k: int| 0 <= k < 12 * (t + 1) implies corner_done(
        s,
        later,
        (#[trigger] refined[k]) as int,
        k / 12,
        k % 12,
    ) by {
        if k < 12 * t {
            let value = done[k] as int;
            assert(refined[k] == refined.take(done.len() as int)[k]);
            assert(corner_done(s, found, value, k / 12, k % 12));
            let q = k % 12;
            if !(q == 0 || q == 3 || q == 6) {
                assert(found[value - n] == later[value - n]);
            }
        } else {
            let q = k - 12 * t;
            lemma_fundamental_div_mod_converse(k, 12, t, q);
            assert(k == done.len() + q);
        }
    }
}

/// When all triangles are refined and all split edges found, the corners are
/// those of the refined shape.
proof fn lemma_all_done(s: Shape, refined: Seq<u16>)
    requires
        s.indices.len() % 3 == 0,
        all_done(s, s.split_edges(), refined, s.face_count()),
    ensures
        as_ints(refined) == s.refine().indices,
{
    reveal(all_done);
    let got = as_ints(refined);
    let want = s.refine().indices;
    lemma_distinct(edges(s.indices));
    assert(got.len() == want.len());
    assert forall|k: int| 0 <= k < got.len() implies got[k] == want[k] by {
        let t = k / 12;
        let q = k % 12;
        let value = refined[k] as int;
        assert(corner_done(s, s.split_edges(), value, t, q));
        if !(q == 0 || q == 3 || q == 6) {
            lemma_index_of_unique(s.split_edges(), value - s.vertex_count());
        }
        assert(value == s.refined_corner(t, q));
        lemma_refined_entry(s, t, q);
    }
    assert(got =~= want);
}

/// A geodesic sphere without its positions: for every vertex beyond the twelve
/// of the icosahedron the two vertices it lies between, and the triangles.
pub struct Icosphere {
    level: u32,
    parents: Vec<(u16, u16)>,
    indices: Vec<u16>,
}

impl View for Icosphere {
    type V = Shape;

    closed spec fn view(&self) -> Shape {
        Shape { parents: pair_ints(self.parents@), indices: as_ints(self.indices@) }
    }
}

impl Icosphere {
    /// How often the icosahedron was subdivided.
    pub closed spec fn spec_level(&self) -> u32 {
        self.level
    }

    /// The value is the geodesic sphere of its level, which is at most the
    /// sixth. Holds of every value of the type.
    #[verifier::type_invariant]
    pub open spec fn inv(&self) -> bool {
        self@ == icosphere(self.spec_level() as nat) && self.spec_level() <= 6
    }

    /// A sphere of the type is well formed, 16 bits number its vertices, and it
    /// has the vertices and triangles of its level.
    pub proof fn lemma_inv(&self)
        requires
            self.inv(),
        ensures
            self@.wf(),
            self@.vertex_count() <= MAX_VERTICES,
            self@.vertex_count() == 10 * pow4(self.spec_level() as nat) + 2,
            self@.indices.len() == 60 * pow4(self.spec_level() as nat),
    {
        lemma_icosphere_wf(self.spec_level() as nat);
        lemma_counts(self.spec_level() as nat);
        lemma_sixteen_bits(self.spec_level() as nat);
    }

    /// The icosahedron: twelve vertices, twenty triangles.
    pub fn base() -> (r: Icosphere)
        ensures
            r@ == base_shape(),
            r.spec_level() == 0,
            r.inv(),
    {
        let indices: Vec<u16> = vec![
            0, 11, 5, 0, 5, 1, 0, 1, 7, 0, 7, 10, 0, 10, 11,
            1, 5, 9, 5, 11, 4, 11, 10, 2, 10, 7, 6, 7, 1, 8,
            3, 9, 4, 3, 4, 2, 3, 2, 6, 3, 6, 8, 3, 8, 9,
            4, 9, 5, 2, 4, 11, 6, 2, 10, 8, 6, 7, 9, 8, 1,
        ];
        let parents: Vec<(u16, u16)> = Vec::new();
        proof {
            assert(as_ints(indices@) =~= base_indices());
            assert(pair_ints(parents@) =~= Seq::<(int, int)>::empty());
        }
        Icosphere { level: 0, parents, indices }
    }

    /// Splits every triangle into four.
    ///
    /// Succeeds exactly below the sixth level: a seventh subdivision gives more
    /// vertices than 16 bits can number.
    pub fn subdivide(self) -> (r: Option<Icosphere>)
        ensures
            r is Some <==> self.spec_level() < 6,
            r matches Some(next) ==> next@ == self@.refine() && next.spec_level()
                == self.spec_level() + 1 && next.inv(),
    {
        proof {
            use_type_invariant(&self);
            self.lemma_inv();
            lemma_sixteen_bits((self.spec_level() + 1) as nat);
        }
        let ghost old = self@;
        let Icosphere { level, parents: mut parents, indices } = self;
        let first: usize = BASE_VERTICES + parents.len();
        let faces: usize = indices.len() / 3;
        let mut fresh: Vec<(u16, u16)> = Vec::new();
        let mut cache: HashMap<u64, u16> = HashMap::new();
        let mut refined: Vec<u16> = Vec::new();
        let mut t: usize = 0;
        proof {
            assert(pair_ints(fresh@) =~= distinct(edges(old.indices).take(0)));
            assert(cache_matches(cache@, pair_ints(fresh@), first as int)) by {
                reveal(cache_matches);
            }
            assert(all_done(old, pair_ints(fresh@), refined@, 0)) by {
                reveal(all_done);
            }
            assert(sound(old)) by {
                reveal(sound);
            }
        }
        while t < faces
            invariant
                old == self@,
                level == self.spec_level(),
                old == icosphere(level as nat),
                old.refine().vertex_count() <= MAX_VERTICES <==> level < 6,
                sound(old),
                old.indices == as_ints(indices@),
                first == old.vertex_count(),
                3 * faces == indices@.len(),
                3 * faces <= usize::MAX,
                faces == old.face_count(),
                t <= faces,
                pair_ints(fresh@) == distinct(edges(old.indices).take(3 * t)),
                first + fresh@.len() <= MAX_VERTICES,
                cache_matches(cache@, pair_ints(fresh@), first as int),
                all_done(old, pair_ints(fresh@), refined@, t as int),
            ensures
                t == faces,
            decreases faces - t,
        {
            proof {
                lemma_corners_differ(old, indices@, t as int);
            }
            let v1: u16 = indices[3 * t];
            let v2: u16 = indices[3 * t + 1];
            let v3: u16 = indices[3 * t + 2];
            let ghost found = pair_ints(fresh@);
            let ghost done = refined@;
            if !split_triangle(v1, v2, v3, first, &mut fresh, &mut cache, &mut refined) {
                proof {
                    lemma_step_fails(old, indices@, t as int, found);
                }
                return None;
            }
            proof {
                lemma_step_done(
                    old,
                    indices@,
                    t as int,
                    found,
                    pair_ints(fresh@),
                    done,
                    refined@,
                );
            }
            t += 1;
        }
        proof {
            assert(edges(old.indices).take(3 * t) =~= edges(old.indices));
            reveal(sound);
        }
        parents.append(&mut fresh);
        proof {
            let next = Shape { parents: pair_ints(parents@), indices: as_ints(refined@) };
            assert(next.parents =~= old.parents + old.split_edges());
            lemma_all_done(old, refined@);
            assert(next == old.refine());
        }
        Some(Icosphere { level: level + 1, parents, indices: refined })
    }

    /// The geodesic sphere after `level` subdivisions of the icosahedron, with
    /// `10 * 4^level + 2` vertices and `20 * 4^level` triangles.
    ///
    /// Succeeds up to the sixth level; from the seventh on 16 bits cannot number
    /// the vertices.
    pub fn generate(level: u32) -> (r: Option<Icosphere>)
        ensures
            r is Some <==> level <= 6,
            r matches Some(sphere) ==> sphere@ == icosphere(level as nat) && sphere.spec_level()
                == level && sphere.inv() && sphere@.vertex_count() == 10 * pow4(level as nat) + 2
                && sphere@.indices.len() == 60 * pow4(level as nat),
    {
        proof {
            lemma_counts(level as nat);
            lemma_icosphere_wf(level as nat);
        }
        let mut sphere = Icosphere::base();
        let mut done: u32 = 0;
        while done < level
            invariant
                done <= level,
                sphere@ == icosphere(done as nat),
                sphere.spec_level() == done,
            decreases level - done,
        {
            proof {
                use_type_invariant(&sphere);
            }
            match sphere.subdivide() {
                Some(next) => {
                    sphere = next;
                },
                None => {
                    return None;
                },
            }
            done += 1;
        }
        proof {
            use_type_invariant(&sphere);
        }
        Some(sphere)
    }

    /// How often the icosahedron was subdivided.
    #[verifier::when_used_as_spec(spec_level)]
    pub fn level(&self) -> (level: u32)
        ensures
            level == self.spec_level(),
            self.inv(),
    {
        proof {
            use_type_invariant(self);
        }
        self.level
    }

    /// Number of vertices.
    pub fn vertex_count(&self) -> (n: usize)
        ensures
            n == self@.vertex_count(),
            n == 10 * pow4(self.spec_level() as nat) + 2,
            self.inv(),
    {
        proof {
            use_type_invariant(self);
            self.lemma_inv();
        }
        BASE_VERTICES + self.parents.len()
    }

    /// For each vertex from the thirteenth on, in the order of their numbers, the
    /// two vertices it lies between.
    pub fn parents(&self) -> (r: &Vec<(u16, u16)>)
        ensures
            pair_ints(r@) == self@.parents,
            self.inv(),
    {
        proof {
            use_type_invariant(self);
        }
        &self.parents
    }

    /// The corners of the triangles, three per triangle.
    pub fn indices(&self) -> (r: &Vec<u16>)
        ensures
            as_ints(r@) == self@.indices,
            self.inv(),
    {
        proof {
            use_type_invariant(self);
        }
        &self.indices
    }

    /// The triangles as the index list of a mesh.
    pub fn into_triangles(self) -> (list: TriangleList)
        ensures
            as_ints(list@) == self@.indices,
            list.vertices() == self@.vertex_count(),
            list.wf(),
    {
        proof {
            use_type_invariant(&self);
            self.lemma_inv();
        }
        let vertex_count: usize = BASE_VERTICES + self.parents.len();
        let ghost shape = self@;
        let indices = self.indices;
        proof {
            assert forall|k: int| 0 <= k < indices@.len() implies (#[trigger] indices@[k])
                < vertex_count by {
                assert(shape.indices[k] == indices@[k]);
            }
        }
        TriangleList::new(vertex_count, indices).unwrap()
    }
}

} // verus!
