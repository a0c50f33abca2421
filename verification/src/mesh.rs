//! Index buffers of triangle meshes.
//!
//! A mesh is a list of vertices and a list of 16-bit indices into it, three per
//! triangle. The vertices are the caller's; this module builds the index lists of
//! the meshes the world is drawn from and proves that every index names a vertex.

use vstd::prelude::*;

verus! {

/// Largest number of vertices that 16-bit indices can address.
pub const MAX_VERTICES: usize = 65536;

/// What one indirect draw call draws: a run of the indices of a mesh, and so
/// many instances of it.
#[derive(Debug, Clone, Copy, PartialEq, Eq, Structural)]
pub struct DrawArguments {
    pub index_count: u32,
    pub instance_count: u32,
    pub first_index: u32,
    pub base_vertex: i32,
    pub first_instance: u32,
}

/// The index list of a triangle mesh together with the number of its vertices.
pub struct TriangleList {
    vertex_count: usize,
    indices: Vec<u16>,
}

/// Offsets, within the two rungs of one ladder segment, of the corners of its two
/// triangles, wound as a grass blade is: `0 1 2` and `1 3 2`.
pub open spec fn blade_corner(r: int) -> int {
    if r == 0 {
        0
    } else if r == 1 || r == 3 {
        1
    } else if r == 4 {
        3
    } else {
        2
    }
}

/// Offsets of the corners of the two triangles of one ladder segment, wound as a
/// road is: `0 2 1` and `1 2 3`.
pub open spec fn ribbon_corner(r: int) -> int {
    if r == 0 {
        0
    } else if r == 2 || r == 3 {
        1
    } else if r == 5 {
        3
    } else {
        2
    }
}

/// Index list of a ladder of `segments` quads over `2 * (segments + 1)` vertices,
/// where rung `i` holds the vertices `2 * i` (left) and `2 * i + 1` (right),
/// in blade winding.
pub open spec fn blade_indices(segments: nat) -> Seq<int> {
    Seq::new(6 * segments, |k: int| 2 * (k / 6) + blade_corner(k % 6))
}

/// The same ladder in road winding.
pub open spec fn ribbon_indices(segments: nat) -> Seq<int> {
    Seq::new(6 * segments, |k: int| 2 * (k / 6) + ribbon_corner(k % 6))
}

/// Index list of the side wall of a prism with `sides` sides over `2 * sides`
/// vertices, where vertex `2 * i` is the bottom and `2 * i + 1` the top of
/// edge `i`; the last quad closes the wall onto edge 0.
pub open spec fn wall_indices(sides: nat) -> Seq<int> {
    Seq::new(6 * sides, |k: int| wall_index(sides, k))
}

/// Entry `k` of [`wall_indices`]: the quad `i = k / 6` between edge `i` and the
/// next edge around, as the triangles bottom, next bottom, top and
/// top, next bottom, next top.
pub open spec fn wall_index(sides: nat, k: int) -> int {
    let i = k / 6;
    let r = k % 6;
    let next = (i + 1) % (sides as int);
    if r == 0 {
        2 * i
    } else if r == 2 || r == 3 {
        2 * i + 1
    } else if r == 5 {
        2 * next + 1
    } else {
        2 * next
    }
}

/// Index list of a cone over `sides + 1` vertices that start at `offset`: the tip
/// first, then the rim. Triangle `i` is tip, next rim vertex around, rim vertex `i`.
pub open spec fn cone_indices(offset: nat, sides: nat) -> Seq<int> {
    Seq::new(3 * sides, |k: int| cone_index(offset, sides, k))
}

/// Entry `k` of [`cone_indices`].
pub open spec fn cone_index(offset: nat, sides: nat, k: int) -> int {
    let i = k / 3;
    let r = k % 3;
    if r == 0 {
        offset as int
    } else if r == 1 {
        offset + 1 + (i + 1) % (sides as int)
    } else {
        offset + 1 + i
    }
}

/// The indices of a list as mathematical integers.
pub open spec fn as_ints(indices: Seq<u16>) -> Seq<int> {
    indices.map_values(|i: u16| i as int)
}

/// Index list of a ladder of `segments` quads whose two triangles have the
/// corner offsets `corners`.
spec fn ladder_indices(segments: nat, corners: Seq<u16>) -> Seq<int> {
    Seq::new(6 * segments, |k: int| 2 * (k / 6) + corners[k % 6])
}

/// A list that holds the first `done` entries of `all` after what it held
/// before, and is given the next `count` entries, holds the first
/// `done + count`.
proof fn lemma_append_next(
    before: Seq<u16>,
    prior: Seq<u16>,
    now: Seq<u16>,
    all: Seq<int>,
    done: int,
    count: int,
)
    requires
        0 <= done,
        0 <= count,
        done + count <= all.len(),
        as_ints(prior) == as_ints(before) + all.take(done),
        now.len() == prior.len() + count,
        now.take(prior.len() as int) == prior,
        forall|q: int| 0 <= q < count ==> (#[trigger] now[prior.len() + q]) as int == all[done + q],
    ensures
        as_ints(now) == as_ints(before) + all.take(done + count),
{
    let got = as_ints(now);
    let want = as_ints(before) + all.take(done + count);
    let had = as_ints(before) + all.take(done);
    assert(as_ints(prior).len() == prior.len());
    assert(prior.len() == before.len() + done);
    assert(got.len() == want.len());
    assert forall|k: int| 0 <= k < got.len() implies got[k] == want[k] by {
        if k < prior.len() {
            assert(now[k] == now.take(prior.len() as int)[k]);
            assert(got[k] == as_ints(prior)[k]);
            assert(had[k] == want[k]);
        } else {
            let q = k - prior.len();
            assert(now[prior.len() + q] as int == all[done + q]);
        }
    }
    assert(got =~= want);
}

/// Appends the ladder of `segments` quads whose corner offsets are `corners`.
fn push_ladder(indices: &mut Vec<u16>, segments: usize, corners: [u16; 6])
    requires
        2 * (segments + 1) <= MAX_VERTICES,
        forall|r: int| 0 <= r < 6 ==> (#[trigger] corners@[r]) <= 3,
    ensures
        as_ints(final(indices)@) == as_ints(old(indices)@) + ladder_indices(
            segments as nat,
            corners@,
        ),
{
    let ghost before = indices@;
    let ghost all = ladder_indices(segments as nat, corners@);
    let mut i: usize = 0;
    while i < segments
        invariant
            i <= segments,
            2 * (segments + 1) <= MAX_VERTICES,
            forall|r: int| 0 <= r < 6 ==> (#[trigger] corners@[r]) <= 3,
            all == ladder_indices(segments as nat, corners@),
            as_ints(indices@) == as_ints(before) + all.take(6 * i),
        decreases segments - i,
    {
        let base: u16 = (2 * i) as u16;
        let ghost prior = indices@;
        indices.push(base + corners[0]);
        indices.push(base + corners[1]);
        indices.push(base + corners[2]);
        indices.push(base + corners[3]);
        indices.push(base + corners[4]);
        indices.push(base + corners[5]);
        proof {
            assert(indices@.take(prior.len() as int) =~= prior);
            assert forall|q: int| 0 <= q < 6 implies (#[trigger] indices@[prior.len() + q]) as int
                == all[6 * i + q] by {
                assert((6 * i + q) / 6 == i && (6 * i + q) % 6 == q);
            }
            lemma_append_next(before, prior, indices@, all, 6 * i, 6);
        }
        i += 1;
    }
    proof {
        assert(all.take(6 * segments) =~= all);
    }
}

/// Appends the side wall of a prism with `sides` sides.
fn push_wall(indices: &mut Vec<u16>, sides: usize)
    requires
        1 <= sides,
        2 * sides <= MAX_VERTICES,
    ensures
        as_ints(final(indices)@) == as_ints(old(indices)@) + wall_indices(sides as nat),
{
    let ghost before = indices@;
    let ghost all = wall_indices(sides as nat);
    let mut i: usize = 0;
    while i < sides
        invariant
            i <= sides,
            1 <= sides,
            2 * sides <= MAX_VERTICES,
            all == wall_indices(sides as nat),
            as_ints(indices@) == as_ints(before) + all.take(6 * i),
        decreases sides - i,
    {
        let next: usize = (i + 1) % sides;
        let bottom: u16 = (2 * i) as u16;
        let top: u16 = bottom + 1;
        let next_bottom: u16 = (2 * next) as u16;
        let next_top: u16 = next_bottom + 1;
        let ghost prior = indices@;
        indices.push(bottom);
        indices.push(next_bottom);
        indices.push(top);
        indices.push(top);
        indices.push(next_bottom);
        indices.push(next_top);
        proof {
            assert(indices@.take(prior.len() as int) =~= prior);
            assert forall|q: int| 0 <= q < 6 implies (#[trigger] indices@[prior.len() + q]) as int
                == all[6 * i + q] by {
                assert((6 * i + q) / 6 == i && (6 * i + q) % 6 == q);
                assert(all[6 * i + q] == wall_index(sides as nat, 6 * i + q));
            }
            lemma_append_next(before, prior, indices@, all, 6 * i, 6);
        }
        i += 1;
    }
    proof {
        assert(all.take(6 * sides) =~= all);
    }
}

/// Appends the cone of `sides` triangles whose tip is the vertex `offset`.
fn push_cone(indices: &mut Vec<u16>, offset: usize, sides: usize)
    requires
        1 <= sides,
        offset + 1 + sides <= MAX_VERTICES,
    ensures
        as_ints(final(indices)@) == as_ints(old(indices)@) + cone_indices(
            offset as nat,
            sides as nat,
        ),
{
    let ghost before = indices@;
    let ghost all = cone_indices(offset as nat, sides as nat);
    let tip: u16 = offset as u16;
    let mut i: usize = 0;
    while i < sides
        invariant
            i <= sides,
            1 <= sides,
            offset + 1 + sides <= MAX_VERTICES,
            tip == offset,
            all == cone_indices(offset as nat, sides as nat),
            as_ints(indices@) == as_ints(before) + all.take(3 * i),
        decreases sides - i,
    {
        let next: usize = (i + 1) % sides;
        let next_rim: u16 = (offset + 1 + next) as u16;
        let rim: u16 = (offset + 1 + i) as u16;
        let ghost prior = indices@;
        indices.push(tip);
        indices.push(next_rim);
        indices.push(rim);
        proof {
            assert(indices@.take(prior.len() as int) =~= prior);
            assert forall|q: int| 0 <= q < 3 implies (#[trigger] indices@[prior.len() + q]) as int
                == all[3 * i + q] by {
                assert((3 * i + q) / 3 == i && (3 * i + q) % 3 == q);
                assert(all[3 * i + q] == cone_index(offset as nat, sides as nat, 3 * i + q));
            }
            lemma_append_next(before, prior, indices@, all, 3 * i, 3);
        }
        i += 1;
    }
    proof {
        assert(all.take(3 * sides) =~= all);
    }
}

impl TriangleList {
    /// Number of vertices the indices refer to.
    pub closed spec fn vertices(&self) -> nat {
        self.vertex_count as nat
    }

    /// The indices, three per triangle.
    pub closed spec fn view(&self) -> Seq<u16> {
        self.indices@
    }

    /// Every index names a vertex, the indices come in threes, and the vertices
    /// are few enough for 16-bit indices. Holds of every value of the type.
    #[verifier::type_invariant]
    pub open spec fn wf(&self) -> bool {
        &&& self.vertices() <= MAX_VERTICES
        &&& self@.len() % 3 == 0
        &&& forall|k: int| 0 <= k < self@.len() ==> (#[trigger] self@[k]) < self.vertices()
    }

    /// Checks an index list against a vertex count.
    ///
    /// Returns the list exactly when the count fits 16-bit indices, the indices
    /// come in threes and each of them is below the count.
    pub fn new(vertex_count: usize, indices: Vec<u16>) -> (r: Option<TriangleList>)
        ensures
            r is Some <==> {
                &&& vertex_count <= MAX_VERTICES
                &&& indices@.len() % 3 == 0
                &&& forall|k: int| 0 <= k < indices@.len() ==> (#[trigger] indices@[k]) < vertex_count
            },
            r matches Some(list) ==> list@ == indices@ && list.vertices() == vertex_count
                && list.wf(),
    {
        if vertex_count > MAX_VERTICES || indices.len() % 3 != 0 {
            return None;
        }
        let mut k: usize = 0;
        while k < indices.len()
            invariant
                k <= indices@.len(),
                forall|j: int| 0 <= j < k ==> (#[trigger] indices@[j]) < vertex_count,
            decreases indices@.len() - k,
        {
            if indices[k] as usize >= vertex_count {
                return None;
            }
            k += 1;
        }
        Some(TriangleList { vertex_count, indices })
    }

    /// The ladder of `segments` quads in blade winding: the mesh of a grass blade
    /// with that many segments, and with one segment a billboard quad.
    pub fn blade(segments: usize) -> (list: TriangleList)
        requires
            2 * (segments + 1) <= MAX_VERTICES,
        ensures
            list.vertices() == 2 * (segments + 1),
            as_ints(list@) == blade_indices(segments as nat),
            list.wf(),
    {
        let corners: [u16; 6] = [0, 1, 2, 1, 3, 2];
        let mut indices: Vec<u16> = Vec::new();
        push_ladder(&mut indices, segments, corners);
        proof {
            assert(as_ints(Seq::<u16>::empty()) =~= Seq::<int>::empty());
            assert forall|r: int| 0 <= r < 6 implies corners@[r] == blade_corner(r) by {}
            assert(as_ints(indices@) =~= blade_indices(segments as nat));
            assert forall|k: int| 0 <= k < indices@.len() implies (#[trigger] indices@[k]) < 2 * (
            segments + 1) by {
                assert(as_ints(indices@)[k] == 2 * (k / 6) + blade_corner(k % 6));
            }
        }
        TriangleList { vertex_count: 2 * (segments + 1), indices }
    }

    /// The ladder of `segments` quads in road winding: the mesh of a road strip.
    pub fn ribbon(segments: usize) -> (list: TriangleList)
        requires
            2 * (segments + 1) <= MAX_VERTICES,
        ensures
            list.vertices() == 2 * (segments + 1),
            as_ints(list@) == ribbon_indices(segments as nat),
            list.wf(),
    {
        let corners: [u16; 6] = [0, 2, 1, 1, 2, 3];
        let mut indices: Vec<u16> = Vec::new();
        push_ladder(&mut indices, segments, corners);
        proof {
            assert(as_ints(Seq::<u16>::empty()) =~= Seq::<int>::empty());
            assert forall|r: int| 0 <= r < 6 implies corners@[r] == ribbon_corner(r) by {}
            assert(as_ints(indices@) =~= ribbon_indices(segments as nat));
            assert forall|k: int| 0 <= k < indices@.len() implies (#[trigger] indices@[k]) < 2 * (
            segments + 1) by {
                assert(as_ints(indices@)[k] == 2 * (k / 6) + ribbon_corner(k % 6));
            }
        }
        TriangleList { vertex_count: 2 * (segments + 1), indices }
    }

    /// A prism wall of `wall_sides` sides with a cone of `cone_sides` sides set on
    /// vertices of its own: the mesh of a tree, trunk and foliage. The wall takes
    /// the vertices below `2 * wall_sides`, the cone the `cone_sides + 1` after them.
    pub fn prism_and_cone(wall_sides: usize, cone_sides: usize) -> (list: TriangleList)
        requires
            1 <= wall_sides,
            1 <= cone_sides,
            2 * wall_sides + 1 + cone_sides <= MAX_VERTICES,
        ensures
            list.vertices() == 2 * wall_sides + 1 + cone_sides,
            as_ints(list@) == wall_indices(wall_sides as nat) + cone_indices(
                2 * (wall_sides as nat),
                cone_sides as nat,
            ),
            list.wf(),
    {
        let mut indices: Vec<u16> = Vec::new();
        push_wall(&mut indices, wall_sides);
        let ghost wall = indices@;
        push_cone(&mut indices, 2 * wall_sides, cone_sides);
        let vertex_count: usize = 2 * wall_sides + 1 + cone_sides;
        proof {
            let walls = wall_indices(wall_sides as nat);
            let cones = cone_indices(2 * (wall_sides as nat), cone_sides as nat);
            assert(as_ints(Seq::<u16>::empty()) =~= Seq::<int>::empty());
            assert(as_ints(wall) =~= walls);
            assert(as_ints(indices@) =~= walls + cones);
            assert(as_ints(indices@).len() == indices@.len());
            assert forall|k: int| 0 <= k < indices@.len() implies (#[trigger] indices@[k])
                < vertex_count by {
                assert(as_ints(indices@)[k] == indices@[k]);
                if k < walls.len() {
                    assert((walls + cones)[k] == wall_index(wall_sides as nat, k));
                    assert(0 <= k / 6 < wall_sides);
                } else {
                    let q = k - walls.len();
                    assert((walls + cones)[k] == cone_index(
                        2 * (wall_sides as nat),
                        cone_sides as nat,
                        q,
                    ));
                    assert(0 <= q / 3 < cone_sides);
                }
            }
        }
        TriangleList { vertex_count, indices }
    }

    /// Number of vertices the indices refer to.
    pub fn vertex_count(&self) -> (n: usize)
        ensures
            n == self.vertices(),
            self.wf(),
    {
        proof {
            use_type_invariant(self);
        }
        self.vertex_count
    }

    /// The indices, three per triangle.
    pub fn indices(&self) -> (r: &Vec<u16>)
        ensures
            r@ == self@,
            self.wf(),
    {
        proof {
            use_type_invariant(self);
        }
        &self.indices
    }

    /// Gives up the list for its indices.
    pub fn into_indices(self) -> (r: Vec<u16>)
        ensures
            r@ == self@,
            self.wf(),
    {
        proof {
            use_type_invariant(&self);
        }
        self.indices
    }

    /// Number of triangles.
    pub fn triangle_count(&self) -> (n: usize)
        ensures
            n == self@.len() / 3,
    {
        self.indices.len() / 3
    }

    /// The three corners of triangle `t`, or `None` where there is no such triangle.
    pub fn triangle(&self, t: usize) -> (r: Option<(u16, u16, u16)>)
        ensures
            r is Some <==> t < self@.len() / 3,
            r matches Some(c) ==> c.0 == self@[3 * t] && c.1 == self@[3 * t + 1] && c.2
                == self@[3 * t + 2] && c.0 < self.vertices() && c.1 < self.vertices() && c.2
                < self.vertices(),
    {
        proof {
            use_type_invariant(self);
        }
        if t < self.indices.len() / 3 {
            Some((self.indices[3 * t], self.indices[3 * t + 1], self.indices[3 * t + 2]))
        } else {
            None
        }
    }
}

} // verus!
