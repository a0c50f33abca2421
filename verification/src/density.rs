//! The density map: how fertile the surface is, on a grid laid over the sphere.
//!
//! A cell holds a number from 0 to 1. The map is uniform or made from value
//! noise, whose lattice hash is computed here. Reading the map between cells
//! blends the four cells around the point; this module finds the cells, the
//! blending is arithmetic with fractions and left to the caller.

use vstd::prelude::*;
use vstd::wrapping::u32_specs::{wrapping_add, wrapping_mul};
use crate::scalar::{Scalar, ONE_BITS, ZERO_BITS};

verus! {

/// The 32 bits of a lattice word: the integer `n` in two's complement.
pub open spec fn word_of(n: int) -> u32 {
    if n < 0 {
        (n + 0x1_0000_0000) as u32
    } else {
        n as u32
    }
}

/// The mixing function of the noise: from a lattice word to 31 bits.
pub open spec fn mix(n: u32) -> u32 {
    let m = (n << 13) ^ n;
    let inner = wrapping_add(wrapping_mul(wrapping_mul(m, m), 15731), 789221);
    wrapping_add(wrapping_mul(m, inner), 1376312589) & 0x7fff_ffff
}

/// The hash of the lattice point `(x, y)`: the mix of the word `x + 57 * y`.
pub open spec fn spec_hash_2d(x: i32, y: i32) -> u32 {
    mix(word_of(x + 57 * y))
}

/// Bit pattern of `0.7`: where the patch noise is above this, the ground is bare.
pub const BARE_PATCH_BITS: u32 = 0x3f33_3333;

/// Bit pattern of `0.6`: where the cluster noise is above this, the growth is dense.
pub const CLUSTER_BITS: u32 = 0x3f19_999a;

/// Bit pattern of `0.8`: the least density of a dense cluster.
pub const CLUSTER_FLOOR_BITS: u32 = 0x3f4c_cccd;

/// The patch noise at a place marks a bare patch, where little grows.
pub open spec fn spec_is_bare_patch(patch_noise: Scalar) -> bool {
    Scalar::of_bits(BARE_PATCH_BITS).spec_lt(patch_noise)
}

/// Tells whether the patch noise at a place marks a bare patch: noise above `0.7`.
#[verifier::when_used_as_spec(spec_is_bare_patch)]
pub fn is_bare_patch(patch_noise: Scalar) -> (r: bool)
    ensures
        r == spec_is_bare_patch(patch_noise),
{
    Scalar::from_bits(BARE_PATCH_BITS).lt(patch_noise)
}

/// The cluster noise at a place marks a dense cluster.
pub open spec fn spec_is_cluster(cluster_noise: Scalar) -> bool {
    Scalar::of_bits(CLUSTER_BITS).spec_lt(cluster_noise)
}

/// Tells whether the cluster noise at a place marks a dense cluster: noise
/// above `0.6`.
#[verifier::when_used_as_spec(spec_is_cluster)]
pub fn is_cluster(cluster_noise: Scalar) -> (r: bool)
    ensures
        r == spec_is_cluster(cluster_noise),
{
    Scalar::from_bits(CLUSTER_BITS).lt(cluster_noise)
}

/// The density of a cell from the density that the octaves and the patches
/// gave: in a dense cluster at least `0.8`, and in any case held between 0 and 1.
pub open spec fn spec_settle_density(density: Scalar, cluster_noise: Scalar) -> Scalar {
    let raised = if spec_is_cluster(cluster_noise) {
        density.spec_max(Scalar::of_bits(CLUSTER_FLOOR_BITS))
    } else {
        density
    };
    raised.spec_clamp(Scalar::of_bits(ZERO_BITS), Scalar::of_bits(ONE_BITS))
}

/// Settles the density of a cell.
///
/// The density of a number is a number from 0 to 1, and in a dense cluster
/// from `0.8` to 1, also where the density given is a NaN. Outside a cluster a
/// NaN is handed back.
#[verifier::when_used_as_spec(spec_settle_density)]
pub fn settle_density(density: Scalar, cluster_noise: Scalar) -> (r: Scalar)
    ensures
        r == spec_settle_density(density, cluster_noise),
        !density.is_nan() || spec_is_cluster(cluster_noise) ==> r.in_unit_interval(),
        spec_is_cluster(cluster_noise) ==> Scalar::of_bits(CLUSTER_FLOOR_BITS).spec_le(r),
        density.is_nan() && !spec_is_cluster(cluster_noise) ==> r == density,
{
    let raised = if is_cluster(cluster_noise) {
        density.max(Scalar::from_bits(CLUSTER_FLOOR_BITS))
    } else {
        density
    };
    raised.clamp_unit()
}

/// A grid of densities, `width` cells wide and `height` cells high, row by row.
pub struct DensityMap {
    data: Vec<Scalar>,
    width: u32,
    height: u32,
}

impl DensityMap {
    /// The cells, row by row.
    pub closed spec fn view(&self) -> Seq<Scalar> {
        self.data@
    }

    /// Number of cells in a row.
    pub closed spec fn spec_width(&self) -> u32 {
        self.width
    }

    /// Number of rows.
    pub closed spec fn spec_height(&self) -> u32 {
        self.height
    }

    /// The cell in column `x` of row `y`.
    pub open spec fn spec_cell(&self, x: int, y: int) -> Scalar {
        self@[y * self.spec_width() + x]
    }

    /// There is a cell for every place of the grid, and every cell holds a
    /// number from 0 to 1. Holds of every value of the type.
    #[verifier::type_invariant]
    pub open spec fn wf(&self) -> bool {
        &&& self@.len() == self.spec_width() * self.spec_height()
        &&& forall|i: int| 0 <= i < self@.len() ==> (#[trigger] self@[i]).in_unit_interval()
    }

    /// Every cell holds `value`.
    pub open spec fn is_uniform(&self, value: Scalar) -> bool {
        forall|i: int| 0 <= i < self@.len() ==> (#[trigger] self@[i]) == value
    }

    /// The hash of a lattice point of the value noise: 31 bits that depend on
    /// the point alone.
    pub fn hash_2d(x: i32, y: i32) -> (h: u32)
        requires
            i32::MIN <= 57 * y <= i32::MAX,
            i32::MIN <= x + 57 * y <= i32::MAX,
        ensures
            h == spec_hash_2d(x, y),
            h < 0x8000_0000,
    {
        let n: i32 = x + 57 * y;
        let word: u32 = if n < 0 {
            ((n + i32::MAX) + 1) as u32 + 0x8000_0000
        } else {
            n as u32
        };
        let m: u32 = (word << 13) ^ word;
        let inner: u32 = m.wrapping_mul(m).wrapping_mul(15731).wrapping_add(789221);
        let mixed: u32 = m.wrapping_mul(inner).wrapping_add(1376312589);
        let h: u32 = mixed & 0x7fff_ffff;
        assert(mixed & 0x7fff_ffff < 0x8000_0000) by (bit_vector);
        h
    }

    /// The uniform map: every cell holds `1.0`.
    pub fn new(width: u32, height: u32) -> (map: DensityMap)
        requires
            width * height <= u32::MAX,
        ensures
            map.spec_width() == width,
            map.spec_height() == height,
            map.is_uniform(Scalar::of_bits(ONE_BITS)),
            map.wf(),
    {
        let cells: usize = (width * height) as usize;
        let mut data: Vec<Scalar> = Vec::new();
        let mut i: usize = 0;
        while i < cells
            invariant
                i <= cells,
                data@.len() == i,
                forall|j: int| 0 <= j < i ==> (#[trigger] data@[j]) == Scalar::of_bits(ONE_BITS),
            decreases cells - i,
        {
            data.push(Scalar::one());
            i += 1;
        }
        DensityMap { data, width, height }
    }

    /// The map with the given cells, row by row.
    ///
    /// Returns the map exactly when there are `width * height` cells and each
    /// holds a number from 0 to 1.
    pub fn from_cells(width: u32, height: u32, data: Vec<Scalar>) -> (r: Option<DensityMap>)
        ensures
            r is Some <==> {
                &&& data@.len() == width * height
                &&& forall|i: int| 0 <= i < data@.len() ==> (#[trigger] data@[i]).in_unit_interval()
            },
            r matches Some(map) ==> map@ == data@ && map.spec_width() == width
                && map.spec_height() == height && map.wf(),
    {
        assert((width as u64) * (height as u64) <= 0xffff_ffff * 0xffff_ffff) by (nonlinear_arith)
            requires
                width <= 0xffff_ffff,
                height <= 0xffff_ffff,
        ;
        if data.len() as u64 != (width as u64) * (height as u64) {
            return None;
        }
        let mut i: usize = 0;
        while i < data.len()
            invariant
                i <= data@.len(),
                forall|j: int| 0 <= j < i ==> (#[trigger] data@[j]).in_unit_interval(),
            decreases data@.len() - i,
        {
            if !data[i].is_in_unit_interval() {
                return None;
            }
            i += 1;
        }
        Some(DensityMap { data, width, height })
    }

    /// Width and height of the grid.
    pub fn dimensions(&self) -> (d: (u32, u32))
        ensures
            d.0 == self.spec_width(),
            d.1 == self.spec_height(),
            self.wf(),
    {
        proof {
            use_type_invariant(self);
        }
        (self.width, self.height)
    }

    /// The cells, row by row.
    pub fn cells(&self) -> (r: &Vec<Scalar>)
        ensures
            r@ == self@,
            self.wf(),
    {
        proof {
            use_type_invariant(self);
        }
        &self.data
    }

    /// The cell in column `x` of row `y`.
    pub fn cell(&self, x: u32, y: u32) -> (value: Scalar)
        requires
            x < self.spec_width(),
            y < self.spec_height(),
        ensures
            value == self.spec_cell(x as int, y as int),
            value.in_unit_interval(),
    {
        proof {
            use_type_invariant(self);
            lemma_cell_in_grid(x as int, y as int, self.width as int, self.height as int);
            assert(self.data@.len() == (self.width as int) * (self.height as int));
            assert((y as int) * (self.width as int) + (x as int) < self.data@.len());
            assert(0 <= (y as int) * (self.width as int));
        }
        let cells: usize = self.data.len();
        assert((y as int) * (self.width as int) + (x as int) < cells);
        let i: usize = (y as usize) * (self.width as usize) + (x as usize);
        self.data[i]
    }

    /// The four cells around a point that lies in the cell `(x0, y0)` or beyond
    /// it towards the next column and row: the cell itself, its right
    /// neighbour, the cell below and the one below to the right, where the last
    /// column and the last row are their own neighbours.
    pub fn corners(&self, x0: u32, y0: u32) -> (c: (Scalar, Scalar, Scalar, Scalar))
        requires
            x0 < self.spec_width(),
            y0 < self.spec_height(),
        ensures
            ({
                let x1 = if x0 + 1 < self.spec_width() {
                    x0 + 1
                } else {
                    self.spec_width() - 1
                };
                let y1 = if y0 + 1 < self.spec_height() {
                    y0 + 1
                } else {
                    self.spec_height() - 1
                };
                &&& c.0 == self.spec_cell(x0 as int, y0 as int)
                &&& c.1 == self.spec_cell(x1, y0 as int)
                &&& c.2 == self.spec_cell(x0 as int, y1)
                &&& c.3 == self.spec_cell(x1, y1)
            }),
            c.0.in_unit_interval() && c.1.in_unit_interval() && c.2.in_unit_interval()
                && c.3.in_unit_interval(),
    {
        let x1: u32 = if x0 + 1 < self.width {
            x0 + 1
        } else {
            self.width - 1
        };
        let y1: u32 = if y0 + 1 < self.height {
            y0 + 1
        } else {
            self.height - 1
        };
        (self.cell(x0, y0), self.cell(x1, y0), self.cell(x0, y1), self.cell(x1, y1))
    }

    /// Wherever a uniform map is read, the four cells that are blended hold its
    /// one value.
    pub proof fn lemma_uniform_corners(&self, value: Scalar, x: int, y: int)
        requires
            self.wf(),
            self.is_uniform(value),
            0 <= x < self.spec_width(),
            0 <= y < self.spec_height(),
        ensures
            self.spec_cell(x, y) == value,
    {
        lemma_cell_in_grid(x, y, self.spec_width() as int, self.spec_height() as int);
    }
}

/// A place of the grid has a cell.
proof fn lemma_cell_in_grid(x: int, y: int, width: int, height: int)
    requires
        0 <= x < width,
        0 <= y < height,
    ensures
        0 <= y * width + x < width * height,
        y * width <= (height - 1) * width,
{
    assert(y * width <= (height - 1) * width) by (nonlinear_arith)
        requires
            0 <= y <= height - 1,
            0 <= width,
    ;
    assert((height - 1) * width + width == width * height) by (nonlinear_arith);
    assert(0 <= y * width) by (nonlinear_arith)
        requires
            0 <= y,
            0 <= width,
    ;
}

} // verus!
