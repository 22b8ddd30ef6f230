//! The noise engine: lattice-cell evaluation, field tiling and
//! multi-octave accumulation.
//!
//! A field of `rows x cols` pixels is tiled into lattice cells of
//! `scale x scale` pixels (the last row or column of cells is clipped when
//! the field size is not a multiple of the scale). Each cell blends the
//! influences of its four corner gradients at every pixel it covers, and
//! the scaled result is added in place to the field. Everything is exact
//! integer arithmetic, so the same inputs always produce the same field.

use crate::gradient::{gradient_spec, Vertex};
use crate::image::{image_data, image_dim, image_wf, ScalarImage};
use crate::math::{
    interpolate, interpolate_spec, lemma_lerp_range, lemma_sdiv_bound, lemma_smoothstep_range,
    sdiv, sdiv64, ONE,
};
use crate::ConfigError;
use vstd::arithmetic::div_mod::{
    lemma_div_pos_is_pos, lemma_fundamental_div_mod_converse, lemma_mod_bound,
    lemma_multiply_divide_lt,
};
use vstd::prelude::*;

verus! {

/// Largest lattice scale the engine accepts; keeps the fixed-point
/// sample coordinates inside `i64`.
pub const SCALE_LIMIT: usize = 0x10_0000;

/// Largest octave amplitude magnitude the engine accepts.
pub const AMP_LIMIT: i64 = 0x100_0000_0000;

/// Largest sample magnitude a field may hold when one octave is added.
pub const SAMPLE_LIMIT: i64 = 0x1000_0000_0000_0000;

/// One noise layer: the pixel distance between lattice vertices and the
/// peak-to-peak amplitude of the layer.
pub struct Octave {
    pub scale: usize,
    pub amp: i64,
}

/// Fixed-point coordinate of local sample `k` inside a cell of `scale`
/// samples: the pixel center `(2 k + 1) / (2 scale)` of the unit cell.
pub open spec fn sample_coord_spec(k: int, scale: int) -> int {
    ((2 * k + 1) * (ONE as int)) / (2 * scale)
}

/// Influence of the cell corner at offset `(dx, dy)` on the sample at
/// `(px, py)`: the dot product of the corner's gradient with the vector
/// from the corner to the sample.
pub open spec fn corner_influence_spec(i0: int, i1: int, dx: int, dy: int, px: int, py: int) -> int {
    let g = gradient_spec(i0 + dx, i1 + dy);
    sdiv((px - dx * (ONE as int)) * g.0 + (py - dy * (ONE as int)) * g.1, ONE as int)
}

/// The raw noise value at sample `(px, py)` of the cell whose base vertex
/// is `(i0, i1)`: the four corner influences blended with the smoothstep
/// weights, first along y, then along x. The result lies in about
/// `[-2 ONE, 2 ONE]`.
pub open spec fn cell_sample_spec(i0: int, i1: int, px: int, py: int) -> int {
    let p1 = corner_influence_spec(i0, i1, 0, 0, px, py);
    let p2 = corner_influence_spec(i0, i1, 0, 1, px, py);
    let p3 = corner_influence_spec(i0, i1, 1, 0, px, py);
    let p4 = corner_influence_spec(i0, i1, 1, 1, px, py);
    let iy0 = interpolate_spec(p1, p2, py);
    let iy1 = interpolate_spec(p3, p4, py);
    interpolate_spec(iy0, iy1, px)
}

/// The value one octave adds at global pixel `(i, j)` (row `i`, column
/// `j`): the cell sample scaled by `amp / 2`, so each pixel moves by at
/// most about `amp`.
#[verifier::opaque]
pub open spec fn octave_noise_spec(scale: int, amp: int, i: int, j: int) -> int {
    let px = sample_coord_spec(j % scale, scale);
    let py = sample_coord_spec(i % scale, scale);
    sdiv(amp * cell_sample_spec(j / scale, i / scale, px, py), 2 * (ONE as int))
}

/// One octave applied to a whole field of `cols` columns.
pub open spec fn apply_octave_spec(data: Seq<i64>, cols: int, scale: int, amp: int) -> Seq<i64> {
    Seq::new(
        data.len(),
        |k: int| (data[k] + octave_noise_spec(scale, amp, k / cols, k % cols)) as i64,
    )
}

/// A sequence of octaves applied in order to a field of `cols` columns.
pub open spec fn apply_octaves_spec(data: Seq<i64>, cols: int, octs: Seq<Octave>) -> Seq<i64>
    decreases octs.len(),
{
    if octs.len() == 0 {
        data
    } else {
        apply_octaves_spec(
            apply_octave_spec(data, cols, octs[0].scale as int, octs[0].amp as int),
            cols,
            octs.drop_first(),
        )
    }
}

/// A sample coordinate lies inside the unit cell: `0 <= coord < ONE`.
pub proof fn lemma_sample_coord_range(k: int, scale: int)
    requires
        0 <= k < scale,
    ensures
        0 <= sample_coord_spec(k, scale) < ONE as int,
{
    assert(0 <= (2 * k + 1) * (ONE as int)) by (nonlinear_arith)
        requires
            0 <= k,
    ;
    lemma_div_pos_is_pos((2 * k + 1) * (ONE as int), 2 * scale);
    assert((2 * k + 1) * (ONE as int) < (2 * scale) * (ONE as int)) by (nonlinear_arith)
        requires
            k < scale,
    ;
    lemma_multiply_divide_lt((2 * k + 1) * (ONE as int), 2 * scale, ONE as int);
}

/// A corner influence is bounded by twice the unit: the offset vector has
/// components in `[-ONE, ONE]` and the gradient is a unit vector.
pub proof fn lemma_corner_influence_bound(i0: int, i1: int, dx: int, dy: int, px: int, py: int)
    requires
        0 <= px <= ONE as int,
        0 <= py <= ONE as int,
        0 <= dx <= 1,
        0 <= dy <= 1,
    ensures
        -2 * (ONE as int) <= corner_influence_spec(i0, i1, dx, dy, px, py) <= 2 * (ONE as int),
{
    crate::gradient::lemma_gradient_unit(i0 + dx, i1 + dy);
    let g = gradient_spec(i0 + dx, i1 + dy);
    let num = (px - dx * (ONE as int)) * g.0 + (py - dy * (ONE as int)) * g.1;
    assert(-((2 * (ONE as int)) * (ONE as int)) <= num <= (2 * (ONE as int)) * (ONE as int))
        by (nonlinear_arith)
        requires
            num == (px - dx * (ONE as int)) * g.0 + (py - dy * (ONE as int)) * g.1 && 0 <= px
                <= ONE as int && 0 <= py <= ONE as int && 0 <= dx <= 1 && 0 <= dy <= 1 && -(
            ONE as int) <= g.0 <= ONE as int && -(ONE as int) <= g.1 <= ONE as int,
    ;
    lemma_sdiv_bound(num, ONE as int, 2 * (ONE as int));
}

/// A cell sample is bounded by twice the unit: it is a blend of corner
/// influences and blending never leaves the range of its endpoints.
pub proof fn lemma_cell_sample_bound(i0: int, i1: int, px: int, py: int)
    requires
        0 <= px <= ONE as int,
        0 <= py <= ONE as int,
    ensures
        -2 * (ONE as int) <= cell_sample_spec(i0, i1, px, py) <= 2 * (ONE as int),
{
    lemma_corner_influence_bound(i0, i1, 0, 0, px, py);
    lemma_corner_influence_bound(i0, i1, 0, 1, px, py);
    lemma_corner_influence_bound(i0, i1, 1, 0, px, py);
    lemma_corner_influence_bound(i0, i1, 1, 1, px, py);
    let p1 = corner_influence_spec(i0, i1, 0, 0, px, py);
    let p2 = corner_influence_spec(i0, i1, 0, 1, px, py);
    let p3 = corner_influence_spec(i0, i1, 1, 0, px, py);
    let p4 = corner_influence_spec(i0, i1, 1, 1, px, py);
    lemma_smoothstep_range(py);
    lemma_smoothstep_range(px);
    lemma_lerp_range(p1, p2, crate::math::smoothstep_spec(py));
    lemma_lerp_range(p3, p4, crate::math::smoothstep_spec(py));
    let iy0 = interpolate_spec(p1, p2, py);
    let iy1 = interpolate_spec(p3, p4, py);
    lemma_lerp_range(iy0, iy1, crate::math::smoothstep_spec(px));
}

/// The value one octave adds to a pixel is bounded by the octave's
/// amplitude bound.
pub proof fn lemma_octave_noise_bound(scale: int, amp: int, i: int, j: int)
    requires
        1 <= scale,
        -AMP_LIMIT <= amp <= AMP_LIMIT,
        0 <= i,
        0 <= j,
    ensures
        -AMP_LIMIT <= octave_noise_spec(scale, amp, i, j) <= AMP_LIMIT,
{
    reveal(octave_noise_spec);
    lemma_mod_bound(i, scale);
    lemma_mod_bound(j, scale);
    lemma_sample_coord_range(j % scale, scale);
    lemma_sample_coord_range(i % scale, scale);
    let px = sample_coord_spec(j % scale, scale);
    let py = sample_coord_spec(i % scale, scale);
    lemma_cell_sample_bound(j / scale, i / scale, px, py);
    let cs = cell_sample_spec(j / scale, i / scale, px, py);
    assert(-((AMP_LIMIT as int) * (2 * (ONE as int))) <= amp * cs <= (AMP_LIMIT as int) * (2 * (
    ONE as int))) by (nonlinear_arith)
        requires
            -(AMP_LIMIT as int) <= amp <= AMP_LIMIT as int && -2 * (ONE as int) <= cs <= 2 * (
            ONE as int),
    ;
    lemma_sdiv_bound(amp * cs, 2 * (ONE as int), AMP_LIMIT as int);
}

/// Influence of one cell corner on the sample at `(px, py)`.
fn corner_influence(i0: usize, i1: usize, dx: usize, dy: usize, px: i64, py: i64) -> (r: i64)
    requires
        dx <= 1,
        dy <= 1,
        i0 + dx <= usize::MAX,
        i1 + dy <= usize::MAX,
        0 <= px <= ONE,
        0 <= py <= ONE,
    ensures
        r as int == corner_influence_spec(i0 as int, i1 as int, dx as int, dy as int, px as int, py as int),
        -2 * ONE <= r <= 2 * ONE,
{
    proof {
        lemma_corner_influence_bound(i0 as int, i1 as int, dx as int, dy as int, px as int, py as int);
    }
    let v = Vertex::new(i0 + dx, i1 + dy);
    let g = v.vec();
    let ox = px - (dx as i64) * ONE;
    let oy = py - (dy as i64) * ONE;
    proof {
        assert(-((ONE as int) * (ONE as int)) <= (ox as int) * (g.x as int) <= (ONE as int) * (
        ONE as int)) by (nonlinear_arith)
            requires
                -(ONE as int) <= ox as int <= ONE as int && -(ONE as int) <= g.x as int
                    <= ONE as int,
        ;
        assert(-((ONE as int) * (ONE as int)) <= (oy as int) * (g.y as int) <= (ONE as int) * (
        ONE as int)) by (nonlinear_arith)
            requires
                -(ONE as int) <= oy as int <= ONE as int && -(ONE as int) <= g.y as int
                    <= ONE as int,
        ;
    }
    let num = ox * g.x + oy * g.y;
    sdiv64(num, ONE)
}

/// The raw noise value at sample `(px, py)` of the cell with base vertex
/// `(i0, i1)`: four corner influences blended bilinearly.
fn cell_sample(i0: usize, i1: usize, px: i64, py: i64) -> (r: i64)
    requires
        i0 < usize::MAX,
        i1 < usize::MAX,
        0 <= px <= ONE,
        0 <= py <= ONE,
    ensures
        r as int == cell_sample_spec(i0 as int, i1 as int, px as int, py as int),
        -2 * ONE <= r <= 2 * ONE,
{
    proof {
        lemma_cell_sample_bound(i0 as int, i1 as int, px as int, py as int);
    }
    let p1 = corner_influence(i0, i1, 0, 0, px, py);
    let p2 = corner_influence(i0, i1, 0, 1, px, py);
    let p3 = corner_influence(i0, i1, 1, 0, px, py);
    let p4 = corner_influence(i0, i1, 1, 1, px, py);
    let iy0 = interpolate(p1, p2, py);
    let iy1 = interpolate(p3, p4, py);
    interpolate(iy0, iy1, px)
}


/// Whether flat index `k` of a row-major field of `cols` columns lies in
/// the pixel rectangle `[r0, r1) x [c0, c1)`.
pub open spec fn in_rect(k: int, cols: int, r0: int, r1: int, c0: int, c1: int) -> bool {
    r0 <= k / cols && k / cols < r1 && c0 <= k % cols && c1 > k % cols
}

impl ScalarImage {
    /// Add the noise of the cell with base vertex `vertex` to the single
    /// pixel `(i, j)`, which the cell covers.
    fn add_noise_pixel(&mut self, vertex: &Vertex, scale: usize, amp: i64, i: usize, j: usize)
        requires
            image_wf(*old(self)),
            1 <= scale <= SCALE_LIMIT,
            -AMP_LIMIT <= amp <= AMP_LIMIT,
            vertex.i0 < usize::MAX,
            vertex.i1 < usize::MAX,
            vertex.i1 as int * scale as int <= i as int,
            (i as int) < vertex.i1 as int * scale as int + scale as int,
            vertex.i0 as int * scale as int <= j as int,
            (j as int) < vertex.i0 as int * scale as int + scale as int,
            (i as nat) < image_dim(*old(self)).0,
            (j as nat) < image_dim(*old(self)).1,
            -(SAMPLE_LIMIT + AMP_LIMIT) <= image_data(*old(self))[i as int * (image_dim(
                *old(self),
            ).1 as int) + j as int] <= SAMPLE_LIMIT + AMP_LIMIT,
        ensures
            image_wf(*final(self)),
            image_dim(*final(self)) == image_dim(*old(self)),
            image_data(*final(self)) == image_data(*old(self)).update(
                i as int * (image_dim(*old(self)).1 as int) + j as int,
                image_data(*final(self))[i as int * (image_dim(*old(self)).1 as int) + j as int],
            ),
            image_data(*final(self))[i as int * (image_dim(*old(self)).1 as int) + j as int] as int
                == image_data(*old(self))[i as int * (image_dim(*old(self)).1 as int) + j as int]
                + octave_noise_spec(scale as int, amp as int, i as int, j as int),
    {
        let li = i - vertex.i1 * scale;
        let lj = j - vertex.i0 * scale;
        proof {
            assert(0 <= lj as int && (lj as int) < scale as int);
            assert(0 <= li as int && (li as int) < scale as int);
            lemma_sample_coord_range(lj as int, scale as int);
            lemma_sample_coord_range(li as int, scale as int);
            assert(0 <= (2 * (lj as int) + 1) * (ONE as int) <= (2 * (SCALE_LIMIT as int) + 1) * (
            ONE as int)) by (nonlinear_arith)
                requires
                    0 <= lj as int && (lj as int) < SCALE_LIMIT as int,
            ;
            assert(0 <= (2 * (li as int) + 1) * (ONE as int) <= (2 * (SCALE_LIMIT as int) + 1) * (
            ONE as int)) by (nonlinear_arith)
                requires
                    0 <= li as int && (li as int) < SCALE_LIMIT as int,
            ;
        }
        let px = ((2 * (lj as i64) + 1) * ONE) / (2 * (scale as i64));
        let py = ((2 * (li as i64) + 1) * ONE) / (2 * (scale as i64));
        proof {
            lemma_div_pos_is_pos((2 * (lj as int) + 1) * (ONE as int), 2 * (scale as int));
            lemma_div_pos_is_pos((2 * (li as int) + 1) * (ONE as int), 2 * (scale as int));
        }
        let s = cell_sample(vertex.i0, vertex.i1, px, py);
        proof {
            assert(-((AMP_LIMIT as int) * (2 * (ONE as int))) <= (amp as int) * (s as int) <= (
            AMP_LIMIT as int) * (2 * (ONE as int))) by (nonlinear_arith)
                requires
                    -(AMP_LIMIT as int) <= amp as int <= AMP_LIMIT as int && -2 * (ONE as int)
                        <= s as int <= 2 * (ONE as int),
            ;
            lemma_sdiv_bound((amp as int) * (s as int), 2 * (ONE as int), AMP_LIMIT as int);
        }
        let addend = sdiv64(amp * s, 2 * ONE);
        proof {
            reveal(octave_noise_spec);
            lemma_fundamental_div_mod_converse(
                j as int,
                scale as int,
                vertex.i0 as int,
                lj as int,
            );
            lemma_fundamental_div_mod_converse(
                i as int,
                scale as int,
                vertex.i1 as int,
                li as int,
            );
            assert(addend as int == octave_noise_spec(
                scale as int,
                amp as int,
                i as int,
                j as int,
            ));
            assert((i as int) * (image_dim(*self).1 as int) + (j as int) < (image_dim(
                *self,
            ).0 as int) * (image_dim(*self).1 as int)) by (nonlinear_arith)
                requires
                    (i as int) + 1 <= image_dim(*self).0 as int && 0 <= j as int && (j as int)
                        < image_dim(*self).1 as int && 0 <= i as int,
            ;
            assert(0 <= (i as int) * (image_dim(*self).1 as int)) by (nonlinear_arith)
                requires
                    0 <= i as int && 0 <= image_dim(*self).1 as int,
            ;
        }
        let v0 = self.get(i, j);
        self.set(i, j, v0 + addend);
    }

    /// Add one lattice cell of noise into the sub-grid
    /// `[r0, r1) x [c0, c1)` of the field. `vertex` is the cell's base
    /// lattice vertex, so `r0 == vertex.i1 * scale` and
    /// `c0 == vertex.i0 * scale`; the bounds are already clipped to the
    /// field, so no sample outside the sub-grid is read or written.
    pub fn perlin_noise_square(
        &mut self,
        vertex: &Vertex,
        scale: usize,
        amp: i64,
        r0: usize,
        r1: usize,
        c0: usize,
        c1: usize,
    )
        requires
            image_wf(*old(self)),
            1 <= scale <= SCALE_LIMIT,
            -AMP_LIMIT <= amp <= AMP_LIMIT,
            vertex.i0 < usize::MAX,
            vertex.i1 < usize::MAX,
            vertex.i1 as int * scale as int == r0 as int,
            vertex.i0 as int * scale as int == c0 as int,
            r0 <= r1,
            r1 as nat <= image_dim(*old(self)).0,
            r1 as int <= r0 as int + scale as int,
            c0 <= c1,
            c1 as nat <= image_dim(*old(self)).1,
            c1 as int <= c0 as int + scale as int,
            forall|k: int|
                0 <= k < image_data(*old(self)).len() ==> -(SAMPLE_LIMIT + AMP_LIMIT)
                    <= #[trigger] image_data(*old(self))[k] <= SAMPLE_LIMIT + AMP_LIMIT,
        ensures
            image_wf(*final(self)),
            image_dim(*final(self)) == image_dim(*old(self)),
            forall|k: int|
                0 <= k < image_data(*old(self)).len()
                    ==> #[trigger] image_data(*final(self))[k] as int == (
                if in_rect(k, image_dim(*old(self)).1 as int, r0 as int, r1 as int, c0 as int, c1 as int) {
                    image_data(*old(self))[k] + octave_noise_spec(
                        scale as int,
                        amp as int,
                        k / (image_dim(*old(self)).1 as int),
                        k % (image_dim(*old(self)).1 as int),
                    )
                } else {
                    image_data(*old(self))[k] as int
                }),
    {
        let ghost cols_g = image_dim(*old(self)).1 as int;
        let ghost data0 = image_data(*old(self));
        let mut i = r0;
        while i < r1
            invariant
                image_wf(*self),
                image_dim(*self) == image_dim(*old(self)),
                cols_g == image_dim(*old(self)).1 as int,
                data0 == image_data(*old(self)),
                data0.len() == image_data(*self).len(),
                r0 <= i <= r1,
                1 <= scale <= SCALE_LIMIT,
                -AMP_LIMIT <= amp <= AMP_LIMIT,
                vertex.i0 < usize::MAX,
                vertex.i1 < usize::MAX,
                vertex.i1 as int * scale as int == r0 as int,
                vertex.i0 as int * scale as int == c0 as int,
                r1 as nat <= image_dim(*old(self)).0,
                r1 as int <= r0 as int + scale as int,
                c0 <= c1,
                c1 as nat <= image_dim(*old(self)).1,
                c1 as int <= c0 as int + scale as int,
                forall|k: int|
                    0 <= k < data0.len() ==> -(SAMPLE_LIMIT + AMP_LIMIT) <= #[trigger] data0[k]
                        <= SAMPLE_LIMIT + AMP_LIMIT,
                forall|k: int|
                    0 <= k < data0.len() ==> #[trigger] image_data(*self)[k] as int == (
                    if in_rect(k, cols_g, r0 as int, i as int, c0 as int, c1 as int) {
                        data0[k] + octave_noise_spec(scale as int, amp as int, k / cols_g, k % cols_g)
                    } else {
                        data0[k] as int
                    }),
            decreases r1 - i,
        {
            let mut j = c0;
            while j < c1
                invariant
                    image_wf(*self),
                    image_dim(*self) == image_dim(*old(self)),
                    cols_g == image_dim(*old(self)).1 as int,
                    data0 == image_data(*old(self)),
                    data0.len() == image_data(*self).len(),
                    r0 <= i < r1,
                    c0 <= j <= c1,
                    1 <= scale <= SCALE_LIMIT,
                    -AMP_LIMIT <= amp <= AMP_LIMIT,
                    vertex.i0 < usize::MAX,
                    vertex.i1 < usize::MAX,
                    vertex.i1 as int * scale as int == r0 as int,
                    vertex.i0 as int * scale as int == c0 as int,
                    r1 as nat <= image_dim(*old(self)).0,
                    r1 as int <= r0 as int + scale as int,
                    c1 as nat <= image_dim(*old(self)).1,
                    c1 as int <= c0 as int + scale as int,
                    forall|k: int|
                        0 <= k < data0.len() ==> -(SAMPLE_LIMIT + AMP_LIMIT) <= #[trigger] data0[k]
                            <= SAMPLE_LIMIT + AMP_LIMIT,
                    forall|k: int|
                        0 <= k < data0.len() ==> #[trigger] image_data(*self)[k] as int == (
                        if in_rect(k, cols_g, r0 as int, i as int, c0 as int, c1 as int) || (k / cols_g
                            == i as int && c0 as int <= k % cols_g && k % cols_g < j as int) {
                            data0[k] + octave_noise_spec(scale as int, amp as int, k / cols_g, k % cols_g)
                        } else {
                            data0[k] as int
                        }),
                decreases c1 - j,
            {
                let ghost prev = image_data(*self);
                let ghost idx = (i as int) * cols_g + (j as int);
                proof {
                    assert(0 <= (i as int) * cols_g) by (nonlinear_arith)
                        requires
                            0 <= i as int && 0 <= cols_g,
                    ;
                    assert(idx < (image_dim(*self).0 as int) * cols_g) by (nonlinear_arith)
                        requires
                            idx == (i as int) * cols_g + (j as int) && (i as int) + 1 <= image_dim(
                                *self,
                            ).0 as int && 0 <= j as int && (j as int) < cols_g,
                    ;
                    lemma_fundamental_div_mod_converse(idx, cols_g, i as int, j as int);
                    assert(prev[idx] as int == data0[idx] as int);
                }
                self.add_noise_pixel(vertex, scale, amp, i, j);
                proof {
                    assert(image_data(*self) == prev.update(idx, image_data(*self)[idx]));
                    assert(image_data(*self)[idx] as int == data0[idx] + octave_noise_spec(
                        scale as int,
                        amp as int,
                        i as int,
                        j as int,
                    ));
                    assert forall|k: int|
                        0 <= k < data0.len() implies #[trigger] image_data(*self)[k] as int == (
                        if in_rect(k, cols_g, r0 as int, i as int, c0 as int, c1 as int) || (k / cols_g
                            == i as int && c0 as int <= k % cols_g && k % cols_g < j as int + 1) {
                            data0[k] + octave_noise_spec(scale as int, amp as int, k / cols_g, k % cols_g)
                        } else {
                            data0[k] as int
                        }) by {
                        if k == idx {
                            assert(k / cols_g == i as int && k % cols_g == j as int);
                        } else {
                            vstd::arithmetic::div_mod::lemma_fundamental_div_mod(k, cols_g);
                            if k / cols_g == i as int && k % cols_g == j as int {
                                assert(cols_g * (i as int) == (i as int) * cols_g)
                                    by (nonlinear_arith);
                                assert(k == idx);
                            }
                            assert(image_data(*self)[k] == prev[k]);
                        }
                    }
                }
                j = j + 1;
            }
            proof {
                assert forall|k: int|
                    0 <= k < data0.len() implies #[trigger] image_data(*self)[k] as int == (
                    if in_rect(k, cols_g, r0 as int, i as int + 1, c0 as int, c1 as int) {
                        data0[k] + octave_noise_spec(scale as int, amp as int, k / cols_g, k % cols_g)
                    } else {
                        data0[k] as int
                    }) by {
                    lemma_mod_bound(k, cols_g);
                }
            }
            i = i + 1;
        }
    }
}

/// Every sample of a partially tiled field stays within `AMP_LIMIT` of
/// its starting value, so it is still in range for the cell evaluator.
proof fn lemma_partial_bound(data0: Seq<i64>, data: Seq<i64>, cols_g: int, scale: int, amp: int)
    requires
        1 <= scale,
        -AMP_LIMIT <= amp <= AMP_LIMIT,
        0 < cols_g,
        data.len() == data0.len(),
        forall|k: int|
            0 <= k < data0.len() ==> -SAMPLE_LIMIT <= #[trigger] data0[k] <= SAMPLE_LIMIT,
        forall|k: int|
            0 <= k < data0.len() ==> #[trigger] data[k] as int == data0[k] as int || data[k] as int
                == data0[k] + octave_noise_spec(scale, amp, k / cols_g, k % cols_g),
    ensures
        forall|k: int|
            0 <= k < data.len() ==> -(SAMPLE_LIMIT + AMP_LIMIT) <= #[trigger] data[k]
                <= SAMPLE_LIMIT + AMP_LIMIT,
{
    assert forall|k: int|
        0 <= k < data.len() implies -(SAMPLE_LIMIT + AMP_LIMIT) <= #[trigger] data[k]
        <= SAMPLE_LIMIT + AMP_LIMIT by {
        lemma_div_pos_is_pos(k, cols_g);
        lemma_mod_bound(k, cols_g);
        lemma_octave_noise_bound(scale, amp, k / cols_g, k % cols_g);
    }
}

impl ScalarImage {
    /// Add one layer ("octave") of lattice noise to the whole field, in
    /// place. The field is tiled into cells of `scale x scale` pixels,
    /// clipped at the right and bottom edges; each pixel moves by the
    /// deterministic noise value of its cell, at most `AMP_LIMIT` in
    /// magnitude. A zero `scale` is rejected before any computation and
    /// the field is left untouched.
    pub fn add_perlin_noise(&mut self, scale: usize, amp: i64) -> (res: Result<(), ConfigError>)
        requires
            image_wf(*old(self)),
            scale <= SCALE_LIMIT,
            -AMP_LIMIT <= amp <= AMP_LIMIT,
            forall|k: int|
                0 <= k < image_data(*old(self)).len() ==> -SAMPLE_LIMIT <= #[trigger] image_data(
                    *old(self),
                )[k] <= SAMPLE_LIMIT,
        ensures
            image_wf(*final(self)),
            image_dim(*final(self)) == image_dim(*old(self)),
            match res {
                Ok(()) => 1 <= scale && image_data(*final(self)) == apply_octave_spec(
                    image_data(*old(self)),
                    image_dim(*old(self)).1 as int,
                    scale as int,
                    amp as int,
                ),
                Err(e) => e == ConfigError::ZeroScale && scale == 0 && image_data(*final(self))
                    == image_data(*old(self)),
            },
    {
        if scale == 0 {
            return Err(ConfigError::ZeroScale);
        }
        let rows = self.nrows();
        let cols = self.ncols();
        let ghost cols_g = image_dim(*old(self)).1 as int;
        let ghost rows_g = image_dim(*old(self)).0 as int;
        let ghost len_g = image_data(*old(self)).len() as int;
        let ghost data0 = image_data(*old(self));
        if rows == 0 || cols == 0 {
            proof {
                assert(data0.len() == 0) by (nonlinear_arith)
                    requires
                        len_g == rows_g * cols_g && (rows_g == 0 || cols_g == 0) && len_g
                            == data0.len(),
                ;
                assert(image_data(*self) =~= apply_octave_spec(
                    data0,
                    cols_g,
                    scale as int,
                    amp as int,
                ));
            }
            return Ok(());
        }
        let mut r0: usize = 0;
        let mut cr: usize = 0;
        while r0 < rows
            invariant
                image_wf(*self),
                image_dim(*self) == image_dim(*old(self)),
                cols_g == image_dim(*old(self)).1 as int,
                data0 == image_data(*old(self)),
                data0.len() == image_data(*self).len(),
                rows as int == image_dim(*old(self)).0 as int,
                cols as int == cols_g,
                0 < rows,
                0 < cols,
                1 <= scale <= SCALE_LIMIT,
                -AMP_LIMIT <= amp <= AMP_LIMIT,
                r0 as int == (if cr as int * scale as int <= rows as int {
                    cr as int * scale as int
                } else {
                    rows as int
                }),
                forall|k: int|
                    0 <= k < data0.len() ==> -SAMPLE_LIMIT <= #[trigger] data0[k] <= SAMPLE_LIMIT,
                forall|k: int|
                    0 <= k < data0.len() ==> #[trigger] image_data(*self)[k] as int == (
                    if k / cols_g < r0 as int {
                        data0[k] + octave_noise_spec(scale as int, amp as int, k / cols_g, k % cols_g)
                    } else {
                        data0[k] as int
                    }),
            decreases rows - r0,
        {
            let r1 = if rows - r0 > scale {
                r0 + scale
            } else {
                rows
            };
            proof {
                assert(cr as int * scale as int == r0 as int);
                assert((cr as int + 1) * (scale as int) == cr as int * scale as int
                    + scale as int) by (nonlinear_arith);
                assert(cr as int <= cr as int * scale as int) by (nonlinear_arith)
                    requires
                        1 <= scale as int && 0 <= cr as int,
                ;
            }
            let mut c0: usize = 0;
            let mut cc: usize = 0;
            while c0 < cols
                invariant
                    image_wf(*self),
                    image_dim(*self) == image_dim(*old(self)),
                    cols_g == image_dim(*old(self)).1 as int,
                    data0 == image_data(*old(self)),
                    data0.len() == image_data(*self).len(),
                    rows as int == image_dim(*old(self)).0 as int,
                    cols as int == cols_g,
                    0 < rows,
                    0 < cols,
                    1 <= scale <= SCALE_LIMIT,
                    -AMP_LIMIT <= amp <= AMP_LIMIT,
                    r0 < rows,
                    r0 <= r1 <= rows,
                    r1 as int <= r0 as int + scale as int,
                    r1 as int == (if r0 as int + scale as int <= rows as int {
                        r0 as int + scale as int
                    } else {
                        rows as int
                    }),
                    r0 as int == cr as int * scale as int,
                    c0 as int == (if cc as int * scale as int <= cols as int {
                        cc as int * scale as int
                    } else {
                        cols as int
                    }),
                    forall|k: int|
                        0 <= k < data0.len() ==> -SAMPLE_LIMIT <= #[trigger] data0[k]
                            <= SAMPLE_LIMIT,
                    forall|k: int|
                        0 <= k < data0.len() ==> #[trigger] image_data(*self)[k] as int == (
                        if k / cols_g < r0 as int || (r0 as int <= k / cols_g && k / cols_g
                            < r1 as int && k % cols_g < c0 as int) {
                            data0[k] + octave_noise_spec(scale as int, amp as int, k / cols_g, k % cols_g)
                        } else {
                            data0[k] as int
                        }),
                decreases cols - c0,
            {
                let c1 = if cols - c0 > scale {
                    c0 + scale
                } else {
                    cols
                };
                proof {
                    assert(cc as int * scale as int == c0 as int);
                    assert((cc as int + 1) * (scale as int) == cc as int * scale as int
                        + scale as int) by (nonlinear_arith);
                    assert(cc as int <= cc as int * scale as int) by (nonlinear_arith)
                        requires
                            1 <= scale as int && 0 <= cc as int,
                    ;
                    assert(cr as int <= cr as int * scale as int) by (nonlinear_arith)
                        requires
                            1 <= scale as int && 0 <= cr as int,
                    ;
                }
                let ghost before = image_data(*self);
                proof {
                    lemma_partial_bound(data0, before, cols_g, scale as int, amp as int);
                }
                self.perlin_noise_square(&Vertex::new(cc, cr), scale, amp, r0, r1, c0, c1);
                proof {
                    assert forall|k: int|
                        0 <= k < data0.len() implies #[trigger] image_data(*self)[k] as int == (
                        if k / cols_g < r0 as int || (r0 as int <= k / cols_g && k / cols_g
                            < r1 as int && k % cols_g < c1 as int) {
                            data0[k] + octave_noise_spec(scale as int, amp as int, k / cols_g, k % cols_g)
                        } else {
                            data0[k] as int
                        }) by {
                        lemma_div_pos_is_pos(k, cols_g);
                        lemma_mod_bound(k, cols_g);
                    }
                }
                cc = cc + 1;
                c0 = c1;
            }
            proof {
                assert forall|k: int|
                    0 <= k < data0.len() implies #[trigger] image_data(*self)[k] as int == (
                    if k / cols_g < r1 as int {
                        data0[k] + octave_noise_spec(scale as int, amp as int, k / cols_g, k % cols_g)
                    } else {
                        data0[k] as int
                    }) by {
                    lemma_mod_bound(k, cols_g);
                }
            }
            cr = cr + 1;
            r0 = r1;
        }
        proof {
            assert forall|k: int| 0 <= k < data0.len() implies #[trigger] image_data(*self)[k]
                as int == data0[k] + octave_noise_spec(
                scale as int,
                amp as int,
                k / cols_g,
                k % cols_g,
            ) by {
                assert(k < cols_g * rows_g) by (nonlinear_arith)
                    requires
                        k < len_g && len_g == rows_g * cols_g,
                ;
                lemma_multiply_divide_lt(k, cols_g, rows_g);
            }
            assert(image_data(*self) =~= apply_octave_spec(
                data0,
                cols_g,
                scale as int,
                amp as int,
            ));
        }
        Ok(())
    }
}

/// Cap on how many octaves one `add_octaves` call accumulates.
pub const OCTAVE_COUNT_LIMIT: usize = 32768;

/// Largest sample magnitude a field may hold when a whole octave list is
/// accumulated; leaves room for every octave's amplitude.
pub const OCTAVES_INPUT_LIMIT: i64 = 0x80_0000_0000_0000;

/// The amplitude `generate` uses, chosen so the written samples are the
/// raw cell samples themselves.
pub const GENERATE_AMP: i64 = 2 * ONE;

/// One octave changes each sample by exactly its noise value, and by at
/// most `AMP_LIMIT` in magnitude.
pub proof fn lemma_apply_octave_props(data: Seq<i64>, cols: int, scale: int, amp: int, m: int)
    requires
        1 <= scale,
        -AMP_LIMIT <= amp <= AMP_LIMIT,
        0 < cols,
        0 <= m,
        m + AMP_LIMIT < 0x7fff_ffff_ffff_ffff,
        forall|k: int| 0 <= k < data.len() ==> -m <= #[trigger] data[k] <= m,
    ensures
        apply_octave_spec(data, cols, scale, amp).len() == data.len(),
        forall|k: int|
            0 <= k < data.len() ==> #[trigger] apply_octave_spec(data, cols, scale, amp)[k] as int
                == data[k] + octave_noise_spec(scale, amp, k / cols, k % cols),
        forall|k: int|
            0 <= k < data.len() ==> -(m + AMP_LIMIT) <= #[trigger] apply_octave_spec(
                data,
                cols,
                scale,
                amp,
            )[k] <= m + AMP_LIMIT,
{
    assert forall|k: int| 0 <= k < data.len() implies #[trigger] apply_octave_spec(
        data,
        cols,
        scale,
        amp,
    )[k] as int == data[k] + octave_noise_spec(scale, amp, k / cols, k % cols) && -(m + AMP_LIMIT)
        <= apply_octave_spec(data, cols, scale, amp)[k] <= m + AMP_LIMIT by {
        lemma_div_pos_is_pos(k, cols);
        lemma_mod_bound(k, cols);
        lemma_octave_noise_bound(scale, amp, k / cols, k % cols);
    }
}

/// Octave accumulation composes: applying the octave list `a` and then
/// the list `b` gives exactly the field of applying `a + b` in one
/// combined call. In fixed point the accumulation is exact, so this holds
/// bit for bit, not merely within a tolerance.
pub proof fn lemma_octaves_append(data: Seq<i64>, cols: int, a: Seq<Octave>, b: Seq<Octave>)
    ensures
        apply_octaves_spec(data, cols, a + b) == apply_octaves_spec(
            apply_octaves_spec(data, cols, a),
            cols,
            b,
        ),
    decreases a.len(),
{
    if a.len() == 0 {
        assert(a + b =~= b);
    } else {
        assert((a + b).drop_first() =~= a.drop_first() + b);
        assert((a + b)[0] == a[0]);
        lemma_octaves_append(
            apply_octave_spec(data, cols, a[0].scale as int, a[0].amp as int),
            cols,
            a.drop_first(),
            b,
        );
    }
}

/// Appending one octave to a list is the same as applying it after the
/// list.
pub proof fn lemma_octaves_snoc(data: Seq<i64>, cols: int, a: Seq<Octave>, o: Octave)
    ensures
        apply_octaves_spec(data, cols, a.push(o)) == apply_octave_spec(
            apply_octaves_spec(data, cols, a),
            cols,
            o.scale as int,
            o.amp as int,
        ),
{
    let single = seq![o];
    assert(a.push(o) =~= a + single);
    lemma_octaves_append(data, cols, a, single);
    let mid = apply_octaves_spec(data, cols, a);
    let applied = apply_octave_spec(mid, cols, o.scale as int, o.amp as int);
    assert(single[0] == o);
    assert(single.drop_first() =~= Seq::<Octave>::empty());
    assert(apply_octaves_spec(applied, cols, Seq::<Octave>::empty()) == applied);
    assert(apply_octaves_spec(mid, cols, single) == applied);
}

impl ScalarImage {
    /// Accumulate a whole list of octaves into the field, in order. The
    /// octave scales are validated before any computation: if any is
    /// zero, the call fails and the field is untouched.
    pub fn add_octaves(&mut self, octaves: &Vec<Octave>) -> (res: Result<(), ConfigError>)
        requires
            image_wf(*old(self)),
            octaves@.len() <= OCTAVE_COUNT_LIMIT,
            forall|t: int|
                0 <= t < octaves@.len() ==> (#[trigger] octaves@[t].scale) <= SCALE_LIMIT,
            forall|t: int|
                0 <= t < octaves@.len() ==> -AMP_LIMIT <= (#[trigger] octaves@[t].amp)
                    <= AMP_LIMIT,
            forall|k: int|
                0 <= k < image_data(*old(self)).len() ==> -OCTAVES_INPUT_LIMIT
                    <= #[trigger] image_data(*old(self))[k] <= OCTAVES_INPUT_LIMIT,
        ensures
            image_wf(*final(self)),
            image_dim(*final(self)) == image_dim(*old(self)),
            match res {
                Ok(()) => (forall|t: int|
                    0 <= t < octaves@.len() ==> 1 <= (#[trigger] octaves@[t].scale))
                    && image_data(*final(self)) == apply_octaves_spec(
                    image_data(*old(self)),
                    image_dim(*old(self)).1 as int,
                    octaves@,
                ),
                Err(e) => e == ConfigError::ZeroScale && (exists|t: int|
                    0 <= t < octaves@.len() && (#[trigger] octaves@[t].scale) == 0)
                    && image_data(*final(self)) == image_data(*old(self)),
            },
    {
        let n = octaves.len();
        let mut t: usize = 0;
        while t < n
            invariant
                image_wf(*self),
                image_dim(*self) == image_dim(*old(self)),
                image_data(*self) == image_data(*old(self)),
                n == octaves@.len(),
                t <= n,
                forall|u: int| 0 <= u < t ==> 1 <= (#[trigger] octaves@[u].scale),
            decreases n - t,
        {
            if octaves[t].scale == 0 {
                return Err(ConfigError::ZeroScale);
            }
            t = t + 1;
        }
        let ghost cols_g = image_dim(*old(self)).1 as int;
        let ghost data0 = image_data(*old(self));
        let cols = self.ncols();
        let ghost rows_g = image_dim(*old(self)).0 as int;
        let ghost len_g = image_data(*old(self)).len() as int;
        if cols == 0 {
            // A field with no columns has no samples; nothing to do.
            proof {
                assert(len_g == 0) by (nonlinear_arith)
                    requires
                        len_g == rows_g * cols_g && cols_g == 0,
                ;
                lemma_octaves_empty(data0, cols_g, octaves@);
            }
            return Ok(());
        }
        let mut t: usize = 0;
        while t < n
            invariant
                image_wf(*self),
                image_dim(*self) == image_dim(*old(self)),
                cols_g == image_dim(*old(self)).1 as int,
                cols as int == cols_g,
                0 < cols,
                data0 == image_data(*old(self)),
                data0.len() == image_data(*self).len(),
                n == octaves@.len(),
                n <= OCTAVE_COUNT_LIMIT,
                t <= n,
                forall|u: int| 0 <= u < n ==> 1 <= (#[trigger] octaves@[u].scale),
                forall|u: int|
                    0 <= u < n ==> (#[trigger] octaves@[u].scale) <= SCALE_LIMIT,
                forall|u: int|
                    0 <= u < n ==> -AMP_LIMIT <= (#[trigger] octaves@[u].amp) <= AMP_LIMIT,
                forall|k: int|
                    0 <= k < data0.len() ==> -OCTAVES_INPUT_LIMIT <= #[trigger] data0[k]
                        <= OCTAVES_INPUT_LIMIT,
                image_data(*self) == apply_octaves_spec(data0, cols_g, octaves@.take(t as int)),
                forall|k: int|
                    0 <= k < data0.len() ==> -(OCTAVES_INPUT_LIMIT + (t as int) * AMP_LIMIT)
                        <= #[trigger] image_data(*self)[k] <= OCTAVES_INPUT_LIMIT + (t as int)
                        * AMP_LIMIT,
            decreases n - t,
        {
            let scale = octaves[t].scale;
            let amp = octaves[t].amp;
            let ghost cur = image_data(*self);
            proof {
                assert((t as int) * AMP_LIMIT <= (OCTAVE_COUNT_LIMIT as int) * AMP_LIMIT)
                    by (nonlinear_arith)
                    requires
                        0 <= t as int <= OCTAVE_COUNT_LIMIT as int,
                ;
            }
            let r = self.add_perlin_noise(scale, amp);
            proof {
                assert(r is Ok);
                lemma_octaves_snoc(data0, cols_g, octaves@.take(t as int), octaves@[t as int]);
                assert(octaves@.take(t as int).push(octaves@[t as int]) =~= octaves@.take(
                    t as int + 1,
                ));
                lemma_apply_octave_props(
                    cur,
                    cols_g,
                    scale as int,
                    amp as int,
                    OCTAVES_INPUT_LIMIT + (t as int) * AMP_LIMIT,
                );
                assert(((t as int) + 1) * AMP_LIMIT == (t as int) * AMP_LIMIT + AMP_LIMIT)
                    by (nonlinear_arith);
            }
            t = t + 1;
        }
        proof {
            assert(octaves@.take(n as int) =~= octaves@);
        }
        Ok(())
    }

    /// Fill the field with one layer of noise, overwriting its previous
    /// contents: every sample becomes exactly the raw noise value of its
    /// lattice cell. A zero `scale` is rejected and the field is left
    /// untouched.
    pub fn generate(&mut self, scale: usize) -> (res: Result<(), ConfigError>)
        requires
            image_wf(*old(self)),
            scale <= SCALE_LIMIT,
        ensures
            image_wf(*final(self)),
            image_dim(*final(self)) == image_dim(*old(self)),
            image_data(*final(self)).len() == image_data(*old(self)).len(),
            match res {
                Ok(()) => 1 <= scale && forall|k: int|
                    0 <= k < image_data(*final(self)).len()
                        ==> #[trigger] image_data(*final(self))[k] as int == octave_noise_spec(
                        scale as int,
                        GENERATE_AMP as int,
                        k / (image_dim(*old(self)).1 as int),
                        k % (image_dim(*old(self)).1 as int),
                    ),
                Err(e) => e == ConfigError::ZeroScale && scale == 0 && image_data(*final(self))
                    == image_data(*old(self)),
            },
    {
        if scale == 0 {
            return Err(ConfigError::ZeroScale);
        }
        let ghost cols_g = image_dim(*old(self)).1 as int;
        let ghost rows_g = image_dim(*old(self)).0 as int;
        let ghost len_g = image_data(*old(self)).len() as int;
        self.clear();
        let ghost zeros = image_data(*self);
        let r = self.add_perlin_noise(scale, GENERATE_AMP);
        proof {
            assert(r is Ok);
            if len_g > 0 {
                assert(0 < cols_g) by (nonlinear_arith)
                    requires
                        0 < len_g && len_g == rows_g * cols_g && 0 <= cols_g,
                ;
                lemma_apply_octave_props(zeros, cols_g, scale as int, GENERATE_AMP as int, 0);
            }
        }
        r
    }
}

/// Applying octaves to a field with no samples leaves the (empty)
/// contents unchanged.
proof fn lemma_octaves_empty(data: Seq<i64>, cols: int, octs: Seq<Octave>)
    requires
        data.len() == 0,
    ensures
        apply_octaves_spec(data, cols, octs) == data,
    decreases octs.len(),
{
    if octs.len() > 0 {
        let next = apply_octave_spec(data, cols, octs[0].scale as int, octs[0].amp as int);
        assert(next =~= data);
        lemma_octaves_empty(next, cols, octs.drop_first());
    }
}

/// A configurable noise layer: holds a lattice scale and an amplitude
/// and adds itself to any scalar field.
pub struct Perlin {
    pub scale: usize,
    pub amp: i64,
}

impl Perlin {
    /// A noise layer with the given lattice scale and amplitude.
    pub fn new(scale: usize, amp: i64) -> (p: Perlin)
        ensures
            p.scale == scale,
            p.amp == amp,
    {
        Perlin { scale, amp }
    }

    /// Add this layer's noise to the field, in place.
    pub fn add_to_image(&self, image: &mut ScalarImage) -> (res: Result<(), ConfigError>)
        requires
            image_wf(*old(image)),
            self.scale <= SCALE_LIMIT,
            -AMP_LIMIT <= self.amp <= AMP_LIMIT,
            forall|k: int|
                0 <= k < image_data(*old(image)).len() ==> -SAMPLE_LIMIT <= #[trigger] image_data(
                    *old(image),
                )[k] <= SAMPLE_LIMIT,
        ensures
            image_wf(*final(image)),
            image_dim(*final(image)) == image_dim(*old(image)),
            match res {
                Ok(()) => 1 <= self.scale && image_data(*final(image)) == apply_octave_spec(
                    image_data(*old(image)),
                    image_dim(*old(image)).1 as int,
                    self.scale as int,
                    self.amp as int,
                ),
                Err(e) => e == ConfigError::ZeroScale && self.scale == 0 && image_data(
                    *final(image),
                ) == image_data(*old(image)),
            },
    {
        image.add_perlin_noise(self.scale, self.amp)
    }
}

/// Noise generation is pure: two fields whose samples both satisfy
/// `generate`'s contract for the same scale and column count are
/// identical bit for bit, whatever was in them before.
pub proof fn lemma_generate_deterministic(d1: Seq<i64>, d2: Seq<i64>, cols: int, scale: int)
    requires
        d1.len() == d2.len(),
        forall|k: int|
            0 <= k < d1.len() ==> #[trigger] d1[k] as int == octave_noise_spec(
                scale,
                GENERATE_AMP as int,
                k / cols,
                k % cols,
            ),
        forall|k: int|
            0 <= k < d2.len() ==> #[trigger] d2[k] as int == octave_noise_spec(
                scale,
                GENERATE_AMP as int,
                k / cols,
                k % cols,
            ),
    ensures
        d1 == d2,
{
    assert forall|k: int| 0 <= k < d1.len() implies d1[k] == d2[k] by {
        assert(d1[k] as int == d2[k] as int);
    }
    assert(d1 =~= d2);
}

} // verus!
