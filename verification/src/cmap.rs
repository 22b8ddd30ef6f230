//! Colormaps: projecting a scalar field to an RGBA pixel buffer.
//!
//! `Grayscale` normalizes the field by its own minimum and maximum and
//! replicates the level into the color channels; `GradientCMap` remaps
//! the field's range onto a piecewise-linear color ramp. Both reject a
//! mismatched output buffer before touching it, and both follow one
//! documented policy for a field with no dynamic range.

use crate::image::{image_data, image_dim, image_wf, ScalarImage};
use crate::math::sdiv;
use crate::ConfigError;
use vstd::arithmetic::div_mod::{
    lemma_div_by_multiple, lemma_div_pos_is_pos, lemma_mod_bound, lemma_multiply_divide_le,
    lemma_multiply_divide_lt,
};
use vstd::prelude::*;

verus! {

/// Cap on the sample magnitudes the colormaps accept; keeps the
/// normalization products inside `i64`.
pub const CMAP_SAMPLE_LIMIT: i64 = 0x100_0000_0000;

/// Cap on gradient control-point positions, for the same reason.
pub const STOP_POS_LIMIT: i64 = 0x10_0000;

/// An 8-bit RGB color.
#[derive(Clone, Copy, Debug, PartialEq, Eq, Structural)]
pub struct Rgb {
    pub r: u8,
    pub g: u8,
    pub b: u8,
}

/// A gradient control point: a fixed-point position and its color.
#[derive(Clone, Copy, Debug, PartialEq, Eq, Structural)]
pub struct GradientStop {
    pub pos: i64,
    pub color: Rgb,
}

/// The smallest sample of a nonempty sequence (`0` for an empty one).
pub open spec fn seq_min_spec(s: Seq<i64>) -> int
    decreases s.len(),
{
    if s.len() == 0 {
        0
    } else if s.len() == 1 {
        s[0] as int
    } else {
        let m = seq_min_spec(s.drop_last());
        if s.last() < m {
            s.last() as int
        } else {
            m
        }
    }
}

/// The largest sample of a nonempty sequence (`0` for an empty one).
pub open spec fn seq_max_spec(s: Seq<i64>) -> int
    decreases s.len(),
{
    if s.len() == 0 {
        0
    } else if s.len() == 1 {
        s[0] as int
    } else {
        let m = seq_max_spec(s.drop_last());
        if s.last() > m {
            s.last() as int
        } else {
            m
        }
    }
}

/// `seq_min_spec` is an element of the sequence and no element is below
/// it; dually for `seq_max_spec`.
pub proof fn lemma_seq_min_max_props(s: Seq<i64>)
    requires
        s.len() > 0,
    ensures
        exists|k: int| 0 <= k < s.len() && s[k] as int == seq_min_spec(s),
        exists|k: int| 0 <= k < s.len() && s[k] as int == seq_max_spec(s),
        forall|k: int| 0 <= k < s.len() ==> seq_min_spec(s) <= #[trigger] s[k] as int,
        forall|k: int| 0 <= k < s.len() ==> #[trigger] s[k] as int <= seq_max_spec(s),
    decreases s.len(),
{
    if s.len() == 1 {
        assert(s[0] as int == seq_min_spec(s));
        assert(s[0] as int == seq_max_spec(s));
    }
    if s.len() > 1 {
        lemma_seq_min_max_props(s.drop_last());
        assert forall|k: int| 0 <= k < s.len() implies seq_min_spec(s) <= #[trigger] s[k] as int
            && s[k] as int <= seq_max_spec(s) by {
            if k < s.len() - 1 {
                assert(s.drop_last()[k] == s[k]);
            }
        }
        let km = choose|k: int|
            0 <= k < s.drop_last().len() && s.drop_last()[k] as int == seq_min_spec(s.drop_last());
        let kx = choose|k: int|
            0 <= k < s.drop_last().len() && s.drop_last()[k] as int == seq_max_spec(s.drop_last());
        if s.last() < seq_min_spec(s.drop_last()) {
            assert(s[s.len() - 1] as int == seq_min_spec(s));
        } else {
            assert(s.drop_last()[km] == s[km]);
            assert(s[km] as int == seq_min_spec(s));
        }
        if s.last() > seq_max_spec(s.drop_last()) {
            assert(s[s.len() - 1] as int == seq_max_spec(s));
        } else {
            assert(s.drop_last()[kx] == s[kx]);
            assert(s[kx] as int == seq_max_spec(s));
        }
    }
}

/// The grayscale level of sample `v` in a field with extremes
/// `[lo, hi]`: the sample is normalized to `[0, 255]`, rounding down.
/// A field with no dynamic range (`hi == lo`) maps every sample to the
/// mid-gray level `128`, by policy.
pub open spec fn gray_level_spec(v: int, lo: int, hi: int) -> int {
    if hi <= lo {
        128
    } else {
        ((v - lo) * 255) / (hi - lo)
    }
}

/// The grayscale level always fits a byte, and the extremes map to `0`
/// and `255` exactly whenever the field has any dynamic range.
pub proof fn lemma_gray_level_range(v: int, lo: int, hi: int)
    requires
        lo <= v <= hi,
    ensures
        0 <= gray_level_spec(v, lo, hi) <= 255,
        lo < hi ==> gray_level_spec(lo, lo, hi) == 0,
        lo < hi ==> gray_level_spec(hi, lo, hi) == 255,
{
    if lo < hi {
        let range = hi - lo;
        assert(0 <= (v - lo) * 255) by (nonlinear_arith)
            requires
                lo <= v,
        ;
        lemma_div_pos_is_pos((v - lo) * 255, range);
        assert((v - lo) * 255 <= range * 255) by (nonlinear_arith)
            requires
                v - lo <= range,
        ;
        lemma_multiply_divide_le((v - lo) * 255, range, 255);
        assert((lo - lo) * 255 == 0) by (nonlinear_arith);
        assert(0int / range == 0) by {
            lemma_div_by_multiple(0, range);
            assert(0int * range == 0) by (nonlinear_arith);
        }
        assert((hi - lo) * 255 == 255 * range) by (nonlinear_arith)
            requires
                range == hi - lo,
        ;
        lemma_div_by_multiple(255, range);
    }
}

/// A dense RGBA pixel buffer: `rows x cols` pixels, four bytes each, in
/// row-major order with interleaved channels.
pub struct RgbaImage {
    rows: usize,
    cols: usize,
    data: Vec<u8>,
}

impl RgbaImage {
    /// The buffer's shape as `(rows, cols)`.
    pub closed spec fn dim_spec(&self) -> (nat, nat) {
        (self.rows as nat, self.cols as nat)
    }

    /// The flat byte contents, row-major, channel-interleaved.
    pub closed spec fn bytes_spec(&self) -> Seq<u8> {
        self.data@
    }

    /// The buffer holds exactly four bytes per pixel.
    pub open spec fn wf(&self) -> bool {
        &&& self.bytes_spec().len() == 4 * self.dim_spec().0 * self.dim_spec().1
        &&& 4 * self.dim_spec().0 * self.dim_spec().1 <= usize::MAX
    }

    /// A `height x width` buffer of fully transparent black pixels.
    pub fn new(width: usize, height: usize) -> (img: RgbaImage)
        requires
            4 * (height as int) * (width as int) <= usize::MAX,
        ensures
            img.wf(),
            img.dim_spec() == (height as nat, width as nat),
            forall|q: int| 0 <= q < img.bytes_spec().len() ==> #[trigger] img.bytes_spec()[q] == 0,
    {
        let img = RgbaImage::filled(width, height, 0, 0, 0, 0);
        proof {
            assert forall|q: int| 0 <= q < img.bytes_spec().len() implies #[trigger] img.bytes_spec()[q]
                == 0 by {
                vstd::arithmetic::div_mod::lemma_fundamental_div_mod(q, 4);
                lemma_mod_bound(q, 4);
                lemma_div_pos_is_pos(q, 4);
                let p = q / 4;
                assert(0 <= p < (height as int) * (width as int)) by (nonlinear_arith)
                    requires
                        0 <= q < 4 * (height as int) * (width as int) && q == 4 * p + q % 4 && 0
                            <= q % 4 < 4 && 0 <= p,
                ;
                assert(q == 4 * p + q % 4);
                assert(img.bytes_spec()[4 * p] == 0);
                if q % 4 == 0 {
                    assert(q == 4 * p);
                } else if q % 4 == 1 {
                    assert(q == 4 * p + 1);
                } else if q % 4 == 2 {
                    assert(q == 4 * p + 2);
                } else {
                    assert(q == 4 * p + 3);
                }
            }
        }
        img
    }

    /// A `height x width` buffer filled with one opaque color.
    pub fn fill(width: usize, height: usize, r: u8, g: u8, b: u8) -> (img: RgbaImage)
        requires
            4 * (height as int) * (width as int) <= usize::MAX,
        ensures
            img.wf(),
            img.dim_spec() == (height as nat, width as nat),
            forall|p: int|
                0 <= p < (height as int) * (width as int) ==> #[trigger] img.bytes_spec()[4 * p]
                    == r && img.bytes_spec()[4 * p + 1] == g && img.bytes_spec()[4 * p + 2] == b
                    && img.bytes_spec()[4 * p + 3] == 255,
    {
        RgbaImage::filled(width, height, r, g, b, 255)
    }

    /// A `height x width` buffer filled with one RGBA value.
    fn filled(width: usize, height: usize, r: u8, g: u8, b: u8, a: u8) -> (img: RgbaImage)
        requires
            4 * (height as int) * (width as int) <= usize::MAX,
        ensures
            img.wf(),
            img.dim_spec() == (height as nat, width as nat),
            forall|p: int|
                0 <= p < (height as int) * (width as int) ==> #[trigger] img.bytes_spec()[4 * p]
                    == r && img.bytes_spec()[4 * p + 1] == g && img.bytes_spec()[4 * p + 2] == b
                    && img.bytes_spec()[4 * p + 3] == a,
    {
        proof {
            assert(0 <= (height as int) * (width as int)) by (nonlinear_arith)
                requires
                    0 <= height as int && 0 <= width as int,
            ;
            assert(4 * ((height as int) * (width as int)) == 4 * (height as int) * (width as int))
                by (nonlinear_arith);
        }
        let n: usize = height * width;
        let mut data: Vec<u8> = Vec::new();
        let mut p: usize = 0;
        while p < n
            invariant
                p <= n,
                4 * (n as int) <= usize::MAX,
                data@.len() == 4 * p as int,
                forall|q: int|
                    0 <= q < p as int ==> #[trigger] data@[4 * q] == r && data@[4 * q + 1] == g
                        && data@[4 * q + 2] == b && data@[4 * q + 3] == a,
            decreases n - p,
        {
            let ghost before = data@;
            data.push(r);
            data.push(g);
            data.push(b);
            data.push(a);
            proof {
                assert(data@.len() == before.len() + 4);
                assert(data@[4 * (p as int)] == r);
                assert(data@[4 * (p as int) + 1] == g);
                assert(data@[4 * (p as int) + 2] == b);
                assert(data@[4 * (p as int) + 3] == a);
                assert(forall|q: int| 0 <= q < before.len() ==> data@[q] == #[trigger] before[q]);
                assert forall|q: int|
                    0 <= q < p as int + 1 implies #[trigger] data@[4 * q] == r && data@[4 * q + 1]
                    == g && data@[4 * q + 2] == b && data@[4 * q + 3] == a by {
                    if q < p as int {
                        assert(before[4 * q] == r && before[4 * q + 1] == g && before[4 * q + 2]
                            == b && before[4 * q + 3] == a);
                        assert(data@[4 * q] == before[4 * q]);
                        assert(data@[4 * q + 1] == before[4 * q + 1]);
                        assert(data@[4 * q + 2] == before[4 * q + 2]);
                        assert(data@[4 * q + 3] == before[4 * q + 3]);
                    }
                }
            }
            p = p + 1;
        }
        RgbaImage { rows: height, cols: width, data }
    }

    /// The number of pixel columns.
    pub fn width(&self) -> (w: usize)
        ensures
            w as nat == self.dim_spec().1,
    {
        self.cols
    }

    /// The number of pixel rows.
    pub fn height(&self) -> (h: usize)
        ensures
            h as nat == self.dim_spec().0,
    {
        self.rows
    }

    /// The flat RGBA bytes, row-major, for handoff to an encoder or a
    /// display surface.
    pub fn image_data(&self) -> (bytes: &Vec<u8>)
        ensures
            bytes@ == self.bytes_spec(),
    {
        &self.data
    }

    /// Overwrite the pixel at row `i`, column `j` with one RGBA value.
    fn put_pixel(&mut self, i: usize, j: usize, r: u8, g: u8, b: u8, a: u8)
        requires
            old(self).wf(),
            (i as nat) < old(self).dim_spec().0,
            (j as nat) < old(self).dim_spec().1,
        ensures
            final(self).wf(),
            final(self).dim_spec() == old(self).dim_spec(),
            final(self).bytes_spec().len() == old(self).bytes_spec().len(),
            ({
                let p = i as int * (old(self).dim_spec().1 as int) + j as int;
                &&& final(self).bytes_spec()[4 * p] == r
                &&& final(self).bytes_spec()[4 * p + 1] == g
                &&& final(self).bytes_spec()[4 * p + 2] == b
                &&& final(self).bytes_spec()[4 * p + 3] == a
                &&& forall|q: int|
                    0 <= q < old(self).bytes_spec().len() && !(4 * p <= q < 4 * p + 4)
                        ==> #[trigger] final(self).bytes_spec()[q] == old(self).bytes_spec()[q]
            }),
    {
        proof {
            assert((i as int) * (self.cols as int) + (j as int) < (self.rows as int) * (
            self.cols as int)) by (nonlinear_arith)
                requires
                    (i as int) + 1 <= self.rows as int && 0 <= j as int && (j as int)
                        < self.cols as int && 0 <= i as int,
            ;
            assert(0 <= (i as int) * (self.cols as int)) by (nonlinear_arith)
                requires
                    0 <= i as int && 0 <= self.cols as int,
            ;
            assert(4 * ((self.rows as int) * (self.cols as int)) == 4 * (self.rows as int) * (
            self.cols as int)) by (nonlinear_arith);
        }
        let p: usize = i * self.cols + j;
        let base: usize = 4 * p;
        self.data[base] = r;
        self.data[base + 1] = g;
        self.data[base + 2] = b;
        self.data[base + 3] = a;
    }
}

/// Pixel `p` of `bytes` holds the grayscale color of sample `p` of
/// `data`, normalized by the field's own extremes.
pub open spec fn gray_pixel_ok(bytes: Seq<u8>, data: Seq<i64>, p: int) -> bool {
    let lvl = gray_level_spec(data[p] as int, seq_min_spec(data), seq_max_spec(data));
    &&& bytes[4 * p] as int == lvl
    &&& bytes[4 * p + 1] as int == lvl
    &&& bytes[4 * p + 2] as int == lvl
    &&& bytes[4 * p + 3] == 255
}

/// The grayscale colormap: normalizes a field by its own extremes and
/// writes the level into the red, green and blue channels, with full
/// alpha.
pub struct Grayscale;

impl Grayscale {
    /// Project `input` onto `output` as gray levels. The output buffer
    /// must have the field's dimensions; otherwise the call fails before
    /// touching it. Levels are `floor(255 * (v - min) / (max - min))`,
    /// and a flat field maps everywhere to mid-gray `128`.
    #[verifier::rlimit(50)]
    pub fn cmap(&self, input: &ScalarImage, output: &mut RgbaImage) -> (res: Result<
        (),
        ConfigError,
    >)
        requires
            image_wf(*input),
            old(output).wf(),
            forall|k: int|
                0 <= k < image_data(*input).len() ==> -CMAP_SAMPLE_LIMIT <= #[trigger] image_data(
                    *input,
                )[k] <= CMAP_SAMPLE_LIMIT,
        ensures
            final(output).wf(),
            final(output).dim_spec() == old(output).dim_spec(),
            match res {
                Ok(()) => image_dim(*input) == old(output).dim_spec() && forall|p: int|
                    0 <= p < image_data(*input).len() ==> #[trigger] gray_pixel_ok(
                        final(output).bytes_spec(),
                        image_data(*input),
                        p,
                    ),
                Err(e) => e == ConfigError::DimensionMismatch && image_dim(*input) != old(
                    output,
                ).dim_spec() && final(output).bytes_spec() == old(output).bytes_spec(),
            },
    {
        let rows = input.nrows();
        let cols = input.ncols();
        if rows != output.height() || cols != output.width() {
            return Err(ConfigError::DimensionMismatch);
        }
        let lo_opt = input.min_sample();
        let hi_opt = input.max_sample();
        let (lo, hi) = match (lo_opt, hi_opt) {
            (Some(lo), Some(hi)) => (lo, hi),
            _ => {
                return Ok(());
            },
        };
        proof {
            lemma_seq_min_max_props(image_data(*input));
            assert(lo as int == seq_min_spec(image_data(*input)));
            assert(hi as int == seq_max_spec(image_data(*input)));
            assert(image_data(*input).contains(lo));
            let kw = choose|k: int|
                0 <= k < image_data(*input).len() && image_data(*input)[k] == lo;
            assert(-CMAP_SAMPLE_LIMIT <= image_data(*input)[kw] <= CMAP_SAMPLE_LIMIT);
            assert(image_data(*input).contains(hi));
            let kx = choose|k: int|
                0 <= k < image_data(*input).len() && image_data(*input)[k] == hi;
            assert(-CMAP_SAMPLE_LIMIT <= image_data(*input)[kx] <= CMAP_SAMPLE_LIMIT);
            assert(lo <= image_data(*input)[kw] <= hi);
        }
        let ghost data = image_data(*input);
        let ghost cols_g = image_dim(*input).1 as int;
        let npix: usize = rows * cols;
        proof {
            assert(output.bytes_spec().len() == 4 * (npix as int)) by (nonlinear_arith)
                requires
                    output.bytes_spec().len() == 4 * (output.dim_spec().0 as int) * (
                    output.dim_spec().1 as int) && npix as int == (rows as int) * (cols as int)
                        && rows as int == output.dim_spec().0 as int && cols as int
                        == output.dim_spec().1 as int,
            ;
        }
        let mut p: usize = 0;
        while p < npix
            invariant
                image_wf(*input),
                output.wf(),
                output.bytes_spec().len() == 4 * (npix as int),
                output.dim_spec() == old(output).dim_spec(),
                output.dim_spec() == image_dim(*input),
                data == image_data(*input),
                cols_g == image_dim(*input).1 as int,
                rows as int == image_dim(*input).0 as int,
                cols as int == cols_g,
                npix as int == data.len() as int,
                p <= npix,
                lo as int == seq_min_spec(data),
                hi as int == seq_max_spec(data),
                -CMAP_SAMPLE_LIMIT <= lo <= hi <= CMAP_SAMPLE_LIMIT,
                forall|k: int| 0 <= k < data.len() ==> lo <= #[trigger] data[k] <= hi,
                forall|k: int|
                    0 <= k < data.len() ==> -CMAP_SAMPLE_LIMIT <= #[trigger] data[k]
                        <= CMAP_SAMPLE_LIMIT,
                forall|t: int|
                    0 <= t < p as int ==> {
                        let lvl = gray_level_spec(data[t] as int, lo as int, hi as int);
                        &&& #[trigger] output.bytes_spec()[4 * t] as int == lvl
                        &&& output.bytes_spec()[4 * t + 1] as int == lvl
                        &&& output.bytes_spec()[4 * t + 2] as int == lvl
                        &&& output.bytes_spec()[4 * t + 3] == 255
                    },
            decreases npix - p,
        {
            proof {
                assert(p < data.len());
                assert((p as int) < cols_g * (rows as int)) by (nonlinear_arith)
                    requires
                        (p as int) < npix as int && npix as int == (rows as int) * cols_g,
                ;
                lemma_multiply_divide_lt(p as int, cols_g, rows as int);
                lemma_div_pos_is_pos(p as int, cols_g);
                lemma_mod_bound(p as int, cols_g);
            }
            let i = p / cols;
            let j = p % cols;
            let v = input.get(i, j);
            proof {
                vstd::arithmetic::div_mod::lemma_fundamental_div_mod(p as int, cols_g);
                assert((i as int) * cols_g + (j as int) == p as int) by (nonlinear_arith)
                    requires
                        p as int == cols_g * (i as int) + (j as int),
                ;
                assert(v == data[p as int]);
                lemma_gray_level_range(v as int, lo as int, hi as int);
            }
            let range = hi - lo;
            let lvl: u8 = if range == 0 {
                128
            } else {
                (((v - lo) * 255) / range) as u8
            };
            proof {
                assert(lvl as int == gray_level_spec(data[p as int] as int, lo as int, hi as int));
            }
            let ghost ob = output.bytes_spec();
            output.put_pixel(i, j, lvl, lvl, lvl, 255);
            proof {
                assert forall|t: int|
                    0 <= t < p as int + 1 implies {
                    let l = gray_level_spec(data[t] as int, lo as int, hi as int);
                    &&& #[trigger] output.bytes_spec()[4 * t] as int == l
                    &&& output.bytes_spec()[4 * t + 1] as int == l
                    &&& output.bytes_spec()[4 * t + 2] as int == l
                    &&& output.bytes_spec()[4 * t + 3] == 255
                } by {
                    if t < p as int {
                        assert(output.bytes_spec()[4 * t] == ob[4 * t]);
                        assert(output.bytes_spec()[4 * t + 1] == ob[4 * t + 1]);
                        assert(output.bytes_spec()[4 * t + 2] == ob[4 * t + 2]);
                        assert(output.bytes_spec()[4 * t + 3] == ob[4 * t + 3]);
                    }
                }
            }
            p = p + 1;
        }
        proof {
            assert forall|t: int|
                0 <= t < image_data(*input).len() implies #[trigger] gray_pixel_ok(
                output.bytes_spec(),
                image_data(*input),
                t,
            ) by {
                assert(gray_level_spec(data[t] as int, lo as int, hi as int) == gray_level_spec(
                    image_data(*input)[t] as int,
                    seq_min_spec(image_data(*input)),
                    seq_max_spec(image_data(*input)),
                ));
                assert(output.bytes_spec()[4 * t] as int == gray_level_spec(
                    data[t] as int,
                    lo as int,
                    hi as int,
                ));
            }
        }
        Ok(())
    }
}

/// Whether gradient stop positions are strictly increasing.
pub open spec fn stops_sorted_spec(stops: Seq<GradientStop>) -> bool {
    forall|t: int| 0 <= t < stops.len() - 1 ==> (#[trigger] stops[t].pos) < stops[t + 1].pos
}

/// One color channel blended from `c0` toward `c1` by the ratio
/// `num / den`, rounding toward `c0`.
pub open spec fn channel_lerp_spec(c0: int, c1: int, num: int, den: int) -> int {
    c0 + sdiv((c1 - c0) * num, den)
}

/// The ramp color at position `x`: the first stop's color left of the
/// ramp, the last stop's right of it, and a linear blend between the two
/// nearest stops in between.
pub open spec fn gradient_color_spec(stops: Seq<GradientStop>, x: int) -> (int, int, int)
    decreases stops.len(),
{
    if stops.len() == 0 {
        (0, 0, 0)
    } else if stops.len() == 1 || x <= stops[0].pos {
        (stops[0].color.r as int, stops[0].color.g as int, stops[0].color.b as int)
    } else if x <= stops[1].pos {
        let p0 = stops[0].pos as int;
        let p1 = stops[1].pos as int;
        (
            channel_lerp_spec(stops[0].color.r as int, stops[1].color.r as int, x - p0, p1 - p0),
            channel_lerp_spec(stops[0].color.g as int, stops[1].color.g as int, x - p0, p1 - p0),
            channel_lerp_spec(stops[0].color.b as int, stops[1].color.b as int, x - p0, p1 - p0),
        )
    } else {
        gradient_color_spec(stops.drop_first(), x)
    }
}

/// The remap of sample `v` from the field range `[lo, hi]` onto the
/// gradient domain `[d0, d1]`; a field with no dynamic range maps to
/// `d0`, by policy.
pub open spec fn remap_spec(v: int, lo: int, hi: int, d0: int, d1: int) -> int {
    if hi <= lo {
        d0
    } else {
        d0 + ((v - lo) * (d1 - d0)) / (hi - lo)
    }
}

/// A blended channel lies between its endpoint channels; the extreme
/// ratios give the endpoints exactly.
pub proof fn lemma_channel_lerp_range(c0: int, c1: int, num: int, den: int)
    requires
        0 <= num <= den,
        0 < den,
    ensures
        c0 <= c1 ==> c0 <= channel_lerp_spec(c0, c1, num, den) <= c1,
        c1 <= c0 ==> c1 <= channel_lerp_spec(c0, c1, num, den) <= c0,
        num == 0 ==> channel_lerp_spec(c0, c1, num, den) == c0,
        num == den ==> channel_lerp_spec(c0, c1, num, den) == c1,
{
    let delta = c1 - c0;
    if delta >= 0 {
        assert(0 <= delta * num && delta * num <= delta * den) by (nonlinear_arith)
            requires
                0 <= num <= den && delta >= 0,
        ;
        crate::math::lemma_sdiv_bound(delta * num, den, delta);
    } else {
        assert((-delta) * (-den) <= delta * num && delta * num <= 0) by (nonlinear_arith)
            requires
                0 <= num <= den && delta < 0,
        ;
        assert(-((-delta) * den) == (-delta) * (-den)) by (nonlinear_arith);
        crate::math::lemma_sdiv_bound(delta * num, den, -delta);
    }
    if num == 0 {
        assert(delta * num == 0) by (nonlinear_arith)
            requires
                num == 0,
        ;
        assert(sdiv(0, den) == 0) by {
            lemma_div_by_multiple(0, den);
            assert(0int * den == 0) by (nonlinear_arith);
        }
    }
    if num == den {
        crate::math::lemma_sdiv_exact(delta, den);
        assert(delta * num == delta * den);
    }
}

/// Positions of a sorted stop list grow with the index.
pub proof fn lemma_sorted_mono(stops: Seq<GradientStop>, a: int, b: int)
    requires
        stops_sorted_spec(stops),
        0 <= a <= b < stops.len(),
    ensures
        stops[a].pos <= stops[b].pos,
        a < b ==> stops[a].pos < stops[b].pos,
    decreases b - a,
{
    if a < b {
        lemma_sorted_mono(stops, a, b - 1);
        assert(stops[b - 1].pos < stops[b].pos);
    }
}

/// Dropping the first stop keeps the list sorted.
proof fn lemma_sorted_drop_first(stops: Seq<GradientStop>)
    requires
        stops_sorted_spec(stops),
        stops.len() >= 1,
    ensures
        stops_sorted_spec(stops.drop_first()),
{
    assert forall|t: int|
        0 <= t < stops.drop_first().len() - 1 implies (#[trigger] stops.drop_first()[t].pos)
        < stops.drop_first()[t + 1].pos by {
        assert(stops.drop_first()[t] == stops[t + 1]);
        assert(stops.drop_first()[t + 1] == stops[t + 2]);
    }
}

/// Every channel of a ramp color is a byte value.
pub proof fn lemma_gradient_color_range(stops: Seq<GradientStop>, x: int)
    requires
        stops_sorted_spec(stops),
    ensures
        0 <= gradient_color_spec(stops, x).0 <= 255,
        0 <= gradient_color_spec(stops, x).1 <= 255,
        0 <= gradient_color_spec(stops, x).2 <= 255,
    decreases stops.len(),
{
    if stops.len() == 0 {
    } else if stops.len() == 1 || x <= stops[0].pos {
    } else if x <= stops[1].pos {
        let p0 = stops[0].pos as int;
        let p1 = stops[1].pos as int;
        assert(p0 < p1);
        lemma_channel_lerp_range(stops[0].color.r as int, stops[1].color.r as int, x - p0, p1 - p0);
        lemma_channel_lerp_range(stops[0].color.g as int, stops[1].color.g as int, x - p0, p1 - p0);
        lemma_channel_lerp_range(stops[0].color.b as int, stops[1].color.b as int, x - p0, p1 - p0);
    } else {
        lemma_sorted_drop_first(stops);
        lemma_gradient_color_range(stops.drop_first(), x);
    }
}

/// Queried exactly at its first stop the ramp returns that stop's
/// color, and exactly at its last stop the last stop's color.
pub proof fn lemma_gradient_endpoints(stops: Seq<GradientStop>)
    requires
        stops_sorted_spec(stops),
        stops.len() >= 1,
    ensures
        gradient_color_spec(stops, stops[0].pos as int) == (
            stops[0].color.r as int,
            stops[0].color.g as int,
            stops[0].color.b as int,
        ),
        gradient_color_spec(stops, stops.last().pos as int) == (
            stops.last().color.r as int,
            stops.last().color.g as int,
            stops.last().color.b as int,
        ),
    decreases stops.len(),
{
    if stops.len() == 1 {
    } else {
        let x = stops.last().pos as int;
        lemma_sorted_mono(stops, 0, stops.len() - 1);
        assert(x > stops[0].pos);
        if stops.len() == 2 {
            let p0 = stops[0].pos as int;
            let p1 = stops[1].pos as int;
            assert(x == p1);
            lemma_channel_lerp_range(
                stops[0].color.r as int,
                stops[1].color.r as int,
                x - p0,
                p1 - p0,
            );
            lemma_channel_lerp_range(
                stops[0].color.g as int,
                stops[1].color.g as int,
                x - p0,
                p1 - p0,
            );
            lemma_channel_lerp_range(
                stops[0].color.b as int,
                stops[1].color.b as int,
                x - p0,
                p1 - p0,
            );
        } else {
            lemma_sorted_mono(stops, 1, stops.len() - 1);
            assert(x > stops[1].pos);
            lemma_sorted_drop_first(stops);
            lemma_gradient_endpoints(stops.drop_first());
            assert(stops.drop_first().last() == stops.last());
        }
    }
}

/// The remap lands inside the gradient domain, and the field's extremes
/// land exactly on the domain's ends.
pub proof fn lemma_remap_range(v: int, lo: int, hi: int, d0: int, d1: int)
    requires
        lo <= v <= hi,
        d0 <= d1,
    ensures
        d0 <= remap_spec(v, lo, hi, d0, d1) <= d1,
        remap_spec(lo, lo, hi, d0, d1) == d0,
        lo < hi ==> remap_spec(hi, lo, hi, d0, d1) == d1,
{
    if lo < hi {
        let range = hi - lo;
        let dr = d1 - d0;
        assert(0 <= (v - lo) * dr) by (nonlinear_arith)
            requires
                lo <= v && 0 <= dr,
        ;
        lemma_div_pos_is_pos((v - lo) * dr, range);
        assert((v - lo) * dr <= range * dr) by (nonlinear_arith)
            requires
                v - lo <= range && 0 <= dr,
        ;
        lemma_multiply_divide_le((v - lo) * dr, range, dr);
        assert((lo - lo) * dr == 0) by (nonlinear_arith);
        assert(0int / range == 0) by {
            lemma_div_by_multiple(0, range);
            assert(0int * range == 0) by (nonlinear_arith);
        }
        assert((hi - lo) * dr == dr * range) by (nonlinear_arith)
            requires
                range == hi - lo,
        ;
        lemma_div_by_multiple(dr, range);
    }
}

/// A gradient colormap sends a field's minimum to the color of the
/// ramp's first control point, byte for byte, and (whenever the field
/// has any dynamic range) its maximum to the color of the last.
pub proof fn lemma_gradient_cmap_extremes(stops: Seq<GradientStop>, lo: int, hi: int)
    requires
        stops_sorted_spec(stops),
        stops.len() >= 1,
        lo <= hi,
    ensures
        gradient_color_spec(
            stops,
            remap_spec(lo, lo, hi, stops[0].pos as int, stops.last().pos as int),
        ) == (stops[0].color.r as int, stops[0].color.g as int, stops[0].color.b as int),
        lo < hi ==> gradient_color_spec(
            stops,
            remap_spec(hi, lo, hi, stops[0].pos as int, stops.last().pos as int),
        ) == (stops.last().color.r as int, stops.last().color.g as int, stops.last().color.b as int),
{
    lemma_sorted_mono(stops, 0, stops.len() - 1);
    lemma_remap_range(lo, lo, hi, stops[0].pos as int, stops.last().pos as int);
    if lo < hi {
        lemma_remap_range(hi, lo, hi, stops[0].pos as int, stops.last().pos as int);
    }
    lemma_gradient_endpoints(stops);
}

/// Pixel `p` of `bytes` holds the ramp color of sample `p` of `data`,
/// remapped from the field's own range onto the ramp's domain.
pub open spec fn gradient_pixel_ok(
    bytes: Seq<u8>,
    data: Seq<i64>,
    stops: Seq<GradientStop>,
    p: int,
) -> bool {
    let x = remap_spec(
        data[p] as int,
        seq_min_spec(data),
        seq_max_spec(data),
        stops[0].pos as int,
        stops.last().pos as int,
    );
    let c = gradient_color_spec(stops, x);
    &&& bytes[4 * p] as int == c.0
    &&& bytes[4 * p + 1] as int == c.1
    &&& bytes[4 * p + 2] as int == c.2
    &&& bytes[4 * p + 3] == 255
}

/// A colormap defined by an ordered list of control points: field values
/// are remapped onto the ramp's domain and colored by linear
/// interpolation between the two nearest control points.
pub struct GradientCMap {
    stops: Vec<GradientStop>,
}

impl GradientCMap {
    /// The ramp's control points, in order.
    pub closed spec fn stops_spec(&self) -> Seq<GradientStop> {
        self.stops@
    }

    /// The ramp has at least one control point, strictly increasing
    /// positions, and positions small enough for exact arithmetic.
    pub open spec fn wf(&self) -> bool {
        &&& self.stops_spec().len() >= 1
        &&& stops_sorted_spec(self.stops_spec())
        &&& forall|t: int|
            0 <= t < self.stops_spec().len() ==> -STOP_POS_LIMIT <= (
            #[trigger] self.stops_spec()[t].pos) <= STOP_POS_LIMIT
    }

    /// Build a ramp from control points. An empty list and one whose
    /// positions are not strictly increasing are both rejected, before
    /// any lookup can happen.
    pub fn new(stops: Vec<GradientStop>) -> (res: Result<GradientCMap, ConfigError>)
        requires
            forall|t: int|
                0 <= t < stops@.len() ==> -STOP_POS_LIMIT <= (#[trigger] stops@[t].pos)
                    <= STOP_POS_LIMIT,
        ensures
            match res {
                Ok(g) => g.stops_spec() == stops@ && g.wf(),
                Err(e) => (e == ConfigError::EmptyGradient && stops@.len() == 0) || (e
                    == ConfigError::UnorderedGradient && stops@.len() >= 1 && !stops_sorted_spec(
                    stops@,
                )),
            },
    {
        let n = stops.len();
        if n == 0 {
            return Err(ConfigError::EmptyGradient);
        }
        let mut t: usize = 0;
        while t + 1 < n
            invariant
                n == stops@.len(),
                t < n,
                forall|u: int| 0 <= u < t ==> (#[trigger] stops@[u].pos) < stops@[u + 1].pos,
            decreases n - t,
        {
            if stops[t].pos >= stops[t + 1].pos {
                return Err(ConfigError::UnorderedGradient);
            }
            t = t + 1;
        }
        Ok(GradientCMap { stops })
    }

    /// The ramp color at position `x`.
    fn color_at(&self, x: i64) -> (c: Rgb)
        requires
            self.wf(),
            -STOP_POS_LIMIT <= x <= STOP_POS_LIMIT,
        ensures
            c.r as int == gradient_color_spec(self.stops_spec(), x as int).0,
            c.g as int == gradient_color_spec(self.stops_spec(), x as int).1,
            c.b as int == gradient_color_spec(self.stops_spec(), x as int).2,
    {
        let n = self.stops.len();
        let first = self.stops[0];
        if x <= first.pos {
            return first.color;
        }
        proof {
            assert(self.stops_spec().skip(0) =~= self.stops_spec());
        }
        let mut t: usize = 0;
        while t + 1 < n
            invariant
                self.wf(),
                n == self.stops_spec().len(),
                t < n,
                -STOP_POS_LIMIT <= x <= STOP_POS_LIMIT,
                x as int > self.stops_spec()[t as int].pos,
                gradient_color_spec(self.stops_spec(), x as int) == gradient_color_spec(
                    self.stops_spec().skip(t as int),
                    x as int,
                ),
            decreases n - t,
        {
            let s0 = self.stops[t];
            let s1 = self.stops[t + 1];
            proof {
                assert(self.stops_spec().skip(t as int)[0] == self.stops_spec()[t as int]);
                assert(self.stops_spec().skip(t as int)[1] == self.stops_spec()[t as int + 1]);
                assert(self.stops_spec().skip(t as int).len() == n - t);
            }
            if x <= s1.pos {
                let p0 = s0.pos;
                let p1 = s1.pos;
                proof {
                    assert(p0 < p1);
                    lemma_channel_lerp_range(
                        s0.color.r as int,
                        s1.color.r as int,
                        x as int - p0 as int,
                        p1 as int - p0 as int,
                    );
                    lemma_channel_lerp_range(
                        s0.color.g as int,
                        s1.color.g as int,
                        x as int - p0 as int,
                        p1 as int - p0 as int,
                    );
                    lemma_channel_lerp_range(
                        s0.color.b as int,
                        s1.color.b as int,
                        x as int - p0 as int,
                        p1 as int - p0 as int,
                    );
                }
                let num = x - p0;
                let den = p1 - p0;
                proof {
                    assert(forall|ch: int|
                        -255 <= ch <= 255 ==> -(255 * (2 * STOP_POS_LIMIT as int)) <= #[trigger] (
                        ch * (num as int)) <= 255 * (2 * STOP_POS_LIMIT as int)) by (nonlinear_arith)
                        requires
                            0 <= num as int <= 2 * STOP_POS_LIMIT as int,
                    ;
                    assert(-255 <= s1.color.r as int - s0.color.r as int <= 255);
                    assert(-255 <= s1.color.g as int - s0.color.g as int <= 255);
                    assert(-255 <= s1.color.b as int - s0.color.b as int <= 255);
                }
                let r = (s0.color.r as i64 + crate::math::sdiv64(
                    (s1.color.r as i64 - s0.color.r as i64) * num,
                    den,
                )) as u8;
                let g = (s0.color.g as i64 + crate::math::sdiv64(
                    (s1.color.g as i64 - s0.color.g as i64) * num,
                    den,
                )) as u8;
                let b = (s0.color.b as i64 + crate::math::sdiv64(
                    (s1.color.b as i64 - s0.color.b as i64) * num,
                    den,
                )) as u8;
                return Rgb { r, g, b };
            }
            proof {
                assert(self.stops_spec().skip(t as int).drop_first() =~= self.stops_spec().skip(
                    t as int + 1,
                ));
            }
            t = t + 1;
        }
        proof {
            assert(self.stops_spec().skip(t as int).len() == 1);
            assert(self.stops_spec().skip(t as int)[0] == self.stops_spec()[t as int]);
        }
        self.stops[t].color
    }

    /// Project `input` onto `output` through the ramp. The output buffer
    /// must have the field's dimensions; otherwise the call fails before
    /// touching it. The field's own range is remapped onto the ramp's
    /// domain (a flat field maps everywhere to the domain's start), and
    /// each remapped value is colored by the ramp.
    #[verifier::rlimit(50)]
    pub fn cmap(&self, input: &ScalarImage, output: &mut RgbaImage) -> (res: Result<
        (),
        ConfigError,
    >)
        requires
            self.wf(),
            image_wf(*input),
            old(output).wf(),
            forall|k: int|
                0 <= k < image_data(*input).len() ==> -CMAP_SAMPLE_LIMIT <= #[trigger] image_data(
                    *input,
                )[k] <= CMAP_SAMPLE_LIMIT,
        ensures
            final(output).wf(),
            final(output).dim_spec() == old(output).dim_spec(),
            match res {
                Ok(()) => image_dim(*input) == old(output).dim_spec() && forall|p: int|
                    0 <= p < image_data(*input).len() ==> #[trigger] gradient_pixel_ok(
                        final(output).bytes_spec(),
                        image_data(*input),
                        self.stops_spec(),
                        p,
                    ),
                Err(e) => e == ConfigError::DimensionMismatch && image_dim(*input) != old(
                    output,
                ).dim_spec() && final(output).bytes_spec() == old(output).bytes_spec(),
            },
    {
        let rows = input.nrows();
        let cols = input.ncols();
        if rows != output.height() || cols != output.width() {
            return Err(ConfigError::DimensionMismatch);
        }
        let lo_opt = input.min_sample();
        let hi_opt = input.max_sample();
        let (lo, hi) = match (lo_opt, hi_opt) {
            (Some(lo), Some(hi)) => (lo, hi),
            _ => {
                return Ok(());
            },
        };
        proof {
            lemma_seq_min_max_props(image_data(*input));
            assert(lo as int == seq_min_spec(image_data(*input)));
            assert(hi as int == seq_max_spec(image_data(*input)));
            assert(image_data(*input).contains(lo));
            let kw = choose|k: int|
                0 <= k < image_data(*input).len() && image_data(*input)[k] == lo;
            assert(-CMAP_SAMPLE_LIMIT <= image_data(*input)[kw] <= CMAP_SAMPLE_LIMIT);
            assert(image_data(*input).contains(hi));
            let kx = choose|k: int|
                0 <= k < image_data(*input).len() && image_data(*input)[k] == hi;
            assert(-CMAP_SAMPLE_LIMIT <= image_data(*input)[kx] <= CMAP_SAMPLE_LIMIT);
            assert(lo <= image_data(*input)[kw] <= hi);
            lemma_sorted_mono(self.stops_spec(), 0, self.stops_spec().len() - 1);
        }
        let d0 = self.stops[0].pos;
        let dn = self.stops[self.stops.len() - 1].pos;
        let ghost data = image_data(*input);
        let ghost cols_g = image_dim(*input).1 as int;
        let npix: usize = rows * cols;
        proof {
            assert(output.bytes_spec().len() == 4 * (npix as int)) by (nonlinear_arith)
                requires
                    output.bytes_spec().len() == 4 * (output.dim_spec().0 as int) * (
                    output.dim_spec().1 as int) && npix as int == (rows as int) * (cols as int)
                        && rows as int == output.dim_spec().0 as int && cols as int
                        == output.dim_spec().1 as int,
            ;
        }
        let mut p: usize = 0;
        while p < npix
            invariant
                self.wf(),
                image_wf(*input),
                output.wf(),
                output.bytes_spec().len() == 4 * (npix as int),
                output.dim_spec() == old(output).dim_spec(),
                output.dim_spec() == image_dim(*input),
                data == image_data(*input),
                cols_g == image_dim(*input).1 as int,
                rows as int == image_dim(*input).0 as int,
                cols as int == cols_g,
                npix as int == data.len() as int,
                p <= npix,
                lo as int == seq_min_spec(data),
                hi as int == seq_max_spec(data),
                -CMAP_SAMPLE_LIMIT <= lo <= hi <= CMAP_SAMPLE_LIMIT,
                d0 as int == self.stops_spec()[0].pos as int,
                dn as int == self.stops_spec().last().pos as int,
                d0 <= dn,
                forall|k: int| 0 <= k < data.len() ==> lo <= #[trigger] data[k] <= hi,
                forall|k: int|
                    0 <= k < data.len() ==> -CMAP_SAMPLE_LIMIT <= #[trigger] data[k]
                        <= CMAP_SAMPLE_LIMIT,
                forall|t: int|
                    0 <= t < p as int ==> #[trigger] gradient_pixel_ok(
                        output.bytes_spec(),
                        data,
                        self.stops_spec(),
                        t,
                    ),
            decreases npix - p,
        {
            proof {
                assert(p < data.len());
                assert((p as int) < cols_g * (rows as int)) by (nonlinear_arith)
                    requires
                        (p as int) < npix as int && npix as int == (rows as int) * cols_g,
                ;
                lemma_multiply_divide_lt(p as int, cols_g, rows as int);
                lemma_div_pos_is_pos(p as int, cols_g);
                lemma_mod_bound(p as int, cols_g);
            }
            let i = p / cols;
            let j = p % cols;
            let v = input.get(i, j);
            proof {
                vstd::arithmetic::div_mod::lemma_fundamental_div_mod(p as int, cols_g);
                assert((i as int) * cols_g + (j as int) == p as int) by (nonlinear_arith)
                    requires
                        p as int == cols_g * (i as int) + (j as int),
                ;
                assert(v == data[p as int]);
                lemma_remap_range(v as int, lo as int, hi as int, d0 as int, dn as int);
                assert(0 <= (v - lo) * (dn - d0) <= ((2 * CMAP_SAMPLE_LIMIT) as int) * ((2
                    * STOP_POS_LIMIT) as int)) by (nonlinear_arith)
                    requires
                        0 <= v as int - lo as int <= 2 * CMAP_SAMPLE_LIMIT && 0 <= dn as int
                            - d0 as int <= 2 * STOP_POS_LIMIT,
                ;
            }
            let range = hi - lo;
            let x: i64 = if range == 0 {
                d0
            } else {
                d0 + ((v - lo) * (dn - d0)) / range
            };
            proof {
                assert(x as int == remap_spec(v as int, lo as int, hi as int, d0 as int, dn as int));
                lemma_gradient_color_range(self.stops_spec(), x as int);
            }
            let c = self.color_at(x);
            let ghost ob = output.bytes_spec();
            output.put_pixel(i, j, c.r, c.g, c.b, 255);
            proof {
                assert(gradient_pixel_ok(output.bytes_spec(), data, self.stops_spec(), p as int));
                assert forall|t: int|
                    0 <= t < p as int + 1 implies #[trigger] gradient_pixel_ok(
                    output.bytes_spec(),
                    data,
                    self.stops_spec(),
                    t,
                ) by {
                    if t < p as int {
                        assert(gradient_pixel_ok(ob, data, self.stops_spec(), t));
                        assert(output.bytes_spec()[4 * t] == ob[4 * t]);
                        assert(output.bytes_spec()[4 * t + 1] == ob[4 * t + 1]);
                        assert(output.bytes_spec()[4 * t + 2] == ob[4 * t + 2]);
                        assert(output.bytes_spec()[4 * t + 3] == ob[4 * t + 3]);
                    }
                }
            }
            p = p + 1;
        }
        Ok(())
    }
}

} // verus!
