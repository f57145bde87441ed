//! The map reprojection engine.
//!
//! Each output pixel is computed independently: its position is mapped to
//! the target's planar coordinate, inverted to a geographic point,
//! projected forward by the source projection, converted to a fractional
//! source pixel position, and sampled bilinearly.  An undefined sample
//! (a position outside the source raster) degrades to a transparent
//! pixel; it never aborts the conversion.

use vstd::prelude::*;
use vstd::arithmetic::div_mod::{
    lemma_add_mod_noop, lemma_div_by_multiple, lemma_div_nonincreasing,
    lemma_fundamental_div_mod_converse, lemma_mod_bound, lemma_mod_multiples_vanish,
    lemma_mod_twice, lemma_small_mod,
};
use crate::arith::{lemma_div_at_most, lemma_div_below};
use vstd::arithmetic::mul::{lemma_mul_inequality, lemma_mul_nonnegative,
    lemma_mul_strict_inequality, lemma_mul_upper_bound};
use crate::equirect::lemma_cos_scale_zero;
use crate::geo::{wrap_lon, FULL_TURN, LAT_LIMIT, LAT_SPAN, MICRO};
use crate::projection::{lemma_projection_shape, ProjectionData};
use crate::raster::{lemma_blend_at_grid, sample_spec, Pixel, Raster};

verus! {

/// The planar x coordinate at which output column `px` samples the
/// target: the columns of a `width_of`-pixel raster span the planar
/// extent linearly, measured from the left edge at `-half_extent_of`.
pub open spec fn target_planar_x(tp: ProjectionData, px: int) -> int {
    px * tp.extent_of() / tp.width_of() - tp.half_extent_of()
}

/// The planar y coordinate at which output row `py` samples the target:
/// row 0 sits at the +90 degree edge, and rows descend linearly across
/// the latitude span.
pub open spec fn target_planar_y(tp: ProjectionData, py: int) -> int {
    LAT_LIMIT - py * (LAT_SPAN as int) / tp.height_of()
}

/// The color of output pixel (px, py) when resampling `src`, addressed
/// by projection `sp`, into projection `tp`: the output position is
/// mapped to the target's planar coordinate, inverted to a geographic
/// point, projected forward by the source, scaled to a fractional
/// source pixel position (fractions in `MICRO` units), and sampled
/// bilinearly.
pub open spec fn resample_spec(
    src: Raster,
    sp: ProjectionData,
    tp: ProjectionData,
    px: int,
    py: int,
) -> Pixel {
    let x = target_planar_x(tp, px);
    let y = target_planar_y(tp, py);
    let geo = tp.invert_spec(x, y);
    let s = sp.project_spec(geo);
    let ex = sp.extent_of();
    let fxn = (s.0 + sp.half_extent_of()) * (src.width as int);
    let fyn = ((LAT_LIMIT as int) - s.1) * (src.height as int);
    let x0 = fxn / ex;
    let fx = fxn % ex * (MICRO as int) / ex;
    let y0 = fyn / (LAT_SPAN as int);
    let fy = fyn % (LAT_SPAN as int) * (MICRO as int) / (LAT_SPAN as int);
    sample_spec(src, x0, fx, y0, fy)
}

/// A row-major index stays inside its grid: if `j < rows` and `i < w`
/// then `j * w + i < rows * w`.
proof fn lemma_row_index_bound(j: int, i: int, rows: int, w: int)
    requires
        0 <= j < rows,
        0 <= i < w,
    ensures
        0 <= j * w + i < rows * w,
{
    assert(0 <= j * w + i < rows * w) by (nonlinear_arith)
        requires
            0 <= j < rows,
            0 <= i < w,
    ;
}

/// Computes the color of output pixel (px, py): the pure per-pixel step
/// of the resampling pipeline.
pub fn resample_pixel(
    source: &Raster,
    sp: &ProjectionData,
    tp: &ProjectionData,
    px: u32,
    py: u32,
) -> (p: Pixel)
    requires
        source.wf(),
        sp.wf(),
        tp.wf(),
        (px as int) < tp.width_of(),
        (py as int) < tp.height_of(),
    ensures
        p == resample_spec(*source, *sp, *tp, px as int, py as int),
{
    proof {
        lemma_projection_shape(*tp);
        lemma_projection_shape(*sp);
    }
    let dims = tp.dimensions();
    let et: i64 = tp.extent();
    let ht: i64 = tp.half_extent();
    proof {
        lemma_mul_inequality(px as int, tp.width_of() - 1, et as int);
        assert((tp.width_of() - 1) * (et as int) <= ((et as int) - 1) * tp.width_of()) by (
        nonlinear_arith)
            requires
                tp.width_of() <= et as int,
                1 <= tp.width_of(),
        ;
        lemma_div_at_most((px as int) * (et as int), (et as int) - 1, tp.width_of());
        lemma_mul_upper_bound(px as int, 359, et as int, 360_000_000);
    }
    let xq: u64 = (px as u64) * (et as u64) / (dims.width as u64);
    let x: i64 = (xq as i64) - ht;
    proof {
        lemma_mul_upper_bound(py as int, 179, LAT_SPAN as int, LAT_SPAN as int);
        lemma_div_nonincreasing((py as int) * (LAT_SPAN as int), dims.height as int);
    }
    let yq: u64 = (py as u64) * (LAT_SPAN as u64) / (dims.height as u64);
    let y: i64 = LAT_LIMIT - (yq as i64);
    let geo = tp.invert((x, y));
    let s = sp.project(&geo);
    let es: i64 = sp.extent();
    let hs: i64 = sp.half_extent();
    proof {
        lemma_mul_upper_bound((s.0 + hs) as int, (es as int) - 1, source.width as int,
            0xFFFF_FFFF);
    }
    let fxn: u64 = ((s.0 + hs) as u64) * (source.width as u64);
    let x0: u64 = fxn / (es as u64);
    let remx: u64 = fxn % (es as u64);
    proof {
        lemma_div_nonincreasing(fxn as int, es as int);
        lemma_mod_bound(fxn as int, es as int);
        lemma_mul_strict_inequality(remx as int, es as int, MICRO as int);
        lemma_div_below((remx as int) * (MICRO as int), (MICRO as int) - 1, es as int);
    }
    let fx: u64 = remx * (MICRO as u64) / (es as u64);
    proof {
        lemma_mul_upper_bound((LAT_LIMIT - s.1) as int, LAT_SPAN as int,
            source.height as int, 0xFFFF_FFFF);
    }
    let fyn: u64 = ((LAT_LIMIT - s.1) as u64) * (source.height as u64);
    let y0: u64 = fyn / (LAT_SPAN as u64);
    let remy: u64 = fyn % (LAT_SPAN as u64);
    proof {
        lemma_div_nonincreasing(fyn as int, LAT_SPAN as int);
        lemma_mod_bound(fyn as int, LAT_SPAN as int);
        lemma_mul_strict_inequality(remy as int, LAT_SPAN as int, MICRO as int);
        lemma_div_below((remy as int) * (MICRO as int), (MICRO as int) - 1, LAT_SPAN as int);
    }
    let fy: u64 = remy * (MICRO as u64) / (LAT_SPAN as u64);
    source.sample_bilinear(x0 as i64, fx as i64, y0 as i64, fy as i64)
}

/// One conversion request: a source raster, the projection addressing
/// it, and the target projection to resample into.
pub struct ProjectedMap {
    /// The source raster.
    pub source: Raster,
    /// The projection the source raster is addressed under.
    pub source_projection: ProjectionData,
    /// The projection the output raster will be addressed under.
    pub target_projection: ProjectionData,
}

impl ProjectedMap {
    /// The raster and both projections are well formed.
    pub open spec fn wf(self) -> bool {
        &&& self.source.wf()
        &&& self.source_projection.wf()
        &&& self.target_projection.wf()
    }

    /// Binds a source raster to the projection addressing it.  Until
    /// `convert_to` rebinds it, the target is the source projection.
    pub fn new(source: Raster, projection: ProjectionData) -> (r: ProjectedMap)
        ensures
            r.source == source,
            r.source_projection == projection,
            r.target_projection == projection,
    {
        ProjectedMap { source, source_projection: projection, target_projection: projection }
    }

    /// Binds the conversion to a target projection; resampling is
    /// deferred until `to_image`.
    pub fn convert_to(self, target: ProjectionData) -> (r: ProjectedMap)
        ensures
            r.source == self.source,
            r.source_projection == self.source_projection,
            r.target_projection == target,
    {
        ProjectedMap { target_projection: target, ..self }
    }

    /// Synthesizes the output raster, sized by the target's dimensions,
    /// each pixel computed independently by the resampling pipeline.
    /// The conversion is total: it always returns a full raster of the
    /// target's dimensions, however many samples were undefined.
    pub fn to_image(&self) -> (r: Raster)
        requires
            self.wf(),
        ensures
            r.wf(),
            r.width as int == self.target_projection.width_of(),
            r.height as int == self.target_projection.height_of(),
            forall|i: int, j: int|
                0 <= i < r.width as int && 0 <= j < r.height as int ==> r.pixel_spec(i, j)
                    == resample_spec(self.source, self.source_projection,
                    self.target_projection, i, j),
    {
        proof {
            lemma_projection_shape(self.target_projection);
        }
        let dims = self.target_projection.dimensions();
        let w: u32 = dims.width;
        let h: u32 = dims.height;
        let mut pixels: Vec<Pixel> = Vec::new();
        let mut py: u32 = 0;
        while py < h
            invariant
                self.wf(),
                w as int == self.target_projection.width_of(),
                h as int == self.target_projection.height_of(),
                1 <= w <= 360,
                py <= h,
                pixels@.len() == (py as int) * (w as int),
                forall|i: int, j: int|
                    0 <= i < w as int && 0 <= j < py as int ==> pixels@[j * (w as int) + i]
                        == resample_spec(self.source, self.source_projection,
                        self.target_projection, i, j),
            decreases h - py,
        {
            let mut px: u32 = 0;
            while px < w
                invariant
                    self.wf(),
                    w as int == self.target_projection.width_of(),
                    h as int == self.target_projection.height_of(),
                    1 <= w <= 360,
                    py < h,
                    px <= w,
                    pixels@.len() == (py as int) * (w as int) + px as int,
                    forall|i: int, j: int|
                        0 <= i < w as int && 0 <= j < py as int ==> pixels@[j * (w as int)
                            + i] == resample_spec(self.source, self.source_projection,
                            self.target_projection, i, j),
                    forall|i: int|
                        0 <= i < px as int ==> pixels@[(py as int) * (w as int) + i]
                            == resample_spec(self.source, self.source_projection,
                            self.target_projection, i, py as int),
                decreases w - px,
            {
                let pix = resample_pixel(&self.source, &self.source_projection,
                    &self.target_projection, px, py);
                pixels.push(pix);
                proof {
                    assert forall|i: int, j: int| 0 <= i < w as int && 0 <= j < py as int
                        implies pixels@[j * (w as int) + i] == resample_spec(self.source,
                        self.source_projection, self.target_projection, i, j) by {
                        lemma_row_index_bound(j, i, py as int, w as int);
                    }
                }
                px = px + 1;
            }
            proof {
                assert(((py as int) + 1) * (w as int) == (py as int) * (w as int) + (
                w as int)) by (nonlinear_arith);
            }
            py = py + 1;
        }
        proof {
            assert((h as int) * (w as int) == (w as int) * (h as int)) by (nonlinear_arith);
        }
        Raster { width: w, height: h, pixels }
    }
}

/// Identity conversion: resampling a raster from an equirectangular
/// projection at true-scale latitude 0 into that same projection
/// reproduces the source raster exactly, pixel for pixel, when the
/// raster is sized by the projection's own dimensions: every chained
/// coordinate lands on an integer-aligned source pixel, and a bilinear
/// sample at a whole pixel is that pixel.  (Away from true-scale
/// latitude 0 an intermediate division may round a coordinate by one
/// micro-unit, which blurs within the four neighboring pixels at most:
/// see `lemma_blend_bounds`.)
#[verifier::rlimit(50)]
pub proof fn lemma_identity_conversion(src: Raster, p: ProjectionData, px: int, py: int)
    requires
        src.wf(),
        p.wf(),
        p->Equirectangular_0.true_scale_lat == 0,
        src.width as int == p.width_of(),
        src.height as int == p.height_of(),
        0 <= px < p.width_of(),
        0 <= py < p.height_of(),
    ensures
        resample_spec(src, p, p, px, py) == src.pixel_spec(px, py),
{
    let e = p->Equirectangular_0;
    let cl = e.central_long as int;
    let m = MICRO as int;
    let ft = FULL_TURN as int;
    lemma_cos_scale_zero();
    lemma_projection_shape(p);
    assert(p.extent_of() == 360 * m);
    assert(p.half_extent_of() == 180 * m);
    assert(p.width_of() == 360) by {
        lemma_fundamental_div_mod_converse(360 * m + m - 1, m, 360, m - 1);
    }
    lemma_mul_nonnegative(px, m);
    lemma_mul_inequality(px, 359, m);
    lemma_mul_nonnegative(py, m);
    lemma_mul_inequality(py, 179, m);
    // the planar coordinate sampled for the output pixel
    assert(px * (360 * m) == (px * m) * 360 + 0) by (nonlinear_arith);
    lemma_fundamental_div_mod_converse(px * (360 * m), 360, px * m, 0);
    let x = target_planar_x(p, px);
    assert(x == px * m - 180 * m);
    assert(py * (LAT_SPAN as int) == (py * m) * 180 + 0) by (nonlinear_arith)
        requires
            (LAT_SPAN as int) == 180 * m,
    ;
    lemma_fundamental_div_mod_converse(py * (LAT_SPAN as int), 180, py * m, 0);
    let y = target_planar_y(p, py);
    assert(y == LAT_LIMIT - py * m);
    // inverting restores the latitude and the wrapped longitude
    let geo = p.invert_spec(x, y);
    assert(geo.latitude == y);
    lemma_div_by_multiple(px * m, m);
    assert(geo.longitude == wrap_lon(px * m - 180_000_000 + cl));
    // projecting forward restores the planar coordinate exactly
    let s = p.project_spec(geo);
    let a = px * m + cl + 360_000_000;
    let b = 360_000_000 - cl;
    assert(geo.longitude == a % ft - 180_000_000);
    lemma_mod_twice(a, ft);
    lemma_add_mod_noop(a % ft, b, ft);
    lemma_add_mod_noop(a, b, ft);
    assert(a + b == ft * 2 + px * m);
    lemma_mod_multiples_vanish(2, px * m, ft);
    lemma_small_mod((px * m) as nat, ft as nat);
    assert(s.0 == x);
    assert(s.1 == y);
    // the fractional source position is integral
    let fxn = (s.0 + p.half_extent_of()) * (src.width as int);
    assert(fxn == (px * m) * 360);
    assert((px * m) * 360 == px * (360 * m) + 0) by (nonlinear_arith);
    lemma_fundamental_div_mod_converse((px * m) * 360, 360 * m, px, 0);
    let fyn = ((LAT_LIMIT as int) - s.1) * (src.height as int);
    assert(fyn == (py * m) * 180);
    assert((py * m) * 180 == py * (LAT_SPAN as int) + 0) by (nonlinear_arith)
        requires
            (LAT_SPAN as int) == 180 * m,
    ;
    lemma_fundamental_div_mod_converse((py * m) * 180, LAT_SPAN as int, py, 0);
    let zx = fxn % (360 * m);
    assert(zx * m == 0) by (nonlinear_arith)
        requires
            zx == 0,
    ;
    vstd::arithmetic::div_mod::lemma_div_of0(360 * m);
    let zy = fyn % (LAT_SPAN as int);
    assert(zy * m == 0) by (nonlinear_arith)
        requires
            zy == 0,
    ;
    vstd::arithmetic::div_mod::lemma_div_of0(LAT_SPAN as int);
    // a bilinear sample at a whole pixel is that pixel
    let sw = src.width as int;
    let sh = src.height as int;
    let x1 = if px + 1 < sw {
        px + 1
    } else {
        0
    };
    let y1 = if py + 1 < sh {
        py + 1
    } else {
        sh - 1
    };
    let p00 = src.pixel_spec(px, py);
    let p10 = src.pixel_spec(x1, py);
    let p01 = src.pixel_spec(px, y1);
    let p11 = src.pixel_spec(x1, y1);
    lemma_blend_at_grid(p00.r as int, p10.r as int, p01.r as int, p11.r as int);
    lemma_blend_at_grid(p00.g as int, p10.g as int, p01.g as int, p11.g as int);
    lemma_blend_at_grid(p00.b as int, p10.b as int, p01.b as int, p11.b as int);
    lemma_blend_at_grid(p00.a as int, p10.a as int, p01.a as int, p11.a as int);
    assert(resample_spec(src, p, p, px, py) == src.pixel_spec(px, py));
}

} // verus!
