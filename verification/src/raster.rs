//! In-memory RGBA rasters and bilinear sampling.
//!
//! A sample position is a pixel index plus a fractional offset in `MICRO`
//! units (millionths of a pixel).  Sampling blends the four nearest
//! pixels; a position outside the raster yields a fully transparent
//! pixel, and a fractional x within one pixel of the width bound wraps
//! around to column 0, so the antimeridian seam closes.

use vstd::prelude::*;
use crate::arith::{lemma_div_at_least, lemma_div_at_most};
use crate::geo::MICRO;

verus! {

/// The denominator of a bilinear weight: both fractional offsets count in
/// `MICRO` units, so a product of two weights counts in `MICRO * MICRO`.
pub const WEIGHT_DENOM: i64 = 1_000_000_000_000;

/// One RGBA pixel, eight bits per channel.
#[derive(Clone, Copy, PartialEq, Eq, Structural, Debug)]
pub struct Pixel {
    /// Red channel.
    pub r: u8,
    /// Green channel.
    pub g: u8,
    /// Blue channel.
    pub b: u8,
    /// Alpha channel; 0 is fully transparent.
    pub a: u8,
}

impl Pixel {
    /// The fully transparent pixel that stands for an undefined sample.
    pub open spec fn transparent_spec() -> Pixel {
        Pixel { r: 0, g: 0, b: 0, a: 0 }
    }

    /// Builds the fully transparent pixel.
    pub fn transparent() -> (p: Pixel)
        ensures
            p == Pixel::transparent_spec(),
    {
        Pixel { r: 0, g: 0, b: 0, a: 0 }
    }
}

/// The weighted blend of four channel values, with weights taken from the
/// fractional offsets `fx`, `fy` in `MICRO` units: the standard bilinear
/// formula, rounded toward zero.
pub open spec fn blend_spec(c00: int, c10: int, c01: int, c11: int, fx: int, fy: int) -> int {
    let m = MICRO as int;
    ((m - fx) * (m - fy) * c00 + fx * (m - fy) * c10 + (m - fx) * fy * c01 + fx * fy * c11)
        / (WEIGHT_DENOM as int)
}

/// The bilinear blend is a convex combination: it never leaves the
/// interval spanned by the four blended values.
pub proof fn lemma_blend_bounds(
    c00: int,
    c10: int,
    c01: int,
    c11: int,
    fx: int,
    fy: int,
    lo: int,
    hi: int,
)
    requires
        0 <= fx < MICRO,
        0 <= fy < MICRO,
        lo <= c00 <= hi,
        lo <= c10 <= hi,
        lo <= c01 <= hi,
        lo <= c11 <= hi,
    ensures
        lo <= blend_spec(c00, c10, c01, c11, fx, fy) <= hi,
{
    let m = MICRO as int;
    let w00 = (m - fx) * (m - fy);
    let w10 = fx * (m - fy);
    let w01 = (m - fx) * fy;
    let w11 = fx * fy;
    let num = (m - fx) * (m - fy) * c00 + fx * (m - fy) * c10 + (m - fx) * fy * c01 + fx * fy
        * c11;
    assert(0 <= w00 && 0 <= w10 && 0 <= w01 && 0 <= w11 && w00 + w10 + w01 + w11
        == WEIGHT_DENOM) by (nonlinear_arith)
        requires
            0 <= fx < m,
            0 <= fy < m,
            m == MICRO as int,
            w00 == (m - fx) * (m - fy),
            w10 == fx * (m - fy),
            w01 == (m - fx) * fy,
            w11 == fx * fy,
    ;
    assert(w00 * lo <= w00 * c00 <= w00 * hi) by (nonlinear_arith)
        requires
            0 <= w00,
            lo <= c00 <= hi,
    ;
    assert(w10 * lo <= w10 * c10 <= w10 * hi) by (nonlinear_arith)
        requires
            0 <= w10,
            lo <= c10 <= hi,
    ;
    assert(w01 * lo <= w01 * c01 <= w01 * hi) by (nonlinear_arith)
        requires
            0 <= w01,
            lo <= c01 <= hi,
    ;
    assert(w11 * lo <= w11 * c11 <= w11 * hi) by (nonlinear_arith)
        requires
            0 <= w11,
            lo <= c11 <= hi,
    ;
    assert((w00 + w10 + w01 + w11) * lo == w00 * lo + w10 * lo + w01 * lo + w11 * lo) by (
    nonlinear_arith);
    assert((w00 + w10 + w01 + w11) * hi == w00 * hi + w10 * hi + w01 * hi + w11 * hi) by (
    nonlinear_arith);
    assert(lo * (WEIGHT_DENOM as int) == (WEIGHT_DENOM as int) * lo) by (nonlinear_arith);
    assert(hi * (WEIGHT_DENOM as int) == (WEIGHT_DENOM as int) * hi) by (nonlinear_arith);
    lemma_div_at_least(num, lo, WEIGHT_DENOM as int);
    lemma_div_at_most(num, hi, WEIGHT_DENOM as int);
}

/// At a whole-pixel position (both fractional offsets zero) the blend
/// returns the first value exactly: resampling on an integer-aligned grid
/// reproduces pixels, it never blurs them.
pub proof fn lemma_blend_at_grid(c00: int, c10: int, c01: int, c11: int)
    requires
        0 <= c00 <= 255,
    ensures
        blend_spec(c00, c10, c01, c11, 0, 0) == c00,
{
    let m = MICRO as int;
    let num = (m - 0) * (m - 0) * c00 + 0 * (m - 0) * c10 + (m - 0) * 0 * c01 + 0 * 0 * c11;
    assert(num == (WEIGHT_DENOM as int) * c00) by (nonlinear_arith)
        requires
            m == MICRO as int,
            num == (m - 0) * (m - 0) * c00 + 0 * (m - 0) * c10 + (m - 0) * 0 * c01 + 0 * 0
                * c11,
    ;
    vstd::arithmetic::div_mod::lemma_div_multiples_vanish(c00, WEIGHT_DENOM as int);
}

/// Blends one channel of four pixels bilinearly.
fn blend_channel(c00: u8, c10: u8, c01: u8, c11: u8, fx: i64, fy: i64) -> (r: u8)
    requires
        0 <= fx < MICRO,
        0 <= fy < MICRO,
    ensures
        r as int == blend_spec(c00 as int, c10 as int, c01 as int, c11 as int, fx as int,
            fy as int),
{
    let wx1: u64 = fx as u64;
    let wx0: u64 = (MICRO as u64) - wx1;
    let wy1: u64 = fy as u64;
    let wy0: u64 = (MICRO as u64) - wy1;
    assert(wx0 * wy0 <= 1_000_000_000_000 && wx1 * wy0 <= 1_000_000_000_000 && wx0 * wy1
        <= 1_000_000_000_000 && wx1 * wy1 <= 1_000_000_000_000) by (nonlinear_arith)
        requires
            wx0 <= 1_000_000,
            wx1 <= 1_000_000,
            wy0 <= 1_000_000,
            wy1 <= 1_000_000,
    ;
    let w00: u64 = wx0 * wy0;
    let w10: u64 = wx1 * wy0;
    let w01: u64 = wx0 * wy1;
    let w11: u64 = wx1 * wy1;
    assert(w00 * (c00 as u64) <= w00 * 255 && w10 * (c10 as u64) <= w10 * 255 && w01 * (c01
        as u64) <= w01 * 255 && w11 * (c11 as u64) <= w11 * 255) by (nonlinear_arith)
        requires
            c00 <= 255,
            c10 <= 255,
            c01 <= 255,
            c11 <= 255,
    ;
    let sum: u64 = w00 * (c00 as u64) + w10 * (c10 as u64) + w01 * (c01 as u64) + w11 * (c11
        as u64);
    proof {
        assert(w00 + w10 + w01 + w11 == WEIGHT_DENOM) by (nonlinear_arith)
            requires
                w00 == wx0 * wy0,
                w10 == wx1 * wy0,
                w01 == wx0 * wy1,
                w11 == wx1 * wy1,
                wx0 == MICRO - wx1,
                wy0 == MICRO - wy1,
                wx1 <= MICRO,
                wy1 <= MICRO,
        ;
        assert(sum <= 255 * (WEIGHT_DENOM as int)) by (nonlinear_arith)
            requires
                sum == w00 * (c00 as int) + w10 * (c10 as int) + w01 * (c01 as int) + w11 * (
                c11 as int),
                w00 + w10 + w01 + w11 == WEIGHT_DENOM as int,
                0 <= w00,
                0 <= w10,
                0 <= w01,
                0 <= w11,
                c00 <= 255,
                c10 <= 255,
                c01 <= 255,
                c11 <= 255,
        ;
        lemma_div_at_most(sum as int, 255, WEIGHT_DENOM as int);
    }
    let q: u64 = sum / (WEIGHT_DENOM as u64);
    q as u8
}

/// An in-memory raster: a pixel grid in row-major order.
#[derive(Clone, PartialEq, Eq, Debug)]
pub struct Raster {
    /// Width in pixels.
    pub width: u32,
    /// Height in pixels.
    pub height: u32,
    /// The pixels, row by row from the top: `pixels[y * width + x]`.
    pub pixels: Vec<Pixel>,
}

impl Raster {
    /// The pixel buffer holds exactly one pixel per grid cell.
    pub open spec fn wf(self) -> bool {
        self.pixels@.len() == (self.width as int) * (self.height as int)
    }

    /// The pixel at column `x` of row `y`.
    pub open spec fn pixel_spec(self, x: int, y: int) -> Pixel {
        self.pixels@[y * (self.width as int) + x]
    }

    /// Builds a raster from a row-major pixel buffer; a buffer whose
    /// length does not match the grid is rejected.
    pub fn new(width: u32, height: u32, pixels: Vec<Pixel>) -> (r: Option<Raster>)
        ensures
            r is Some <==> pixels@.len() == (width as int) * (height as int),
            r is Some ==> r->Some_0 == (Raster { width, height, pixels })
                && r->Some_0.wf(),
    {
        proof {
            assert((width as int) * (height as int) < 18_446_744_073_709_551_616) by (
            nonlinear_arith)
                requires
                    width <= 0xFFFF_FFFFu32,
                    height <= 0xFFFF_FFFFu32,
            ;
        }
        if (pixels.len() as u64) == (width as u64) * (height as u64) {
            Some(Raster { width, height, pixels })
        } else {
            None
        }
    }

    /// The pixel at column `x` of row `y`.
    pub fn pixel(&self, x: u32, y: u32) -> (p: Pixel)
        requires
            self.wf(),
            x < self.width,
            y < self.height,
        ensures
            p == self.pixel_spec(x as int, y as int),
    {
        // materializes the buffer length: the row-major index fits in it
        let n: usize = self.pixels.len();
        proof {
            assert((y as int) * (self.width as int) + (x as int) < (self.width as int) * (
            self.height as int)) by (nonlinear_arith)
                requires
                    x < self.width,
                    y < self.height,
            ;
        }
        let idx: usize = (y as usize) * (self.width as usize) + (x as usize);
        self.pixels[idx]
    }
}

/// The bilinear sample of a raster at pixel `x0 + fx / MICRO` across and
/// `y0 + fy / MICRO` down (fractions in `MICRO` units).  Inside the
/// raster the four nearest pixels are blended, the right-hand neighbor of
/// the last column wrapping to column 0 and the lower neighbor of the
/// last row clamping; outside, the sample is fully transparent.
pub open spec fn sample_spec(r: Raster, x0: int, fx: int, y0: int, fy: int) -> Pixel {
    let sw = r.width as int;
    let sh = r.height as int;
    if 0 <= x0 < sw && 0 <= y0 < sh {
        let x1 = if x0 + 1 < sw {
            x0 + 1
        } else {
            0
        };
        let y1 = if y0 + 1 < sh {
            y0 + 1
        } else {
            sh - 1
        };
        let p00 = r.pixel_spec(x0, y0);
        let p10 = r.pixel_spec(x1, y0);
        let p01 = r.pixel_spec(x0, y1);
        let p11 = r.pixel_spec(x1, y1);
        Pixel {
            r: blend_spec(p00.r as int, p10.r as int, p01.r as int, p11.r as int, fx, fy) as u8,
            g: blend_spec(p00.g as int, p10.g as int, p01.g as int, p11.g as int, fx, fy) as u8,
            b: blend_spec(p00.b as int, p10.b as int, p01.b as int, p11.b as int, fx, fy) as u8,
            a: blend_spec(p00.a as int, p10.a as int, p01.a as int, p11.a as int, fx, fy) as u8,
        }
    } else {
        Pixel::transparent_spec()
    }
}

/// A sample position outside the raster yields the fully transparent
/// pixel: an undefined sample degrades, it never fails.
pub proof fn lemma_sample_outside_transparent(r: Raster, x0: int, fx: int, y0: int, fy: int)
    requires
        !(0 <= x0 < r.width && 0 <= y0 < r.height),
    ensures
        sample_spec(r, x0, fx, y0, fy) == Pixel::transparent_spec(),
{
}

/// Seam continuity: within one pixel of the width bound the sample's
/// right-hand neighbor wraps around to column 0 instead of falling out
/// of range, so the last column blends with the first exactly as any
/// interior column blends with its neighbor.  A raster whose two edge
/// columns are geographically adjacent — an equirectangular map spans
/// the full turn of longitude — is therefore sampled without a seam.
pub proof fn lemma_sample_wraps_at_width_bound(r: Raster, fx: int, y0: int, fy: int)
    requires
        1 <= r.width,
        0 <= y0 < r.height,
    ensures
        ({
            let xl = r.width as int - 1;
            let y1 = if y0 + 1 < r.height as int {
                y0 + 1
            } else {
                r.height as int - 1
            };
            let p00 = r.pixel_spec(xl, y0);
            let p10 = r.pixel_spec(0, y0);
            let p01 = r.pixel_spec(xl, y1);
            let p11 = r.pixel_spec(0, y1);
            sample_spec(r, xl, fx, y0, fy) == (Pixel {
                r: blend_spec(p00.r as int, p10.r as int, p01.r as int, p11.r as int, fx,
                    fy) as u8,
                g: blend_spec(p00.g as int, p10.g as int, p01.g as int, p11.g as int, fx,
                    fy) as u8,
                b: blend_spec(p00.b as int, p10.b as int, p01.b as int, p11.b as int, fx,
                    fy) as u8,
                a: blend_spec(p00.a as int, p10.a as int, p01.a as int, p11.a as int, fx,
                    fy) as u8,
            })
        }),
{
}

impl Raster {
    /// Samples the raster bilinearly at pixel `x0 + fx / MICRO` across
    /// and `y0 + fy / MICRO` down.
    pub fn sample_bilinear(&self, x0: i64, fx: i64, y0: i64, fy: i64) -> (p: Pixel)
        requires
            self.wf(),
            0 <= fx < MICRO,
            0 <= fy < MICRO,
        ensures
            p == sample_spec(*self, x0 as int, fx as int, y0 as int, fy as int),
    {
        if 0 <= x0 && x0 < self.width as i64 && 0 <= y0 && y0 < self.height as i64 {
            let xi = x0 as u32;
            let yi = y0 as u32;
            let x1 = if xi + 1 < self.width {
                xi + 1
            } else {
                0
            };
            let y1 = if yi + 1 < self.height {
                yi + 1
            } else {
                self.height - 1
            };
            let p00 = self.pixel(xi, yi);
            let p10 = self.pixel(x1, yi);
            let p01 = self.pixel(xi, y1);
            let p11 = self.pixel(x1, y1);
            Pixel {
                r: blend_channel(p00.r, p10.r, p01.r, p11.r, fx, fy),
                g: blend_channel(p00.g, p10.g, p01.g, p11.g, fx, fy),
                b: blend_channel(p00.b, p10.b, p01.b, p11.b, fx, fy),
                a: blend_channel(p00.a, p10.a, p01.a, p11.a, fx, fy),
            }
        } else {
            Pixel::transparent()
        }
    }
}

} // verus!
