//! The equirectangular projection.
//!
//! Planar coordinates are a scaled linear function of latitude and
//! longitude: longitude is wrapped relative to the central longitude and
//! stretched by the cosine of the true-scale latitude, latitude passes
//! through unchanged.  Planar coordinates are micro-units (`MICRO` units
//! per degree), like the geographic coordinates they come from.

use vstd::prelude::*;
use vstd::arithmetic::div_mod::{
    lemma_div_is_ordered, lemma_div_multiples_vanish, lemma_fundamental_div_mod_converse,
};
use vstd::arithmetic::mul::lemma_mul_inequality;
use crate::arith::{lemma_div_at_least, lemma_div_at_most, lemma_div_below, lemma_div_frac_le};
use crate::geo::{Dimensions, Point, wrap_lon, wrap_longitude, FULL_TURN, LAT_LIMIT, LON_LIMIT,
    MICRO, WRAP_SHIFT};

verus! {

/// Numerator and denominator base of the cosine approximation: 32400 is
/// 360 * 90, the constant of the rational cosine formula
/// cos t = (32400 - 4 t^2) / (32400 + t^2) for t in degrees, here carried
/// at millidegree resolution (32400 * 1000^2).
pub const COS_BASE: i64 = 32_400_000_000;

/// How the projection reports failure: a parameter outside its documented
/// domain, surfaced at construction, before any resampling begins.
#[derive(Clone, Copy, PartialEq, Eq, Structural, Debug)]
pub enum ProjectionError {
    /// A projection parameter lies outside its documented domain.
    InvalidParameter,
}

/// The scale factor cos(true_scale_lat), as a fixed-point fraction of
/// `MICRO`: `MICRO` means 1, 0 means 0.  `ts` is in microdegrees; the
/// rational cosine is evaluated at millidegree resolution.
pub open spec fn cos_scale_spec(ts: int) -> int {
    let t = (if ts < 0 { -ts } else { ts }) / 1000;
    let tt = t * t;
    (COS_BASE - 4 * tt) * (MICRO as int) / (COS_BASE + tt)
}

/// Half the planar width of the projection, in micro-units: 180 degrees
/// scaled by the cosine of the true-scale latitude.
pub open spec fn half_extent_spec(ts: int) -> int {
    180 * cos_scale_spec(ts)
}

/// The full planar width of the projection, in micro-units.
pub open spec fn extent_spec(ts: int) -> int {
    360 * cos_scale_spec(ts)
}

/// The planar pixel width: the planar extent in degrees (360 scaled by the
/// cosine), rounded up so it is positive for every admissible latitude.
pub open spec fn width_spec(ts: int) -> int {
    (extent_spec(ts) + (MICRO as int) - 1) / (MICRO as int)
}

/// The planar x coordinate of a longitude: the longitude is wrapped
/// relative to the central longitude into [-180, 180) degrees, then scaled
/// by the cosine of the true-scale latitude.  The division by `MICRO`
/// rounds toward minus infinity over the nonnegative wrapped offset.
pub open spec fn project_x_spec(central_long: int, ts: int, lon: int) -> int {
    let c = cos_scale_spec(ts);
    let w = (lon - central_long + WRAP_SHIFT) % (FULL_TURN as int);
    w * c / (MICRO as int) - 180 * c
}

/// The longitude of a planar x coordinate: the offset from the left edge
/// of the planar extent is unscaled by the cosine, shifted back around the
/// central longitude, and wrapped into [-180, 180) degrees.
pub open spec fn invert_lon_spec(central_long: int, ts: int, x: int) -> int {
    let c = cos_scale_spec(ts);
    wrap_lon((x + 180 * c) * (MICRO as int) / c - (LON_LIMIT as int) + central_long)
}

/// The latitude of a planar y coordinate: y itself, clamped to the
/// geographic range.
pub open spec fn invert_lat_spec(y: int) -> int {
    if y < -LAT_LIMIT {
        -LAT_LIMIT as int
    } else if y > LAT_LIMIT {
        LAT_LIMIT as int
    } else {
        y
    }
}

/// The cosine scale lies between 1 and `MICRO` on the open latitude
/// interval (-90, 90) degrees: positive everywhere the projection admits.
pub proof fn lemma_cos_scale_bounds(ts: int)
    requires
        -LAT_LIMIT < ts < LAT_LIMIT,
    ensures
        1 <= cos_scale_spec(ts) <= MICRO,
{
    let t = (if ts < 0 { -ts } else { ts }) / 1000;
    assert(0 <= t <= 89_999);
    let tt = t * t;
    assert(0 <= tt <= 89_999 * 89_999) by (nonlinear_arith)
        requires
            0 <= t <= 89_999,
            tt == t * t,
    ;
    let num = (COS_BASE - 4 * tt) * (MICRO as int);
    let den = COS_BASE + tt;
    assert(num >= 719_996 * (MICRO as int));
    lemma_div_at_least(num, 1, den);
    lemma_div_at_most(num, MICRO as int, den);
}

/// Computes the scale factor cos(true_scale_lat) as a fixed-point
/// fraction of `MICRO`.
pub fn cos_scale(true_scale_lat: i64) -> (r: i64)
    requires
        -LAT_LIMIT < true_scale_lat < LAT_LIMIT,
    ensures
        r == cos_scale_spec(true_scale_lat as int),
        1 <= r <= MICRO,
{
    proof {
        lemma_cos_scale_bounds(true_scale_lat as int);
    }
    let a: u64 = if true_scale_lat < 0 {
        (-true_scale_lat) as u64
    } else {
        true_scale_lat as u64
    };
    let t: u64 = a / 1000;
    assert(t <= 89_999);
    assert(t * t <= 89_999 * 89_999) by (nonlinear_arith)
        requires
            t <= 89_999,
    ;
    let tt: u64 = t * t;
    let num: u64 = (COS_BASE as u64) - 4 * tt;
    let den: u64 = (COS_BASE as u64) + tt;
    let r: u64 = num * (MICRO as u64) / den;
    r as i64
}

/// An equirectangular projection: fixes the longitude origin
/// `central_long` and the horizontal scale cos(`true_scale_lat`).
#[derive(Clone, Copy, PartialEq, Eq, Structural, Debug)]
pub struct Equirectangular {
    /// The longitude mapped to planar x = 0, in microdegrees, in
    /// `[-LON_LIMIT, LON_LIMIT]`.
    pub central_long: i64,
    /// The latitude at which one planar unit spans one degree of
    /// longitude, in microdegrees, strictly inside `(-LAT_LIMIT, LAT_LIMIT)`.
    pub true_scale_lat: i64,
}

/// Collects equirectangular parameters before validation; `build` checks
/// them and constructs the projection.
#[derive(Clone, Copy, PartialEq, Eq, Structural, Debug)]
pub struct EquirectangularBuilder {
    /// The central longitude requested so far, in microdegrees.
    pub central_long: i64,
    /// The true-scale latitude requested so far, in microdegrees.
    pub true_scale_lat: i64,
}

impl EquirectangularBuilder {
    /// Sets the central longitude, in microdegrees.
    pub fn central_long(self, central_long: i64) -> (r: EquirectangularBuilder)
        ensures
            r == (EquirectangularBuilder { central_long, ..self }),
    {
        EquirectangularBuilder { central_long, ..self }
    }

    /// Sets the true-scale latitude, in microdegrees.
    pub fn true_scale_lat(self, true_scale_lat: i64) -> (r: EquirectangularBuilder)
        ensures
            r == (EquirectangularBuilder { true_scale_lat, ..self }),
    {
        EquirectangularBuilder { true_scale_lat, ..self }
    }

    /// Validates the collected parameters: the central longitude must lie
    /// in [-180, 180] degrees and the true-scale latitude strictly inside
    /// (-90, 90) degrees, where the scale factor stays positive.  Anything
    /// else is an invalid parameter.
    pub fn build(self) -> (r: Result<Equirectangular, ProjectionError>)
        ensures
            r is Ok <==> (-LON_LIMIT <= self.central_long <= LON_LIMIT
                && -LAT_LIMIT < self.true_scale_lat < LAT_LIMIT),
            r is Ok ==> r->Ok_0 == (Equirectangular {
                central_long: self.central_long,
                true_scale_lat: self.true_scale_lat,
            }) && r->Ok_0.wf(),
            r is Err ==> r->Err_0 == ProjectionError::InvalidParameter,
    {
        if -LON_LIMIT <= self.central_long && self.central_long <= LON_LIMIT
            && -LAT_LIMIT < self.true_scale_lat && self.true_scale_lat < LAT_LIMIT
        {
            Ok(Equirectangular {
                central_long: self.central_long,
                true_scale_lat: self.true_scale_lat,
            })
        } else {
            Err(ProjectionError::InvalidParameter)
        }
    }
}

impl Equirectangular {
    /// The parameters lie in their documented domains.
    pub open spec fn wf(self) -> bool {
        &&& -LON_LIMIT <= self.central_long <= LON_LIMIT
        &&& -LAT_LIMIT < self.true_scale_lat < LAT_LIMIT
    }

    /// Starts building a projection; the defaults are central longitude 0
    /// and true-scale latitude 0 (the plate carree).
    pub fn new() -> (r: EquirectangularBuilder)
        ensures
            r == (EquirectangularBuilder { central_long: 0i64, true_scale_lat: 0i64 }),
    {
        EquirectangularBuilder { central_long: 0, true_scale_lat: 0 }
    }

    /// The central longitude, in microdegrees.
    pub fn central_long(&self) -> (r: i64)
        ensures
            r == self.central_long,
    {
        self.central_long
    }

    /// The true-scale latitude, in microdegrees.
    pub fn true_scale_lat(&self) -> (r: i64)
        ensures
            r == self.true_scale_lat,
    {
        self.true_scale_lat
    }

    /// Half the planar width in micro-units: 180 degrees scaled by the
    /// cosine of the true-scale latitude.
    pub fn half_extent(&self) -> (r: i64)
        requires
            self.wf(),
        ensures
            r == half_extent_spec(self.true_scale_lat as int),
            180 <= r <= 180_000_000,
    {
        180 * cos_scale(self.true_scale_lat)
    }

    /// The planar width in micro-units: 360 degrees scaled by the cosine
    /// of the true-scale latitude.
    pub fn extent(&self) -> (r: i64)
        requires
            self.wf(),
        ensures
            r == extent_spec(self.true_scale_lat as int),
            360 <= r <= 360_000_000,
    {
        360 * cos_scale(self.true_scale_lat)
    }

    /// The planar extent reachable by `project`: 360 degrees of longitude
    /// scaled by the cosine of the true-scale latitude (rounded up to stay
    /// positive), by 180 degrees of latitude.
    pub fn dimensions(&self) -> (r: Dimensions)
        requires
            self.wf(),
        ensures
            r.width == width_spec(self.true_scale_lat as int),
            r.height == 180,
            r.wf(),
    {
        let c = cos_scale(self.true_scale_lat);
        proof {
            lemma_div_at_least(360 * (c as int) + (MICRO as int) - 1, 1, MICRO as int);
            lemma_div_below(360 * (c as int) + (MICRO as int) - 1, 360, MICRO as int);
        }
        let w: u64 = (360 * (c as u64) + (MICRO as u64) - 1) / (MICRO as u64);
        Dimensions { width: w as u32, height: 180 }
    }

    /// Forward transform, geographic to planar micro-units.  The wrapped
    /// longitude lands in [-180, 180) degrees, so the x coordinate lands
    /// in [-half_extent, half_extent).
    pub fn project(&self, point: &Point) -> (r: (i64, i64))
        requires
            self.wf(),
            point.wf(),
        ensures
            r.0 == project_x_spec(
                self.central_long as int,
                self.true_scale_lat as int,
                point.longitude as int,
            ),
            r.1 == point.latitude,
            -half_extent_spec(self.true_scale_lat as int) <= r.0
                < half_extent_spec(self.true_scale_lat as int),
    {
        let c = cos_scale(self.true_scale_lat);
        let shifted: u64 = (point.longitude - self.central_long + WRAP_SHIFT) as u64;
        let w: u64 = shifted % (FULL_TURN as u64);
        proof {
            assert(w <= FULL_TURN - 1);
            lemma_mul_inequality(w as int, FULL_TURN - 1, c as int);
            lemma_div_is_ordered((w as int) * (c as int), (FULL_TURN - 1) * (c as int),
                MICRO as int);
            lemma_fundamental_div_mod_converse(
                (FULL_TURN - 1) * (c as int),
                MICRO as int,
                360 * (c as int) - 1,
                MICRO - (c as int),
            );
        }
        let scaled: u64 = w * (c as u64) / (MICRO as u64);
        ((scaled as i64) - 180 * c, point.latitude)
    }

    /// Inverse transform, planar micro-units to geographic.  Its planar
    /// domain is x within the extent reachable by `project` (the closed
    /// interval of half extents); y may be anything and is clamped.
    pub fn invert(&self, planar: (i64, i64)) -> (r: Point)
        requires
            self.wf(),
            -half_extent_spec(self.true_scale_lat as int) <= planar.0
                <= half_extent_spec(self.true_scale_lat as int),
        ensures
            r.longitude == invert_lon_spec(
                self.central_long as int,
                self.true_scale_lat as int,
                planar.0 as int,
            ),
            r.latitude == invert_lat_spec(planar.1 as int),
            r.wf(),
    {
        let c = cos_scale(self.true_scale_lat);
        let u: u64 = (planar.0 + 180 * c) as u64;
        proof {
            assert((u as int) * (MICRO as int) <= (FULL_TURN as int) * (c as int));
            lemma_div_at_most((u as int) * (MICRO as int), FULL_TURN as int, c as int);
        }
        let q: u64 = u * (MICRO as u64) / (c as u64);
        let longitude = wrap_longitude((q as i64) - LON_LIMIT + self.central_long);
        let latitude = if planar.1 < -LAT_LIMIT {
            -LAT_LIMIT
        } else if planar.1 > LAT_LIMIT {
            LAT_LIMIT
        } else {
            planar.1
        };
        Point { latitude, longitude }
    }
}

/// At true-scale latitude 0 (the equator) the scale factor is exactly 1.
pub proof fn lemma_cos_scale_zero()
    ensures
        cos_scale_spec(0) == MICRO,
{
    let t = 0int / 1000;
    assert(t * t == 0) by (nonlinear_arith)
        requires
            t == 0,
    ;
    lemma_div_multiples_vanish(MICRO as int, COS_BASE as int);
}

/// Round trip: with central longitude 0 and true-scale latitude 0, the
/// inverse projection restores every projected point exactly.  Longitude
/// +180 is excluded: it projects onto the same seam as -180.
pub proof fn lemma_round_trip(p: Point)
    requires
        p.wf(),
        p.longitude < LON_LIMIT,
    ensures
        invert_lon_spec(0, 0, project_x_spec(0, 0, p.longitude as int)) == p.longitude,
        invert_lat_spec(p.latitude as int) == p.latitude,
{
    lemma_cos_scale_zero();
    let w = (p.longitude + WRAP_SHIFT) % (FULL_TURN as int);
    assert(w == p.longitude + LON_LIMIT);
    let x = project_x_spec(0, 0, p.longitude as int);
    assert(w * (MICRO as int) / (MICRO as int) == w) by {
        lemma_div_multiples_vanish(w, MICRO as int);
    }
    assert(x == w - 180 * (MICRO as int));
    let u = x + 180 * (MICRO as int);
    assert(u == w);
    assert(u * (MICRO as int) / (MICRO as int) == u) by {
        lemma_div_multiples_vanish(u, MICRO as int);
    }
    assert(invert_lon_spec(0, 0, x) == wrap_lon(p.longitude as int));
    assert(wrap_lon(p.longitude as int) == p.longitude);
}

/// The pixel width never exceeds the planar extent in micro-units, so a
/// pixel column is at least one micro-unit wide.
pub proof fn lemma_width_at_most_extent(ts: int)
    requires
        -LAT_LIMIT < ts < LAT_LIMIT,
    ensures
        width_spec(ts) <= extent_spec(ts),
{
    lemma_cos_scale_bounds(ts);
    lemma_div_below(extent_spec(ts) + (MICRO as int) - 1, extent_spec(ts), MICRO as int);
}

/// Dimension monotonicity: the width scales with the cosine of the
/// true-scale latitude.  A latitude farther from the equator never gives a
/// wider raster, the width never exceeds 360 pixels, and it stays a
/// positive integer all the way out to the edge of the domain, where it
/// has shrunk to 1.
pub proof fn lemma_dimensions_monotone(a: int, b: int)
    requires
        -LAT_LIMIT < a < LAT_LIMIT,
        -LAT_LIMIT < b < LAT_LIMIT,
        (if a < 0 { -a } else { a }) <= (if b < 0 { -b } else { b }),
    ensures
        width_spec(b) <= width_spec(a),
        1 <= width_spec(b),
        width_spec(a) <= 360,
{
    let ta = (if a < 0 { -a } else { a }) / 1000;
    let tb = (if b < 0 { -b } else { b }) / 1000;
    lemma_div_is_ordered(if a < 0 { -a } else { a }, if b < 0 { -b } else { b }, 1000);
    assert(0 <= ta <= tb <= 89_999);
    let numa = (COS_BASE - 4 * (ta * ta)) * (MICRO as int);
    let dena = COS_BASE + ta * ta;
    let numb = (COS_BASE - 4 * (tb * tb)) * (MICRO as int);
    let denb = COS_BASE + tb * tb;
    assert(numb * dena <= numa * denb) by (nonlinear_arith)
        requires
            0 <= ta <= tb,
            numa == (COS_BASE - 4 * (ta * ta)) * (MICRO as int),
            dena == COS_BASE + ta * ta,
            numb == (COS_BASE - 4 * (tb * tb)) * (MICRO as int),
            denb == COS_BASE + tb * tb,
    ;
    assert(tb * tb >= 0) by (nonlinear_arith);
    assert(ta * ta >= 0) by (nonlinear_arith);
    lemma_div_frac_le(numa, dena, numb, denb);
    lemma_cos_scale_bounds(a);
    lemma_cos_scale_bounds(b);
    let ca = cos_scale_spec(a);
    let cb = cos_scale_spec(b);
    assert(cb <= ca);
    lemma_div_is_ordered(360 * cb + (MICRO as int) - 1, 360 * ca + (MICRO as int) - 1,
        MICRO as int);
    lemma_div_at_least(360 * cb + (MICRO as int) - 1, 1, MICRO as int);
    lemma_div_below(360 * ca + (MICRO as int) - 1, 360, MICRO as int);
}

} // verus!
