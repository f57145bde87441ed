//! Geographic coordinates and raster dimensions.
//!
//! Angles are held in microdegrees: an `i64` coordinate counts millionths
//! of a degree, so 180 degrees is `180_000_000`.

use vstd::prelude::*;

verus! {

/// One degree, in fixed-point units: coordinates count millionths of a degree.
pub const MICRO: i64 = 1_000_000;

/// 90 degrees in microdegrees, the latitude bound.
pub const LAT_LIMIT: i64 = 90_000_000;

/// 180 degrees in microdegrees, the longitude bound.
pub const LON_LIMIT: i64 = 180_000_000;

/// 360 degrees in microdegrees, a full turn of longitude.
pub const FULL_TURN: i64 = 360_000_000;

/// 180 degrees in microdegrees, the latitude span from pole to pole.
pub const LAT_SPAN: i64 = 180_000_000;

/// 540 degrees in microdegrees: the shift applied before reducing a
/// longitude difference modulo a full turn, chosen so the shifted value is
/// never negative for any difference of in-range longitudes.
pub const WRAP_SHIFT: i64 = 540_000_000;

/// Wraps a longitude-like value (microdegrees) into `[-180, 180)` degrees.
/// +180 maps to -180, so the antimeridian is a single seam.
pub open spec fn wrap_lon(d: int) -> int {
    (d + WRAP_SHIFT) % (FULL_TURN as int) - LON_LIMIT
}

/// Wraps `d` microdegrees into `[-180, 180)` degrees.
pub fn wrap_longitude(d: i64) -> (r: i64)
    requires
        -WRAP_SHIFT <= d <= i64::MAX - WRAP_SHIFT,
    ensures
        r == wrap_lon(d as int),
        -LON_LIMIT <= r < LON_LIMIT,
{
    let shifted: u64 = (d + WRAP_SHIFT) as u64;
    let reduced: u64 = shifted % (FULL_TURN as u64);
    (reduced as i64) - LON_LIMIT
}

/// A geographic location, the coordinate space all projections convert
/// through: latitude and longitude in microdegrees.
#[derive(Clone, Copy, PartialEq, Eq, Structural, Debug)]
pub struct Point {
    /// Latitude in microdegrees, in `[-LAT_LIMIT, LAT_LIMIT]`.
    pub latitude: i64,
    /// Longitude in microdegrees, in `[-LON_LIMIT, LON_LIMIT]`.
    pub longitude: i64,
}

impl Point {
    /// Both coordinates lie in the geographic range.
    pub open spec fn wf(self) -> bool {
        &&& -LAT_LIMIT <= self.latitude <= LAT_LIMIT
        &&& -LON_LIMIT <= self.longitude <= LON_LIMIT
    }

    /// Builds a point from microdegree coordinates; coordinates outside the
    /// geographic range are rejected.
    pub fn new(latitude: i64, longitude: i64) -> (r: Option<Point>)
        ensures
            r is Some <==> (-LAT_LIMIT <= latitude <= LAT_LIMIT
                && -LON_LIMIT <= longitude <= LON_LIMIT),
            r is Some ==> r->Some_0 == (Point { latitude, longitude })
                && r->Some_0.wf(),
    {
        if -LAT_LIMIT <= latitude && latitude <= LAT_LIMIT
            && -LON_LIMIT <= longitude && longitude <= LON_LIMIT
        {
            Some(Point { latitude, longitude })
        } else {
            None
        }
    }
}

/// The planar pixel extent a projection's coordinate space occupies at unit
/// scale; defines the pixel-to-planar coordinate mapping.
#[derive(Clone, Copy, PartialEq, Eq, Structural, Debug)]
pub struct Dimensions {
    /// Width in pixels, always positive.
    pub width: u32,
    /// Height in pixels, always positive.
    pub height: u32,
}

impl Dimensions {
    /// Both extents are positive.
    pub open spec fn wf(self) -> bool {
        self.width >= 1 && self.height >= 1
    }
}

} // verus!
