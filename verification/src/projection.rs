//! The projection contract: a closed set of projection kinds, each
//! carrying its own immutable parameters and offering dimensions, a
//! forward transform and an inverse transform.

use vstd::prelude::*;
use crate::equirect::{
    extent_spec, half_extent_spec, invert_lat_spec, invert_lon_spec, lemma_dimensions_monotone,
    project_x_spec, width_spec, Equirectangular,
};
use crate::geo::{Dimensions, Point};

verus! {

/// The closed set of projection kinds the library offers.
#[derive(Clone, Copy, PartialEq, Eq, Structural, Debug)]
pub enum ProjectionKind {
    /// Planar coordinates are a scaled linear function of latitude and
    /// longitude.
    Equirectangular,
}

/// A projection with its parameters: the tagged variant that the
/// reprojection engine dispatches on.
#[derive(Clone, Copy, PartialEq, Eq, Structural, Debug)]
pub enum ProjectionData {
    /// An equirectangular projection and its parameters.
    Equirectangular(Equirectangular),
}

impl ProjectionKind {
    /// Every projection kind, in a fixed order.
    pub fn all() -> (r: Vec<ProjectionKind>)
        ensures
            r@ == seq![ProjectionKind::Equirectangular],
    {
        let mut r: Vec<ProjectionKind> = Vec::new();
        r.push(ProjectionKind::Equirectangular);
        proof {
            assert(r@ =~= seq![ProjectionKind::Equirectangular]);
        }
        r
    }

    /// The kind's display name.
    pub fn name(&self) -> (r: &'static str)
        ensures
            r@ == "Equirectangular"@,
    {
        "Equirectangular"
    }

    /// The projection of this kind with its default parameters: central
    /// longitude 0 and true-scale latitude 0.
    pub fn default_projection_data(&self) -> (r: ProjectionData)
        ensures
            r == ProjectionData::Equirectangular(
                Equirectangular { central_long: 0i64, true_scale_lat: 0i64 },
            ),
            r.wf(),
    {
        match self {
            ProjectionKind::Equirectangular => {
                match Equirectangular::new().build() {
                    Ok(e) => ProjectionData::Equirectangular(e),
                    Err(_) => unreached(),
                }
            },
        }
    }
}

impl ProjectionData {
    /// The kind of this projection.
    pub fn kind(&self) -> (r: ProjectionKind)
        ensures
            r == ProjectionKind::Equirectangular,
    {
        match self {
            ProjectionData::Equirectangular(_) => ProjectionKind::Equirectangular,
        }
    }

    /// The parameters lie in their documented domains.
    pub open spec fn wf(self) -> bool {
        match self {
            ProjectionData::Equirectangular(e) => e.wf(),
        }
    }

    /// The pixel width of the projection's planar extent.
    pub open spec fn width_of(self) -> int {
        match self {
            ProjectionData::Equirectangular(e) => width_spec(e.true_scale_lat as int),
        }
    }

    /// The pixel height of the projection's planar extent.
    pub open spec fn height_of(self) -> int {
        match self {
            ProjectionData::Equirectangular(_) => 180,
        }
    }

    /// The planar width in micro-units.
    pub open spec fn extent_of(self) -> int {
        match self {
            ProjectionData::Equirectangular(e) => extent_spec(e.true_scale_lat as int),
        }
    }

    /// Half the planar width in micro-units: planar x reachable by
    /// `project` lies in `[-half_extent_of, half_extent_of)`.
    pub open spec fn half_extent_of(self) -> int {
        match self {
            ProjectionData::Equirectangular(e) => half_extent_spec(e.true_scale_lat as int),
        }
    }

    /// The forward transform: the planar micro-unit coordinates of a
    /// geographic point.
    pub open spec fn project_spec(self, p: Point) -> (int, int) {
        match self {
            ProjectionData::Equirectangular(e) => (
                project_x_spec(e.central_long as int, e.true_scale_lat as int,
                    p.longitude as int),
                p.latitude as int,
            ),
        }
    }

    /// The inverse transform: the geographic point of a planar micro-unit
    /// coordinate pair.
    pub open spec fn invert_spec(self, x: int, y: int) -> Point {
        match self {
            ProjectionData::Equirectangular(e) => Point {
                latitude: invert_lat_spec(y) as i64,
                longitude: invert_lon_spec(e.central_long as int, e.true_scale_lat as int,
                    x) as i64,
            },
        }
    }

    /// The planar pixel extent: used both to size a synthesized raster
    /// and to convert between pixel indices and planar coordinates.
    pub fn dimensions(&self) -> (r: Dimensions)
        requires
            self.wf(),
        ensures
            r.width as int == self.width_of(),
            r.height as int == self.height_of(),
            r.wf(),
    {
        match self {
            ProjectionData::Equirectangular(e) => e.dimensions(),
        }
    }

    /// Half the planar width in micro-units.
    pub fn half_extent(&self) -> (r: i64)
        requires
            self.wf(),
        ensures
            r == self.half_extent_of(),
    {
        match self {
            ProjectionData::Equirectangular(e) => e.half_extent(),
        }
    }

    /// The planar width in micro-units.
    pub fn extent(&self) -> (r: i64)
        requires
            self.wf(),
        ensures
            r == self.extent_of(),
    {
        match self {
            ProjectionData::Equirectangular(e) => e.extent(),
        }
    }

    /// Forward transform, geographic to planar micro-units.
    pub fn project(&self, point: &Point) -> (r: (i64, i64))
        requires
            self.wf(),
            point.wf(),
        ensures
            (r.0 as int, r.1 as int) == self.project_spec(*point),
            -self.half_extent_of() <= r.0 < self.half_extent_of(),
    {
        match self {
            ProjectionData::Equirectangular(e) => e.project(point),
        }
    }

    /// Inverse transform, planar micro-units to geographic; its domain is
    /// the planar extent reachable by `project`.
    pub fn invert(&self, planar: (i64, i64)) -> (r: Point)
        requires
            self.wf(),
            -self.half_extent_of() <= planar.0 <= self.half_extent_of(),
        ensures
            r == self.invert_spec(planar.0 as int, planar.1 as int),
            r.wf(),
    {
        match self {
            ProjectionData::Equirectangular(e) => e.invert(planar),
        }
    }
}

/// The pixel width implied by any well-formed projection is between 1 and
/// 360, and the extent relates to the half extent and the width as the
/// pixel-to-planar map expects.
pub proof fn lemma_projection_shape(p: ProjectionData)
    requires
        p.wf(),
    ensures
        1 <= p.width_of() <= 360,
        p.height_of() == 180,
        p.extent_of() == 2 * p.half_extent_of(),
        p.width_of() <= p.extent_of(),
        360 <= p.extent_of() <= 360_000_000,
        180 <= p.half_extent_of() <= 180_000_000,
{
    match p {
        ProjectionData::Equirectangular(e) => {
            let ts = e.true_scale_lat as int;
            lemma_dimensions_monotone(ts, ts);
            crate::equirect::lemma_width_at_most_extent(ts);
            crate::equirect::lemma_cos_scale_bounds(ts);
        },
    }
}

} // verus!
