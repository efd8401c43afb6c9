//! Spatial primitives: coordinates, bounding boxes, partitions, resolutions,
//! and the query rectangle that drives every pull against a query processor.
//!
//! Coordinates and resolutions are integers in fixed model units, so that
//! every geometric rule can be stated exactly.

use vstd::prelude::*;
use crate::time::TimeInterval;

verus! {

/// A two-dimensional coordinate in model units.
#[derive(Clone, Copy, Debug, PartialEq, Eq, Structural)]
pub struct Coordinate2D {
    pub x: i64,
    pub y: i64,
}

impl Coordinate2D {
    pub fn new(x: i64, y: i64) -> (r: Coordinate2D)
        ensures
            r.x == x && r.y == y,
    {
        Coordinate2D { x, y }
    }
}

/// An axis-aligned box that includes all of its border points.
///
/// Invariant: the lower-left coordinate is componentwise at most the
/// upper-right coordinate; the box may degenerate to a point.
#[derive(Clone, Copy, Debug, PartialEq, Eq, Structural)]
pub struct BoundingBox2D {
    lower_left_coordinate: Coordinate2D,
    upper_right_coordinate: Coordinate2D,
}

impl BoundingBox2D {
    pub closed spec fn spec_lower_left(self) -> Coordinate2D {
        self.lower_left_coordinate
    }

    pub closed spec fn spec_upper_right(self) -> Coordinate2D {
        self.upper_right_coordinate
    }

    pub open spec fn wf(self) -> bool {
        self.spec_lower_left().x <= self.spec_upper_right().x
            && self.spec_lower_left().y <= self.spec_upper_right().y
    }

    /// A coordinate lies in the box iff it lies within all four borders.
    pub open spec fn spec_contains(self, c: Coordinate2D) -> bool {
        self.spec_lower_left().x <= c.x <= self.spec_upper_right().x
            && self.spec_lower_left().y <= c.y <= self.spec_upper_right().y
    }

    /// Builds a box from its lower-left and upper-right corners; rejects
    /// corners in the wrong order.
    pub fn new(lower_left: Coordinate2D, upper_right: Coordinate2D) -> (r: Result<
        BoundingBox2D,
        PrimitivesError,
    >)
        ensures
            r is Ok <==> lower_left.x <= upper_right.x && lower_left.y <= upper_right.y,
            r matches Ok(b) ==> b.spec_lower_left() == lower_left
                && b.spec_upper_right() == upper_right && b.wf(),
    {
        if lower_left.x <= upper_right.x && lower_left.y <= upper_right.y {
            Ok(BoundingBox2D { lower_left_coordinate: lower_left, upper_right_coordinate: upper_right })
        } else {
            Err(PrimitivesError::InvalidBoundingBox)
        }
    }

    pub fn lower_left(&self) -> (r: Coordinate2D)
        ensures
            r == self.spec_lower_left(),
    {
        self.lower_left_coordinate
    }

    pub fn upper_right(&self) -> (r: Coordinate2D)
        ensures
            r == self.spec_upper_right(),
    {
        self.upper_right_coordinate
    }

    pub fn contains_coordinate(&self, c: Coordinate2D) -> (r: bool)
        ensures
            r == self.spec_contains(c),
    {
        self.lower_left_coordinate.x <= c.x && c.x <= self.upper_right_coordinate.x
            && self.lower_left_coordinate.y <= c.y && c.y <= self.upper_right_coordinate.y
    }
}

/// A partition of space that includes its upper-left border and excludes its
/// lower-right border.
///
/// Invariant: the upper-left coordinate lies left of and above the
/// lower-right coordinate, strictly in both axes.
#[derive(Clone, Copy, Debug, PartialEq, Eq, Structural)]
pub struct SpatialPartition2D {
    upper_left_coordinate: Coordinate2D,
    lower_right_coordinate: Coordinate2D,
}

impl SpatialPartition2D {
    pub closed spec fn spec_upper_left(self) -> Coordinate2D {
        self.upper_left_coordinate
    }

    pub closed spec fn spec_lower_right(self) -> Coordinate2D {
        self.lower_right_coordinate
    }

    pub open spec fn wf(self) -> bool {
        self.spec_upper_left().x < self.spec_lower_right().x
            && self.spec_lower_right().y < self.spec_upper_left().y
    }

    /// Half-open membership: the upper and left borders belong to the
    /// partition, the lower and right borders do not.
    pub open spec fn spec_contains(self, c: Coordinate2D) -> bool {
        self.spec_upper_left().x <= c.x < self.spec_lower_right().x
            && self.spec_lower_right().y < c.y <= self.spec_upper_left().y
    }

    /// Builds a partition from its upper-left and lower-right corners;
    /// rejects empty or inverted partitions.
    pub fn new(upper_left: Coordinate2D, lower_right: Coordinate2D) -> (r: Result<
        SpatialPartition2D,
        PrimitivesError,
    >)
        ensures
            r is Ok <==> upper_left.x < lower_right.x && lower_right.y < upper_left.y,
            r matches Ok(p) ==> p.spec_upper_left() == upper_left
                && p.spec_lower_right() == lower_right && p.wf(),
    {
        if upper_left.x < lower_right.x && lower_right.y < upper_left.y {
            Ok(SpatialPartition2D { upper_left_coordinate: upper_left, lower_right_coordinate: lower_right })
        } else {
            Err(PrimitivesError::InvalidSpatialPartition)
        }
    }

    /// Crate-internal constructor for partitions whose corners are already
    /// proven to be in order.
    pub(crate) fn new_unchecked(upper_left: Coordinate2D, lower_right: Coordinate2D) -> (r:
        SpatialPartition2D)
        requires
            upper_left.x < lower_right.x,
            lower_right.y < upper_left.y,
        ensures
            r.spec_upper_left() == upper_left,
            r.spec_lower_right() == lower_right,
            r.wf(),
    {
        SpatialPartition2D { upper_left_coordinate: upper_left, lower_right_coordinate: lower_right }
    }

    pub fn upper_left(&self) -> (r: Coordinate2D)
        ensures
            r == self.spec_upper_left(),
    {
        self.upper_left_coordinate
    }

    pub fn lower_right(&self) -> (r: Coordinate2D)
        ensures
            r == self.spec_lower_right(),
    {
        self.lower_right_coordinate
    }

    pub fn contains_coordinate(&self, c: Coordinate2D) -> (r: bool)
        ensures
            r == self.spec_contains(c),
    {
        self.upper_left_coordinate.x <= c.x && c.x < self.lower_right_coordinate.x
            && self.lower_right_coordinate.y < c.y && c.y <= self.upper_left_coordinate.y
    }
}

/// The spatial resolution of a query, in model units per pixel.
///
/// Invariant: both components are strictly positive.
#[derive(Clone, Copy, Debug, PartialEq, Eq, Structural)]
pub struct SpatialResolution {
    x: i64,
    y: i64,
}

impl SpatialResolution {
    pub closed spec fn spec_x(self) -> int {
        self.x as int
    }

    pub closed spec fn spec_y(self) -> int {
        self.y as int
    }

    pub open spec fn wf(self) -> bool {
        self.spec_x() > 0 && self.spec_y() > 0
    }

    /// Builds a resolution; rejects non-positive steps.
    pub fn new(x: i64, y: i64) -> (r: Result<SpatialResolution, PrimitivesError>)
        ensures
            r is Ok <==> x > 0 && y > 0,
            r matches Ok(s) ==> s.spec_x() == x && s.spec_y() == y && s.wf(),
    {
        if x > 0 && y > 0 {
            Ok(SpatialResolution { x, y })
        } else {
            Err(PrimitivesError::InvalidResolution)
        }
    }

    pub fn x(&self) -> (r: i64)
        ensures
            r == self.spec_x(),
    {
        self.x
    }

    pub fn y(&self) -> (r: i64)
        ensures
            r == self.spec_y(),
    {
        self.y
    }
}

/// A spatio-temporal rectangle with a resolution: one pull against a query
/// processor. `B` is a bounding box for vector queries and a spatial
/// partition for raster queries.
#[derive(Clone, Copy, Debug, PartialEq, Eq, Structural)]
pub struct QueryRectangle<B> {
    pub spatial_bounds: B,
    pub time_interval: TimeInterval,
    pub spatial_resolution: SpatialResolution,
}

pub type VectorQueryRectangle = QueryRectangle<BoundingBox2D>;

pub type RasterQueryRectangle = QueryRectangle<SpatialPartition2D>;

pub type PlotQueryRectangle = QueryRectangle<BoundingBox2D>;

/// Errors of the spatial primitives.
#[derive(Clone, Copy, Debug, PartialEq, Eq, Structural)]
pub enum PrimitivesError {
    /// A bounding box's corners were given in the wrong order.
    InvalidBoundingBox,
    /// A spatial partition was empty or inverted.
    InvalidSpatialPartition,
    /// A resolution step was zero or negative.
    InvalidResolution,
}

} // verus!
