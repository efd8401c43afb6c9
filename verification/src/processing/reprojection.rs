//! Reprojection: vector geometries are mapped coordinate by coordinate into
//! a target spatial reference; raster tiles are rebuilt by looking every
//! output pixel up in the source via the inverse projection.
//!
//! Both share one coordinate-projection primitive. The engine's own
//! projection is the identity (a reprojection into the same reference);
//! other projections implement the same trait outside the verified core.

use vstd::prelude::*;
use crate::collections::{MultiPoint, MultiPointCollection};
use crate::grid::{Grid2D, GridIdx2D};
use crate::primitives::{BoundingBox2D, Coordinate2D, QueryRectangle, VectorQueryRectangle};
use crate::processing::raster_vector_join::spec_pixel_value;
use crate::raster::{RasterTile, TileInformation};
use crate::spatial_reference::SpatialReference;
use crate::time::TimeInterval;

verus! {

/// The parameters of the reprojection operator.
#[derive(Clone, Copy, Debug, PartialEq, Eq, Structural)]
pub struct ReprojectionParams {
    pub target_spatial_reference: SpatialReference,
}

/// Errors of reprojection.
#[derive(Clone, Copy, Debug, PartialEq, Eq, Structural)]
pub enum ReprojectionError {
    /// A coordinate has no image under the projection.
    UnprojectableCoordinate,
    /// The projected corners do not form a valid bounding box.
    InvalidProjectedBounds,
}

/// A projection of coordinates between two spatial references. `proj_spec`
/// names the mapping; `project` computes it, failing exactly on the
/// coordinates that have no image.
pub trait CoordinateProjection: Sized {
    /// The mapping this projection computes, or nothing for a coordinate
    /// without an image.
    spec fn proj_spec(&self, c: Coordinate2D) -> Option<Coordinate2D>;

    /// Projects one coordinate.
    fn project(&self, c: Coordinate2D) -> (r: Result<Coordinate2D, ReprojectionError>)
        ensures
            r is Ok <==> self.proj_spec(c) is Some,
            r matches Ok(p) ==> self.proj_spec(c) == Some(p),
    ;
}

/// The identity projection: a reprojection into the source's own spatial
/// reference maps every coordinate to itself.
#[derive(Clone, Copy, Debug, PartialEq, Eq, Structural)]
pub struct IdentityProjection {
}

impl CoordinateProjection for IdentityProjection {
    open spec fn proj_spec(&self, c: Coordinate2D) -> Option<Coordinate2D> {
        Some(c)
    }

    fn project(&self, c: Coordinate2D) -> (r: Result<Coordinate2D, ReprojectionError>) {
        Ok(c)
    }
}

/// Rewrites a vector query into the source's reference: both corners of the
/// bounding box go through the inverse projection, the time interval stays,
/// and the resolution becomes the suggested source resolution.
///
/// The suggested resolution stands for the diagonal-cross heuristic over
/// the reprojected bounds — floating-point scale analysis that the caller
/// computes outside the verified core and hands in.
pub fn query_rewrite_fn<P: CoordinateProjection>(
    query: VectorQueryRectangle,
    inverse: &P,
    suggested_resolution: crate::primitives::SpatialResolution,
) -> (r: Result<VectorQueryRectangle, ReprojectionError>)
    ensures
        r matches Ok(q) ==> {
            &&& inverse.proj_spec(query.spatial_bounds.spec_lower_left()) == Some(
                q.spatial_bounds.spec_lower_left(),
            )
            &&& inverse.proj_spec(query.spatial_bounds.spec_upper_right()) == Some(
                q.spatial_bounds.spec_upper_right(),
            )
            &&& q.spatial_bounds.wf()
            &&& q.time_interval == query.time_interval
            &&& q.spatial_resolution == suggested_resolution
        },
        r is Err ==> inverse.proj_spec(query.spatial_bounds.spec_lower_left()) is None
            || inverse.proj_spec(query.spatial_bounds.spec_upper_right()) is None || {
            let ll = inverse.proj_spec(query.spatial_bounds.spec_lower_left())->Some_0;
            let ur = inverse.proj_spec(query.spatial_bounds.spec_upper_right())->Some_0;
            !(ll.x <= ur.x && ll.y <= ur.y)
        },
{
    let ll = match inverse.project(query.spatial_bounds.lower_left()) {
        Ok(c) => c,
        Err(_) => {
            return Err(ReprojectionError::UnprojectableCoordinate);
        },
    };
    let ur = match inverse.project(query.spatial_bounds.upper_right()) {
        Ok(c) => c,
        Err(_) => {
            return Err(ReprojectionError::UnprojectableCoordinate);
        },
    };
    match BoundingBox2D::new(ll, ur) {
        Ok(bounds) => Ok(
            QueryRectangle {
                spatial_bounds: bounds,
                time_interval: query.time_interval,
                spatial_resolution: suggested_resolution,
            },
        ),
        Err(_) => Err(ReprojectionError::InvalidProjectedBounds),
    }
}

/// Projects every coordinate of one multi-point.
fn reproject_multi_point<P: CoordinateProjection>(mp: &MultiPoint, projection: &P) -> (r: Result<
    MultiPoint,
    ReprojectionError,
>)
    ensures
        r is Ok <==> (forall|i: int|
            0 <= i < mp@.len() ==> projection.proj_spec(#[trigger] mp@[i]) is Some),
        r matches Ok(o) ==> o@.len() == mp@.len() && (forall|i: int|
            0 <= i < mp@.len() ==> projection.proj_spec(#[trigger] mp@[i]) == Some(o@[i])),
{
    let mut out: Vec<Coordinate2D> = Vec::new();
    let mut i: usize = 0;
    while i < mp.coordinates.len()
        invariant
            i <= mp@.len(),
            out@.len() == i,
            forall|j: int|
                0 <= j < i ==> projection.proj_spec(#[trigger] mp@[j]) == Some(out@[j]),
        decreases mp@.len() - i,
    {
        match projection.project(mp.coordinates[i]) {
            Ok(c) => {
                out.push(c);
            },
            Err(_) => {
                return Err(ReprojectionError::UnprojectableCoordinate);
            },
        }
        i = i + 1;
    }
    Ok(MultiPoint { coordinates: out })
}

/// Projects every geometry of a feature collection into the target
/// reference, leaving time intervals and attribute columns untouched.
///
/// Fails exactly when some coordinate has no image.
pub fn reproject_collection<P: CoordinateProjection>(
    collection: &MultiPointCollection,
    projection: &P,
) -> (r: Result<MultiPointCollection, ReprojectionError>)
    requires
        collection.wf(),
    ensures
        r is Ok <==> (forall|f: int, i: int|
            0 <= f < collection.coordinates@.len() && 0 <= i < (#[trigger]
            collection.coordinates@[f])@.len() ==> projection.proj_spec(
                #[trigger] collection.coordinates@[f]@[i],
            ) is Some),
        r matches Ok(o) ==> {
            &&& o.wf()
            &&& o.spec_len() == collection.spec_len()
            &&& o.spec_times() == collection.spec_times()
            &&& o.columns@.len() == collection.columns@.len()
            &&& forall|j: int|
                0 <= j < collection.columns@.len() ==> (#[trigger] o.columns@[j]).name@
                    == collection.columns@[j].name@ && o.columns@[j].data.spec_cells()
                    == collection.columns@[j].data.spec_cells()
                    && o.columns@[j].data.spec_data_type()
                    == collection.columns@[j].data.spec_data_type()
            &&& forall|f: int|
                0 <= f < collection.coordinates@.len() ==> (#[trigger] o.spec_geometries()[f]).len()
                    == collection.spec_geometries()[f].len()
            &&& forall|f: int, i: int|
                0 <= f < collection.coordinates@.len() && 0 <= i < (#[trigger]
                collection.coordinates@[f])@.len() ==> projection.proj_spec(
                    #[trigger] collection.coordinates@[f]@[i],
                ) == Some(o.coordinates@[f]@[i])
        },
{
    let mut out = collection.duplicate();
    let mut coords: Vec<MultiPoint> = Vec::new();
    let mut f: usize = 0;
    while f < collection.coordinates.len()
        invariant
            f <= collection.coordinates@.len(),
            coords@.len() == f,
            forall|f0: int|
                0 <= f0 < f ==> (#[trigger] coords@[f0])@.len()
                    == collection.coordinates@[f0]@.len(),
            forall|f0: int, i: int|
                0 <= f0 < f && 0 <= i < (#[trigger] collection.coordinates@[f0])@.len()
                    ==> projection.proj_spec(#[trigger] collection.coordinates@[f0]@[i]) == Some(
                    coords@[f0]@[i],
                ),
        decreases collection.coordinates@.len() - f,
    {
        match reproject_multi_point(&collection.coordinates[f], projection) {
            Ok(mp) => {
                coords.push(mp);
            },
            Err(_) => {
                return Err(ReprojectionError::UnprojectableCoordinate);
            },
        }
        f = f + 1;
    }
    out.coordinates = coords;
    proof {
        assert(forall|f0: int|
            0 <= f0 < out.coordinates@.len() ==> (#[trigger] out.coordinates@[f0])@.len()
                <= 0x10000);
        assert forall|f0: int| 0 <= f0 < out.coordinates@.len() implies (#[trigger]
        out.spec_geometries()[f0]).len() == collection.spec_geometries()[f0].len() by {
            assert(out.spec_geometries()[f0] == out.coordinates@[f0]@);
            assert(collection.spec_geometries()[f0] == collection.coordinates@[f0]@);
        }
    }
    Ok(out)
}

/// Identity reprojection of vector data is the identity: projecting a
/// collection into its own spatial reference leaves every coordinate as it
/// was.
pub proof fn lemma_identity_reprojection_vector(
    p: IdentityProjection,
    original: Seq<Coordinate2D>,
    projected: Seq<Coordinate2D>,
)
    requires
        projected.len() == original.len(),
        forall|i: int|
            0 <= i < original.len() ==> p.proj_spec(#[trigger] original[i]) == Some(projected[i]),
    ensures
        projected == original,
{
    assert(projected =~= original);
}

/// The reprojection round trip: if a backward projection inverts the
/// forward projection on every coordinate of a geometry, then projecting
/// forward and back reproduces the original geometry exactly.
pub proof fn lemma_reprojection_round_trip<P1: CoordinateProjection, P2: CoordinateProjection>(
    forward: P1,
    backward: P2,
    original: Seq<Coordinate2D>,
    there: Seq<Coordinate2D>,
    back: Seq<Coordinate2D>,
)
    requires
        there.len() == original.len(),
        back.len() == there.len(),
        forall|i: int|
            0 <= i < original.len() ==> forward.proj_spec(#[trigger] original[i]) == Some(
                there[i],
            ),
        forall|i: int|
            0 <= i < there.len() ==> backward.proj_spec(#[trigger] there[i]) == Some(back[i]),
        forall|c: Coordinate2D, m: Coordinate2D|
            #![trigger forward.proj_spec(c), backward.proj_spec(m)]
            forward.proj_spec(c) == Some(m) ==> backward.proj_spec(m) == Some(c),
    ensures
        back == original,
{
    assert forall|i: int| 0 <= i < original.len() implies back[i] == original[i] by {
        assert(forward.proj_spec(original[i]) == Some(there[i]));
        assert(backward.proj_spec(there[i]) == Some(original[i]));
    }
    assert(back =~= original);
}

/// The reprojection round trip at collection level: a collection projected
/// forward and then back through an inverting pair carries its original
/// geometries again, feature by feature. The requires mirror what two runs
/// of `reproject_collection` ensure; the inversion law is the projection
/// pair's own property — the projection library's guarantee for
/// non-degenerate projections — and stands as the hypothesis.
pub proof fn lemma_collection_round_trip<P1: CoordinateProjection, P2: CoordinateProjection>(
    forward: P1,
    backward: P2,
    original: MultiPointCollection,
    there: MultiPointCollection,
    back: MultiPointCollection,
)
    requires
        there.coordinates@.len() == original.coordinates@.len(),
        back.coordinates@.len() == there.coordinates@.len(),
        forall|f: int|
            0 <= f < original.coordinates@.len() ==> (#[trigger] there.coordinates@[f])@.len()
                == original.coordinates@[f]@.len(),
        forall|f: int|
            0 <= f < there.coordinates@.len() ==> (#[trigger] back.coordinates@[f])@.len()
                == there.coordinates@[f]@.len(),
        forall|f: int, i: int|
            0 <= f < original.coordinates@.len() && 0 <= i < (#[trigger]
            original.coordinates@[f])@.len() ==> forward.proj_spec(
                #[trigger] original.coordinates@[f]@[i],
            ) == Some(there.coordinates@[f]@[i]),
        forall|f: int, i: int|
            0 <= f < there.coordinates@.len() && 0 <= i < (#[trigger] there.coordinates@[f])@.len()
                ==> backward.proj_spec(#[trigger] there.coordinates@[f]@[i]) == Some(
                back.coordinates@[f]@[i],
            ),
        forall|c: Coordinate2D, m: Coordinate2D|
            #![trigger forward.proj_spec(c), backward.proj_spec(m)]
            forward.proj_spec(c) == Some(m) ==> backward.proj_spec(m) == Some(c),
    ensures
        forall|f: int|
            0 <= f < original.coordinates@.len() ==> (#[trigger] back.spec_geometries()[f])
                == original.spec_geometries()[f],
{
    assert forall|f: int| 0 <= f < original.coordinates@.len() implies (#[trigger]
    back.spec_geometries()[f]) == original.spec_geometries()[f] by {
        assert(original.spec_geometries()[f] == original.coordinates@[f]@);
        assert(there.spec_geometries()[f] == there.coordinates@[f]@);
        assert(back.spec_geometries()[f] == back.coordinates@[f]@);
        lemma_reprojection_round_trip(
            forward,
            backward,
            original.coordinates@[f]@,
            there.coordinates@[f]@,
            back.coordinates@[f]@,
        );
    }
}

/// The first source tile that holds coordinate `c`, and its pixel there.
pub open spec fn spec_lookup_first(tiles: Seq<RasterTile>, c: Coordinate2D) -> Option<(int, i64)>
    decreases tiles.len(),
{
    if tiles.len() == 0 {
        Option::None
    } else {
        match spec_pixel_value(tiles[0], c) {
            Option::Some(v) => Option::Some((0int, v)),
            Option::None => match spec_lookup_first(tiles.subrange(1, tiles.len() as int), c) {
                Option::Some(p) => Option::Some((p.0 + 1, p.1)),
                Option::None => Option::None,
            },
        }
    }
}

/// The coordinate range the affine sampling arithmetic admits.
pub open spec fn spec_coord_in_range(c: Coordinate2D) -> bool {
    -0x200_0000_0000 <= c.x <= 0x200_0000_0000 && -0x200_0000_0000 <= c.y <= 0x200_0000_0000
}

/// The output pixel of the coordinate-lookup fold: the source pixel under
/// the projected coordinate, or the fill value when the coordinate has no
/// image or leaves the supported range, no source tile holds it, or the
/// source pixel is no-data.
pub open spec fn spec_lookup_pixel<P: CoordinateProjection>(
    projection: P,
    tiles: Seq<RasterTile>,
    c: Coordinate2D,
    fill: i64,
) -> i64 {
    match projection.proj_spec(c) {
        Option::Some(sc) => if spec_coord_in_range(sc) {
            match spec_lookup_first(tiles, sc) {
                Option::Some(p) => if tiles[p.0].data.spec_is_no_data(p.1) {
                    fill
                } else {
                    p.1
                },
                Option::None => fill,
            }
        } else {
            fill
        },
        Option::None => fill,
    }
}

/// Looks one coordinate up in the source tiles: the first tile holding it,
/// and its pixel there.
fn lookup_source(tiles: &Vec<RasterTile>, c: Coordinate2D) -> (r: Option<(usize, i64)>)
    requires
        forall|k: int| 0 <= k < tiles@.len() ==> (#[trigger] tiles@[k]).wf(),
        -0x200_0000_0000 <= c.x <= 0x200_0000_0000,
        -0x200_0000_0000 <= c.y <= 0x200_0000_0000,
    ensures
        r is Some <==> spec_lookup_first(tiles@, c) is Some,
        r matches Some(p) ==> spec_lookup_first(tiles@, c) == Some((p.0 as int, p.1)) && p.0
            < tiles@.len(),
{
    let mut t: usize = 0;
    proof {
        assert(tiles@.subrange(0, tiles@.len() as int) =~= tiles@);
    }
    while t < tiles.len()
        invariant
            t <= tiles@.len(),
            spec_lookup_first(tiles@, c) == (match spec_lookup_first(
                tiles@.subrange(t as int, tiles@.len() as int),
                c,
            ) {
                Option::Some(p) => Option::Some((p.0 + t, p.1)),
                Option::None => Option::<(int, i64)>::None,
            }),
        decreases tiles@.len() - t,
    {
        proof {
            let s = tiles@.subrange(t as int, tiles@.len() as int);
            assert(s[0] == tiles@[t as int]);
            assert(s.subrange(1, s.len() as int) =~= tiles@.subrange(
                t + 1,
                tiles@.len() as int,
            ));
        }
        let tile = &tiles[t];
        let idx = tile.tile.global_geo_transform.coordinate_to_grid_idx_2d(c);
        match tile.get_at_grid_index(idx) {
            Option::Some(v) => {
                proof {
                    assert(spec_pixel_value(tiles@[t as int], c) == Option::Some(v));
                }
                return Some((t, v));
            },
            Option::None => {
                proof {
                    assert(spec_pixel_value(tiles@[t as int], c) is None);
                }
            },
        }
        t = t + 1;
    }
    proof {
        assert(tiles@.subrange(tiles@.len() as int, tiles@.len() as int)
            =~= Seq::<RasterTile>::empty());
    }
    None
}

/// The coordinate of the owned (upper-left) corner of the target tile's
/// pixel (y, x), in the target reference.
pub open spec fn spec_target_pixel_coord(target: TileInformation, y: int, x: int) -> Coordinate2D {
    let t = target.global_geo_transform;
    Coordinate2D {
        x: t.spec_grid_to_coord_x(target.global_pixel_position.x + x) as i64,
        y: t.spec_grid_to_coord_y(target.global_pixel_position.y + y) as i64,
    }
}

/// The corner coordinates of every pixel of the tile lie within the range
/// the affine arithmetic admits.
pub open spec fn spec_tile_coords_in_range(target: TileInformation) -> bool {
    forall|y: int, x: int|
        #![trigger target.global_geo_transform.spec_grid_to_coord_x(target.global_pixel_position.x + x), target.global_geo_transform.spec_grid_to_coord_y(target.global_pixel_position.y + y)]
        0 <= y <= target.tile_size_in_pixels.y && 0 <= x <= target.tile_size_in_pixels.x ==> (
        -0x200_0000_0000 <= target.global_geo_transform.spec_grid_to_coord_x(
            target.global_pixel_position.x + x,
        ) <= 0x200_0000_0000 && -0x200_0000_0000
            <= target.global_geo_transform.spec_grid_to_coord_y(
            target.global_pixel_position.y + y,
        ) <= 0x200_0000_0000)
}

/// Builds one output tile of a reprojection by coordinate lookup: every
/// output pixel's owned corner is projected into the source reference and
/// sampled from the first source tile that holds it; pixels without an
/// image, without a source tile, or hitting a no-data source pixel get the
/// fill value, which also becomes the tile's no-data value.
#[verifier::rlimit(100)]
#[verifier::spinoff_prover]
pub fn fold_by_coordinate_lookup<P: CoordinateProjection>(
    target: TileInformation,
    time: TimeInterval,
    fill_value: i64,
    projection: &P,
    sources: &Vec<RasterTile>,
) -> (r: RasterTile)
    requires
        target.wf(),
        time.wf(),
        spec_tile_coords_in_range(target),
        forall|k: int| 0 <= k < sources@.len() ==> (#[trigger] sources@[k]).wf(),
    ensures
        r.wf(),
        r.time == time,
        r.tile == target,
        r.data.shape == target.tile_size_in_pixels,
        r.data.no_data_value == Some(fill_value),
        forall|y: int, x: int|
            #![trigger spec_target_pixel_coord(target, y, x)]
            0 <= y < target.tile_size_in_pixels.y && 0 <= x < target.tile_size_in_pixels.x
                ==> r.data.spec_value_at(y, x) == spec_lookup_pixel(
                *projection,
                sources@,
                spec_target_pixel_coord(target, y, x),
                fill_value,
            ),
{
    let shape = target.tile_size_in_pixels;
    let sx = shape.x;
    let n = shape.number_of_elements();
    let mut data: Vec<i64> = Vec::new();
    let mut p: usize = 0;
    while p < n
        invariant
            p <= n,
            n == shape.spec_number_of_elements(),
            sx == shape.x,
            data@.len() == p,
            forall|q: int|
                0 <= q < p ==> (#[trigger] data@[q]) == spec_lookup_pixel(
                    *projection,
                    sources@,
                    spec_target_pixel_coord(target, q / (sx as int), q % (sx as int)),
                    fill_value,
                ),
        decreases n - p,
    {
        let y = p / sx;
        let x = p % sx;
        proof {
            vstd::arithmetic::div_mod::lemma_fundamental_div_mod(p as int, sx as int);
            assert((p as int) / (sx as int) < shape.y) by (nonlinear_arith)
                requires
                    0 < sx,
                    0 < shape.y,
                    (sx as int) * ((p as int) / (sx as int)) + ((p as int) % (sx as int)) == p as int,
                    0 <= ((p as int) % (sx as int)) < sx as int,
                    p < shape.y * (sx as int),
            ;
            crate::raster::lemma_pixel_position_in_range(
                target.global_tile_position,
                target.tile_size_in_pixels,
            );
        }
        let gidx = GridIdx2D {
            y: target.global_pixel_position.y + (y as i64),
            x: target.global_pixel_position.x + (x as i64),
        };
        let corner = target.global_geo_transform.grid_2d_to_coordinate_2d(gidx);
        let v: i64 = match projection.project(corner) {
            Ok(sc) => {
                if -0x200_0000_0000 <= sc.x && sc.x <= 0x200_0000_0000 && -0x200_0000_0000 <= sc.y
                    && sc.y <= 0x200_0000_0000 {
                    match lookup_source(sources, sc) {
                        Option::Some(found) => {
                            let tile = &sources[found.0];
                            let is_nd = match tile.data.no_data_value {
                                Option::Some(nd) => nd == found.1,
                                Option::None => false,
                            };
                            if is_nd {
                                fill_value
                            } else {
                                found.1
                            }
                        },
                        Option::None => fill_value,
                    }
                } else {
                    fill_value
                }
            },
            Err(_) => fill_value,
        };
        data.push(v);
        p = p + 1;
    }
    let grid = Grid2D { shape, data, no_data_value: Some(fill_value) };
    let r = RasterTile { time, tile: target, data: grid };
    proof {
        assert forall|y: int, x: int|
            #![trigger spec_target_pixel_coord(target, y, x)]
            0 <= y < target.tile_size_in_pixels.y && 0 <= x
                < target.tile_size_in_pixels.x implies r.data.spec_value_at(y, x)
            == spec_lookup_pixel(
            *projection,
            sources@,
            spec_target_pixel_coord(target, y, x),
            fill_value,
        ) by {
            crate::grid::lemma_lin_index_in_bounds(shape, y, x);
            let q = y * (sx as int) + x;
            vstd::arithmetic::div_mod::lemma_fundamental_div_mod_converse_div(
                q,
                sx as int,
                y,
                x,
            );
            vstd::arithmetic::div_mod::lemma_fundamental_div_mod_converse_mod(
                q,
                sx as int,
                y,
                x,
            );
            assert((sx as int) * y + x == q) by (nonlinear_arith)
                requires
                    q == y * (sx as int) + x,
            ;
        }
    }
    r
}

/// Identity reprojection of raster data is the identity, up to no-data
/// substitution: with the identity projection and the tile itself as the
/// source, every looked-up pixel is the tile's own pixel, or the fill
/// value where that pixel is no-data.
pub proof fn lemma_identity_reprojection_raster(
    p: IdentityProjection,
    s: RasterTile,
    fill_value: i64,
    y: int,
    x: int,
)
    requires
        s.wf(),
        spec_tile_coords_in_range(s.tile),
        0 <= y < s.tile.tile_size_in_pixels.y,
        0 <= x < s.tile.tile_size_in_pixels.x,
    ensures
        spec_lookup_pixel(p, seq![s], spec_target_pixel_coord(s.tile, y, x), fill_value) == (
        if s.data.spec_is_no_data(s.data.spec_value_at(y, x)) {
            fill_value
        } else {
            s.data.spec_value_at(y, x)
        }),
{
    let t = s.tile.global_geo_transform;
    let px = s.tile.global_pixel_position.x as int;
    let py = s.tile.global_pixel_position.y as int;
    let c = spec_target_pixel_coord(s.tile, y, x);
    crate::raster::lemma_pixel_position_in_range(
        s.tile.global_tile_position,
        s.tile.tile_size_in_pixels,
    );
    assert(-0x4000_0000_0000_0000 <= (px + x) * t.x_pixel_size <= 0x4000_0000_0000_0000)
        by (nonlinear_arith)
        requires
            -0x200_0000_8000 <= px + x <= 0x200_0000_8000,
            0 < t.x_pixel_size <= 0x10_0000,
    ;
    assert(-0x4000_0000_0000_0000 <= (py + y) * t.y_pixel_size <= 0x4000_0000_0000_0000)
        by (nonlinear_arith)
        requires
            -0x200_0000_8000 <= py + y <= 0x200_0000_8000,
            -0x10_0000 <= t.y_pixel_size < 0,
    ;
    assert(c.x as int == t.spec_grid_to_coord_x(px + x));
    assert(c.y as int == t.spec_grid_to_coord_y(py + y));
    assert((px + x) * t.x_pixel_size < (px + x + 1) * t.x_pixel_size) by (nonlinear_arith)
        requires
            t.x_pixel_size > 0,
    ;
    assert((py + y + 1) * t.y_pixel_size < (py + y) * t.y_pixel_size) by (nonlinear_arith)
        requires
            t.y_pixel_size < 0,
    ;
    crate::grid::lemma_grid_cell_half_open(t, px + x, c.x as int);
    crate::grid::lemma_grid_cell_half_open_y(t, py + y, c.y as int);
    assert(spec_pixel_value(s, c) == Some(s.data.spec_value_at(y, x)));
    let sgl = seq![s];
    assert(sgl.subrange(1, 1) =~= Seq::<RasterTile>::empty());
    assert(spec_lookup_first(sgl, c) == Some((0int, s.data.spec_value_at(y, x))));
}

} // verus!
