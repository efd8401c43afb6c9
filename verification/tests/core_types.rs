//! Tests of the core value types: time, spatial references, grids, tiling,
//! and collections.

use geoengine::collections::{ColumnData, MultiPoint, MultiPointCollection, Ratio};
use geoengine::grid::{floor_div, GeoTransform, Grid2D, GridIdx2D, GridShape2D};
use geoengine::primitives::{Coordinate2D, SpatialPartition2D, SpatialResolution};
use geoengine::services::tasks::{TaskError, TaskId};
use geoengine::services::users::{UserId, UserInfo};
use geoengine::services::util::{IdResponse, UserInput};
use geoengine::spatial_reference::{
    u32_decimal_string, SpatialReference, SpatialReferenceAuthority,
};
use geoengine::tiling::{tile_grid_for_partition, TilingSpecification};
use geoengine::time::{TimeInstance, TimeInterval};

#[test]
fn time_interval_half_open() {
    // start <= end is enforced at construction
    assert!(TimeInterval::new_millis(10, 5).is_err());
    let iv = TimeInterval::new_millis(5, 10).unwrap();
    // membership is start <= t < end
    assert!(!iv.contains(TimeInstance::from_millis(4)));
    assert!(iv.contains(TimeInstance::from_millis(5)));
    assert!(iv.contains(TimeInstance::from_millis(9)));
    assert!(!iv.contains(TimeInstance::from_millis(10)));
    // the empty interval holds nothing
    let empty = TimeInterval::new_millis(5, 5).unwrap();
    assert!(!empty.contains(TimeInstance::from_millis(5)));
}

#[test]
fn time_interval_intersection() {
    let a = TimeInterval::new_millis(0, 10).unwrap();
    let b = TimeInterval::new_millis(9, 20).unwrap();
    let c = TimeInterval::new_millis(10, 20).unwrap();
    assert!(a.intersects(b));
    assert!(!a.intersects(c));
    assert_eq!(a.duration_ms(), 10);
}

#[test]
fn time_instance_parses_rfc3339() {
    let t = TimeInstance::from_str("2014-01-01T00:00:00.0Z").unwrap();
    assert_eq!(t.inner(), 1_388_534_400_000);
    let t2 = TimeInstance::from_str("1970-01-01T00:00:01Z").unwrap();
    assert_eq!(t2.inner(), 1000);
    assert!(TimeInstance::from_str("not a timestamp").is_err());
}

#[test]
fn srs_strings() {
    let srs = SpatialReference::new(SpatialReferenceAuthority::Epsg, 4326);
    assert_eq!(srs.srs_string(), "EPSG:4326");
    assert_eq!(srs.proj_string().unwrap(), "EPSG:4326");
    assert_eq!(
        SpatialReference::new(SpatialReferenceAuthority::SrOrg, 42)
            .srs_string(),
        "SR-ORG:42"
    );
    assert!(SpatialReference::new(SpatialReferenceAuthority::Esri, 1)
        .proj_string()
        .is_err());
    let geos = SpatialReference::new(SpatialReferenceAuthority::SrOrg, 81);
    assert!(geos.proj_string().unwrap().starts_with("+proj=geos"));
    assert_eq!(u32_decimal_string(0), "0");
    assert_eq!(u32_decimal_string(900913), "900913");
}

#[test]
fn srs_strings_parse_back() {
    // parsing accepts the rendered form and plain digit strings
    let srs = SpatialReference::from_str("EPSG:4326").unwrap();
    assert_eq!(*srs.authority(), SpatialReferenceAuthority::Epsg);
    assert_eq!(srs.code(), 4326);
    let srs = SpatialReference::from_str("SR-ORG:81").unwrap();
    assert_eq!(*srs.authority(), SpatialReferenceAuthority::SrOrg);
    assert_eq!(srs.code(), 81);
    assert_eq!(SpatialReference::from_str("IAU2000:0").unwrap().code(), 0);
    assert_eq!(
        SpatialReference::from_str(&SpatialReference::new(SpatialReferenceAuthority::Esri, 54009).srs_string())
            .unwrap()
            .code(),
        54009
    );
    // leading zeros are accepted, as in a plain integer parse
    assert_eq!(SpatialReference::from_str("EPSG:04326").unwrap().code(), 4326);
    assert_eq!(SpatialReference::from_str("EPSG:00").unwrap().code(), 0);
    // malformed strings are rejected
    assert!(SpatialReference::from_str("EPSG").is_err());
    assert!(SpatialReference::from_str("EPSG:").is_err());
    assert!(SpatialReference::from_str("WGS:4326").is_err());
    assert!(SpatialReference::from_str("EPSG:12x4").is_err());
    assert!(SpatialReference::from_str("EPSG:+4326").is_err());
    assert!(SpatialReference::from_str("EPSG:99999999999").is_err());
}

#[test]
fn floor_division_rounds_down() {
    assert_eq!(floor_div(7, 2), 3);
    assert_eq!(floor_div(-7, 2), -4);
    assert_eq!(floor_div(-8, 2), -4);
    assert_eq!(floor_div(0, 5), 0);
}

#[test]
fn geo_transform_round_trip() {
    let t = GeoTransform::new(Coordinate2D::new(0, 0), 1, -1);
    // the owned corner of a pixel maps back to the pixel
    let c = t.grid_2d_to_coordinate_2d(GridIdx2D::new(2, 3));
    assert_eq!((c.x, c.y), (3, -2));
    let idx = t.coordinate_to_grid_idx_2d(c);
    assert_eq!((idx.y, idx.x), (2, 3));
    // a coordinate strictly inside a cell maps to the owning pixel
    let idx2 = t.coordinate_to_grid_idx_2d(Coordinate2D::new(3, -2));
    assert_eq!((idx2.y, idx2.x), (2, 3));
}

#[test]
fn tile_grid_covers_partition() {
    let spec = TilingSpecification::new(
        Coordinate2D::new(0, 0),
        GridShape2D::new(2, 2),
    );
    let partition = SpatialPartition2D::new(
        Coordinate2D::new(0, 2),
        Coordinate2D::new(4, 0),
    )
    .unwrap();
    let resolution = SpatialResolution::new(1, 1).unwrap();
    let grid = tile_grid_for_partition(&spec, partition, resolution).unwrap();
    // four columns of pixels and two rows -> two tile columns, one tile row
    assert_eq!(grid.x_min, 0);
    assert_eq!(grid.cols, 2);
    assert_eq!(grid.y_min, -1);
    assert_eq!(grid.rows, 1);
    assert_eq!(grid.count(), 2);
}

#[test]
fn grid_access_and_validation() {
    let shape = GridShape2D::new(2, 3);
    assert!(Grid2D::new(shape, vec![1, 2, 3], None).is_err());
    let g = Grid2D::new(shape, vec![1, 2, 3, 4, 5, 6], Some(4)).unwrap();
    assert_eq!(g.value_at(0, 0), 1);
    assert_eq!(g.value_at(1, 2), 6);
    assert_eq!(g.no_data_value(), Some(4));
}

#[test]
fn collection_columns() {
    let points = vec![
        MultiPoint::new(vec![Coordinate2D::new(0, 0)]),
        MultiPoint::new(vec![Coordinate2D::new(1, 0)]),
    ];
    let times = vec![
        TimeInterval::new_millis(0, 1).unwrap(),
        TimeInterval::new_millis(0, 1).unwrap(),
    ];
    let c = MultiPointCollection::from_data(points, times).unwrap();
    assert_eq!(c.len(), 2);
    let with_col = c
        .add_column("a".to_string(), ColumnData::Int(vec![Some(1), None]))
        .unwrap();
    // length mismatch is rejected
    assert!(c
        .add_column("b".to_string(), ColumnData::Int(vec![Some(1)]))
        .is_err());
    // duplicate names are rejected
    assert!(with_col
        .add_column("a".to_string(), ColumnData::Int(vec![None, None]))
        .is_err());
    assert!(with_col.data(&"a".to_string()).is_some());
    assert!(with_col.data(&"missing".to_string()).is_none());
    assert!(Ratio::new(1, 0).is_err());
}

#[test]
fn service_value_types() {
    let info = UserInfo::anonymous(UserId { id: 7 });
    assert_eq!(info.id.id, 7);
    assert!(info.email.is_none());
    let resp = IdResponse::from_id(UserId { id: 9 });
    assert_eq!(resp.id.id, 9);
    let err = TaskError::TaskAborted {
        task_id: TaskId { id: 3 },
    };
    assert_eq!(err.task_id().id, 3);
    // join parameters validate their name count
    let params = geoengine::processing::raster_vector_join::RasterVectorJoinParams {
        names: vec![],
        aggregation: geoengine::processing::raster_vector_join::AggregationMethod::First,
    };
    assert!(params.validated().is_err());
    let params = geoengine::processing::raster_vector_join::RasterVectorJoinParams {
        names: vec!["a".to_string()],
        aggregation: geoengine::processing::raster_vector_join::AggregationMethod::First,
    };
    assert!(params.validated().is_ok());
}
