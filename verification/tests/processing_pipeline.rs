//! Tests of the processing operators and the engine: scaling, the
//! raster-vector join, reprojection, and operator initialization.

use geoengine::adapters::raster_time_substream::time_groups;
use geoengine::collections::{ColumnData, MultiPoint, MultiPointCollection, Ratio};
use geoengine::dataset::DatasetId;
use geoengine::engine::execution_context::{
    EngineError, MockDataSetDataSourceLoadingInfo, MockExecutionContext,
};
use geoengine::engine::operator::{
    initialize_plot_operator, initialize_vector_operator, MockDataSetDataSourceParams,
    MockRasterSourceParams, PlotOperator, RasterOperator, TypedOperator, VectorOperator,
};
use geoengine::engine::query_processor::{
    MockDataSetDataSourceProcessor, MockRasterSourceProcessor, TypedRasterQueryProcessor,
};
use geoengine::engine::result_descriptor::{
    Measurement, RasterDataType, RasterResultDescriptor,
};
use geoengine::grid::{GeoTransform, Grid2D, GridIdx2D, GridShape2D};
use geoengine::plot::histogram::{HistogramBounds, HistogramParams};
use geoengine::primitives::{
    BoundingBox2D, Coordinate2D, QueryRectangle, SpatialPartition2D, SpatialResolution,
};
use geoengine::processing::raster_scaling::{
    scale_tile_with_properties, transform_grid, PropertiesKeyOrValue, RasterProperties,
    ScalingMode, ScalingError,
};
use geoengine::processing::raster_vector_join::{
    extract_raster_values, AggregationMethod, FeatureAggregationMethod,
    RasterPointAggregateJoinProcessor, RasterVectorJoinParams, TemporalAggregationMethod,
};
use geoengine::processing::reprojection::{
    fold_by_coordinate_lookup, query_rewrite_fn, reproject_collection, IdentityProjection,
};
use geoengine::raster::{RasterTile, TileInformation};
use geoengine::spatial_reference::SpatialReferenceOption;
use geoengine::time::TimeInterval;

fn transform() -> GeoTransform {
    GeoTransform::new(Coordinate2D::new(0, 0), 1, -1)
}

fn tile_3x2(values: Vec<i64>, time: TimeInterval, no_data: Option<i64>) -> RasterTile {
    let shape = GridShape2D::new(3, 2);
    let info = TileInformation::new_aligned(
        GridShape2D::new(1, 1),
        GridIdx2D::new(0, 0),
        shape,
        transform(),
    );
    RasterTile::new(time, info, Grid2D::new(shape, values, no_data).unwrap())
}

fn six_points() -> MultiPointCollection {
    let coords = vec![(0, 0), (1, 0), (0, -1), (1, -1), (0, -2), (1, -2)];
    MultiPointCollection::from_data(
        coords
            .into_iter()
            .map(|(x, y)| MultiPoint::new(vec![Coordinate2D::new(x, y)]))
            .collect(),
        vec![TimeInterval::new_millis(0, 20).unwrap(); 6],
    )
    .unwrap()
}

#[test]
fn scale_and_unscale_pixels() {
    let shape = GridShape2D::new(2, 2);
    let grid = Grid2D::new(shape, vec![7, 7, 7, 6], None).unwrap();
    // unscaling computes p * slope + offset
    let unscaled = transform_grid(&grid, 2, 1, ScalingMode::Unscale).unwrap();
    assert_eq!(unscaled.data, vec![15, 15, 15, 13]);
    // scaling inverts it
    let rescaled = transform_grid(&unscaled, 2, 1, ScalingMode::Scale).unwrap();
    assert_eq!(rescaled.data, vec![7, 7, 7, 6]);
    // a slope of zero cannot be inverted
    assert!(transform_grid(&grid, 0, 1, ScalingMode::Scale).is_err());
    // the no-data value passes through untouched
    let grid_nd = Grid2D::new(shape, vec![7, 9, 7, 6], Some(9)).unwrap();
    let out = transform_grid(&grid_nd, 2, 1, ScalingMode::Unscale).unwrap();
    assert_eq!(out.data, vec![15, 9, 15, 13]);
}

#[test]
fn scaling_resolves_slope_and_offset_from_properties() {
    // slope and offset read from the raster's metadata, as the sensor
    // calibration variant of the scaling operator does
    let tile = tile_3x2(
        vec![7, 7, 7, 6, 7, 7],
        TimeInterval::new_millis(0, 1).unwrap(),
        None,
    );
    let properties = RasterProperties {
        entries: vec![("scale".to_string(), 2), ("offset".to_string(), 1)],
    };
    let slope = PropertiesKeyOrValue::MetadataKey("scale".to_string());
    let offset = PropertiesKeyOrValue::MetadataKey("offset".to_string());
    let unscaled =
        scale_tile_with_properties(&tile, &properties, &slope, &offset, ScalingMode::Unscale)
            .unwrap();
    assert_eq!(unscaled.data.data, vec![15, 15, 15, 13, 15, 15]);
    // a missing key fails with the missing-property error
    let missing = PropertiesKeyOrValue::MetadataKey("gain".to_string());
    assert_eq!(
        scale_tile_with_properties(&tile, &properties, &missing, &offset, ScalingMode::Unscale)
            .unwrap_err(),
        ScalingError::MissingProperty
    );
    // a constant needs no lookup
    let constant = PropertiesKeyOrValue::Constant(2);
    let scaled =
        scale_tile_with_properties(&unscaled, &properties, &constant, &offset, ScalingMode::Scale)
            .unwrap();
    assert_eq!(scaled.data.data, vec![7, 7, 7, 6, 7, 7]);
}

#[test]
fn join_first_aggregation_single_raster() {
    // six points over tile values [1..6]: first/first yields [1..6]
    let tiles = vec![tile_3x2(
        vec![1, 2, 3, 4, 5, 6],
        TimeInterval::new_millis(0, 20).unwrap(),
        None,
    )];
    let groups = time_groups(&tiles);
    let result = extract_raster_values(
        &six_points(),
        &tiles,
        &groups,
        "foo".to_string(),
        FeatureAggregationMethod::First,
        TemporalAggregationMethod::First,
        RasterDataType::U8,
    )
    .unwrap();
    match result.data(&"foo".to_string()).unwrap() {
        ColumnData::Int(cells) => {
            assert_eq!(
                cells,
                &vec![Some(1), Some(2), Some(3), Some(4), Some(5), Some(6)]
            );
        }
        _ => panic!("expected an integer column"),
    }
}

#[test]
fn join_first_aggregation_float_raster_yields_float_column() {
    // a first-sampled float raster yields a float column, matching the
    // schema the initialization promises for F32/F64 inputs
    let tiles = vec![tile_3x2(
        vec![1, 2, 3, 4, 5, 6],
        TimeInterval::new_millis(0, 20).unwrap(),
        None,
    )];
    let groups = time_groups(&tiles);
    let result = extract_raster_values(
        &six_points(),
        &tiles,
        &groups,
        "foo".to_string(),
        FeatureAggregationMethod::First,
        TemporalAggregationMethod::First,
        RasterDataType::F32,
    )
    .unwrap();
    match result.data(&"foo".to_string()).unwrap() {
        ColumnData::Float(cells) => {
            assert_eq!(cells[0], Some(Ratio { num: 1, den: 1 }));
            assert_eq!(cells[5], Some(Ratio { num: 6, den: 1 }));
        }
        _ => panic!("expected a float column"),
    }
}

#[test]
fn join_mean_aggregation_across_time() {
    // two time slices [6..1] and [1..6]: the temporal mean is 3.5 for
    // every feature, as the exact rational 7/2
    let tiles = vec![
        tile_3x2(
            vec![6, 5, 4, 3, 2, 1],
            TimeInterval::new_millis(0, 10).unwrap(),
            None,
        ),
        tile_3x2(
            vec![1, 2, 3, 4, 5, 6],
            TimeInterval::new_millis(10, 20).unwrap(),
            None,
        ),
    ];
    let groups = time_groups(&tiles);
    let result = extract_raster_values(
        &six_points(),
        &tiles,
        &groups,
        "foo".to_string(),
        FeatureAggregationMethod::First,
        TemporalAggregationMethod::Mean,
        RasterDataType::U8,
    )
    .unwrap();
    match result.data(&"foo".to_string()).unwrap() {
        ColumnData::Float(cells) => {
            assert_eq!(cells, &vec![Some(Ratio { num: 7, den: 2 }); 6]);
        }
        _ => panic!("expected a float column"),
    }
}

#[test]
fn join_mean_aggregation_two_spatial_tiles_per_time_step() {
    // two tiles per time step and two time steps; each multi-point feature
    // has one point in each tile, and mean/mean aggregation averages all
    // four samples of a feature
    let tile = |pos: i64, values: Vec<i64>, t: TimeInterval| {
        let shape = GridShape2D::new(3, 2);
        let info = TileInformation::new_aligned(
            GridShape2D::new(1, 2),
            GridIdx2D::new(0, pos),
            shape,
            transform(),
        );
        RasterTile::new(t, info, Grid2D::new(shape, values, None).unwrap())
    };
    let t0 = TimeInterval::new_millis(0, 10).unwrap();
    let t1 = TimeInterval::new_millis(10, 20).unwrap();
    let tiles = vec![
        tile(0, vec![6, 5, 4, 3, 2, 1], t0),
        tile(1, vec![60, 50, 40, 30, 20, 10], t0),
        tile(0, vec![1, 2, 3, 4, 5, 6], t1),
        tile(1, vec![10, 20, 30, 40, 50, 60], t1),
    ];
    let points = MultiPointCollection::from_data(
        vec![
            MultiPoint::new(vec![Coordinate2D::new(0, 0), Coordinate2D::new(2, 0)]),
            MultiPoint::new(vec![Coordinate2D::new(1, 0), Coordinate2D::new(3, 0)]),
        ],
        vec![TimeInterval::new_millis(0, 20).unwrap(); 2],
    )
    .unwrap();
    let groups = time_groups(&tiles);
    let result = extract_raster_values(
        &points,
        &tiles,
        &groups,
        "foo".to_string(),
        FeatureAggregationMethod::Mean,
        TemporalAggregationMethod::Mean,
        RasterDataType::U8,
    )
    .unwrap();
    match result.data(&"foo".to_string()).unwrap() {
        ColumnData::Float(cells) => {
            // (6 + 60 + 1 + 10) / 4 and (5 + 50 + 2 + 20) / 4
            assert_eq!(cells[0], Some(Ratio { num: 77, den: 4 }));
            assert_eq!(cells[1], Some(Ratio { num: 77, den: 4 }));
        }
        _ => panic!("expected a float column"),
    }
}

#[test]
fn join_skips_no_data_pixels() {
    // the pixel under the third point carries the no-data value: its
    // feature gets a null, never the sentinel value
    let tiles = vec![tile_3x2(
        vec![1, 2, 3, 4, 5, 6],
        TimeInterval::new_millis(0, 20).unwrap(),
        Some(3),
    )];
    let groups = time_groups(&tiles);
    let result = extract_raster_values(
        &six_points(),
        &tiles,
        &groups,
        "foo".to_string(),
        FeatureAggregationMethod::First,
        TemporalAggregationMethod::First,
        RasterDataType::U8,
    )
    .unwrap();
    match result.data(&"foo".to_string()).unwrap() {
        ColumnData::Int(cells) => {
            assert_eq!(
                cells,
                &vec![Some(1), Some(2), None, Some(4), Some(5), Some(6)]
            );
        }
        _ => panic!("expected an integer column"),
    }
    // a column name the collection already carries is rejected
    let named = six_points()
        .add_column("foo".to_string(), ColumnData::Int(vec![None; 6]))
        .unwrap();
    assert!(extract_raster_values(
        &named,
        &tiles,
        &groups,
        "foo".to_string(),
        FeatureAggregationMethod::First,
        TemporalAggregationMethod::First,
        RasterDataType::U8,
    )
    .is_err());
}

#[test]
fn join_processor_appends_one_column_per_raster() {
    // two raster inputs give two output columns; a repeated name fails
    let tiles_a = vec![tile_3x2(
        vec![1, 2, 3, 4, 5, 6],
        TimeInterval::new_millis(0, 20).unwrap(),
        None,
    )];
    let tiles_b = vec![tile_3x2(
        vec![10, 20, 30, 40, 50, 60],
        TimeInterval::new_millis(0, 20).unwrap(),
        None,
    )];
    let processor = RasterPointAggregateJoinProcessor::new(
        vec!["a".to_string(), "b".to_string()],
        vec![RasterDataType::U8, RasterDataType::U8],
        FeatureAggregationMethod::First,
        TemporalAggregationMethod::First,
    );
    let out = processor
        .query(&six_points(), &vec![tiles_a.clone(), tiles_b.clone()])
        .unwrap();
    match out.data(&"a".to_string()).unwrap() {
        ColumnData::Int(cells) => assert_eq!(cells[0], Some(1)),
        _ => panic!("expected an integer column"),
    }
    match out.data(&"b".to_string()).unwrap() {
        ColumnData::Int(cells) => assert_eq!(cells[5], Some(60)),
        _ => panic!("expected an integer column"),
    }
    let duplicate = RasterPointAggregateJoinProcessor::new(
        vec!["a".to_string(), "a".to_string()],
        vec![RasterDataType::U8, RasterDataType::U8],
        FeatureAggregationMethod::First,
        TemporalAggregationMethod::First,
    );
    assert!(duplicate
        .query(&six_points(), &vec![tiles_a, tiles_b])
        .is_err());
}

#[test]
fn identity_reprojection_of_vector_data() {
    // reprojecting into the own reference reproduces every coordinate
    let collection = six_points();
    let out = reproject_collection(&collection, &IdentityProjection {}).unwrap();
    for f in 0..6 {
        assert_eq!(
            out.coordinates[f].coordinates,
            collection.coordinates[f].coordinates
        );
    }
    // the identity also rewrites a query rectangle into itself
    let query = QueryRectangle {
        spatial_bounds: BoundingBox2D::new(
            Coordinate2D::new(0, -3),
            Coordinate2D::new(2, 0),
        )
        .unwrap(),
        time_interval: TimeInterval::new_millis(0, 20).unwrap(),
        spatial_resolution: SpatialResolution::new(1, 1).unwrap(),
    };
    let suggested = SpatialResolution::new(2, 2).unwrap();
    let rewritten = query_rewrite_fn(query, &IdentityProjection {}, suggested).unwrap();
    assert_eq!(rewritten.spatial_bounds.lower_left().x, 0);
    assert_eq!(rewritten.spatial_bounds.upper_right().y, 0);
    assert_eq!(rewritten.time_interval, query.time_interval);
    // the rewritten query carries the caller-suggested source resolution
    assert_eq!(rewritten.spatial_resolution, suggested);
}

#[test]
fn raster_identity() {
    // identity reprojection of a tile onto its own grid reproduces it
    let time = TimeInterval::new_millis(0, 5).unwrap();
    let source = tile_3x2(vec![1, 2, 3, 4, 5, 6], time, None);
    let target = source.tile;
    let out = fold_by_coordinate_lookup(
        target,
        time,
        0,
        &IdentityProjection {},
        &vec![source],
    );
    assert_eq!(out.data.data, vec![1, 2, 3, 4, 5, 6]);
    assert_eq!(out.time, time);
    // a pixel nobody covers gets the fill value
    let empty_out = fold_by_coordinate_lookup(
        target,
        time,
        -1,
        &IdentityProjection {},
        &Vec::new(),
    );
    assert_eq!(empty_out.data.data, vec![-1; 6]);
    assert_eq!(empty_out.data.no_data_value(), Some(-1));
}

fn mock_raster_operator() -> RasterOperator {
    RasterOperator::MockRasterSource {
        params: MockRasterSourceParams {
            data: vec![tile_3x2(
                vec![1, 2, 3, 4, 5, 6],
                TimeInterval::new_millis(0, 20).unwrap(),
                None,
            )],
            result_descriptor: RasterResultDescriptor {
                data_type: RasterDataType::U8,
                spatial_reference: SpatialReferenceOption::Unreferenced,
                measurement: Measurement::Unitless,
                no_data_value: None,
            },
        },
    }
}

#[test]
fn initialize_join_validates_arity() {
    let mut ctx = MockExecutionContext::new(geoengine::tiling::TilingSpecification::new(
        Coordinate2D::new(0, 0),
        GridShape2D::new(2, 2),
    ));
    let dataset = DatasetId { id: 1 };
    ctx.add_meta_data(
        dataset,
        MockDataSetDataSourceLoadingInfo {
            points: vec![Coordinate2D::new(0, 0)],
        },
    );
    let mock_vector = || VectorOperator::MockDataSetDataSource {
        params: MockDataSetDataSourceParams { data_set: dataset },
    };
    // an unknown dataset fails initialization
    let unknown = VectorOperator::MockDataSetDataSource {
        params: MockDataSetDataSourceParams {
            data_set: DatasetId { id: 99 },
        },
    };
    assert!(matches!(
        initialize_vector_operator(unknown, &ctx),
        Err(EngineError::UnknownDatasetId)
    ));
    // the join needs at least one raster input
    let no_rasters = VectorOperator::RasterVectorJoin {
        params: RasterVectorJoinParams {
            names: vec![],
            aggregation: AggregationMethod::First,
        },
        vector_source: Box::new(mock_vector()),
        raster_sources: vec![],
    };
    assert!(matches!(
        initialize_vector_operator(no_rasters, &ctx),
        Err(EngineError::InvalidNumberOfRasterInputs)
    ));
    // one name per raster input
    let wrong_names = VectorOperator::RasterVectorJoin {
        params: RasterVectorJoinParams {
            names: vec!["a".to_string(), "b".to_string()],
            aggregation: AggregationMethod::First,
        },
        vector_source: Box::new(mock_vector()),
        raster_sources: vec![mock_raster_operator()],
    };
    assert!(matches!(
        initialize_vector_operator(wrong_names, &ctx),
        Err(EngineError::InvalidOperatorSpec)
    ));
    // a well-formed join initializes and appends its column to the schema
    let join = VectorOperator::RasterVectorJoin {
        params: RasterVectorJoinParams {
            names: vec!["ndvi".to_string()],
            aggregation: AggregationMethod::First,
        },
        vector_source: Box::new(mock_vector()),
        raster_sources: vec![mock_raster_operator()],
    };
    let initialized = initialize_vector_operator(join, &ctx).unwrap();
    let descriptor = geoengine::engine::operator::result_descriptor_of_vector(&initialized);
    assert_eq!(descriptor.columns.len(), 1);
    assert_eq!(descriptor.columns[0].0, "ndvi");
}

#[test]
fn initialize_histogram_validates_input() {
    let ctx = MockExecutionContext::new(geoengine::tiling::TilingSpecification::new(
        Coordinate2D::new(0, 0),
        GridShape2D::new(2, 2),
    ));
    let params = HistogramParams {
        column_name: None,
        bounds: HistogramBounds::Values { min: 0, max: 8 },
        buckets: Some(3),
        interactive: false,
    };
    // exactly one source is required
    let none = PlotOperator::Histogram {
        params: HistogramParams {
            column_name: None,
            bounds: HistogramBounds::Data,
            buckets: None,
            interactive: false,
        },
        raster_sources: vec![],
        vector_sources: vec![],
    };
    assert!(matches!(
        initialize_plot_operator(none, &ctx),
        Err(EngineError::InvalidNumberOfVectorInputs)
    ));
    // a raster source is enough
    let ok = PlotOperator::Histogram {
        params,
        raster_sources: vec![mock_raster_operator()],
        vector_sources: vec![],
    };
    assert!(initialize_plot_operator(ok, &ctx).is_ok());
}

#[test]
fn typed_operator_accessors() {
    let op = TypedOperator::Raster(mock_raster_operator());
    assert!(matches!(
        op.get_vector(),
        Err(EngineError::InvalidOperatorType)
    ));
    let op = TypedOperator::Raster(mock_raster_operator());
    assert!(op.get_raster().is_ok());
    let op = TypedOperator::Raster(mock_raster_operator());
    assert!(matches!(
        op.get_plot(),
        Err(EngineError::InvalidOperatorType)
    ));
}

#[test]
fn mock_processors_answer_queries() {
    // the raster source serves the tiles whose time intersects the query
    let t0 = TimeInterval::new_millis(0, 10).unwrap();
    let t1 = TimeInterval::new_millis(10, 20).unwrap();
    let processor = MockRasterSourceProcessor {
        data: vec![
            tile_3x2(vec![1, 2, 3, 4, 5, 6], t0, None),
            tile_3x2(vec![6, 5, 4, 3, 2, 1], t1, None),
        ],
    };
    let query = QueryRectangle {
        spatial_bounds: SpatialPartition2D::new(
            Coordinate2D::new(0, 0),
            Coordinate2D::new(2, -3),
        )
        .unwrap(),
        time_interval: TimeInterval::new_millis(0, 10).unwrap(),
        spatial_resolution: SpatialResolution::new(1, 1).unwrap(),
    };
    let tiles = processor.raster_query(&query);
    assert_eq!(tiles.len(), 1);
    assert_eq!(tiles[0].data.data, vec![1, 2, 3, 4, 5, 6]);

    // the point source serves one single-point feature per coordinate
    let vector_processor = MockDataSetDataSourceProcessor {
        loading_info: MockDataSetDataSourceLoadingInfo {
            points: vec![Coordinate2D::new(1, 2); 3],
        },
    };
    let vq = QueryRectangle {
        spatial_bounds: BoundingBox2D::new(
            Coordinate2D::new(0, 0),
            Coordinate2D::new(4, 4),
        )
        .unwrap(),
        time_interval: TimeInterval::new_millis(0, 10).unwrap(),
        spatial_resolution: SpatialResolution::new(1, 1).unwrap(),
    };
    let collection = vector_processor.query(&vq);
    assert_eq!(collection.len(), 3);

    // the typed processor carries the descriptor's pixel type
    let ctx = MockExecutionContext::new(geoengine::tiling::TilingSpecification::new(
        Coordinate2D::new(0, 0),
        GridShape2D::new(2, 2),
    ));
    let initialized =
        geoengine::engine::operator::initialize_raster_operator(mock_raster_operator(), &ctx);
    let typed = TypedRasterQueryProcessor::query_processor(initialized);
    assert!(matches!(typed, TypedRasterQueryProcessor::U8(_)));
}
