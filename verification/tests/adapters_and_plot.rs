//! Tests of the stream adapters and the histogram: sparse-tile filling,
//! chunk merging, and bucket counting.

use geoengine::adapters::feature_collection_merger::{byte_size, merge_chunks};
use geoengine::adapters::raster_subquery::raster_subquery_adapter;
use geoengine::adapters::raster_time_substream::time_groups;
use geoengine::adapters::sparse_tiles_fill_adapter::SparseTilesFillAdapter;
use geoengine::collections::{ColumnData, MultiPoint, MultiPointCollection, Ratio};
use geoengine::grid::{GeoTransform, Grid2D, GridIdx2D, GridShape2D};
use geoengine::plot::histogram::{
    histogram_counts_from_collections, histogram_counts_from_tiles,
    histogram_metadata_from_collections, histogram_metadata_from_tiles, Histogram,
    HistogramMetadata, HistogramMetadataInProgress, HistogramMetadataOptions,
};
use geoengine::primitives::Coordinate2D;
use geoengine::processing::reprojection::IdentityProjection;
use geoengine::raster::{RasterTile, TileInformation};
use geoengine::time::TimeInterval;

fn transform() -> GeoTransform {
    GeoTransform::new(Coordinate2D::new(0, 0), 1, -1)
}

fn tile_at(ty: i64, tx: i64, time: TimeInterval, shape: GridShape2D, value: i64) -> RasterTile {
    let info = TileInformation::new_aligned(
        GridShape2D::new(2, 2),
        GridIdx2D::new(ty, tx),
        shape,
        transform(),
    );
    let data = Grid2D::new_filled(shape, value, None);
    RasterTile::new(time, info, data)
}

#[test]
fn sparse_fill_completes_every_slot() {
    let shape = GridShape2D::new(1, 1);
    let t0 = TimeInterval::new_millis(0, 10).unwrap();
    let t1 = TimeInterval::new_millis(10, 20).unwrap();
    let grid = geoengine::tiling::TileGrid {
        y_min: 0,
        x_min: 0,
        rows: 2,
        cols: 2,
    };
    // canonical slots: (t, ty, tx) in row-major order per time slice;
    // the input occupies slots 1 and 6 and leaves the rest as gaps
    let input = vec![
        tile_at(0, 1, t0, shape, 7),
        tile_at(1, 0, t1, shape, 9),
    ];
    let mut adapter = SparseTilesFillAdapter::new(
        grid,
        vec![t0, t1],
        shape,
        transform(),
        -99,
        input,
    );
    assert_eq!(adapter.total(), 8);
    let mut seen: Vec<(i64, i64, i64, i64)> = Vec::new();
    let mut values: Vec<i64> = Vec::new();
    while let Some(tile) = adapter.next() {
        let pos = tile.tile.global_tile_position;
        seen.push((tile.time.start().inner(), tile.time.end().inner(), pos.y, pos.x));
        values.push(tile.data.data[0]);
    }
    // exactly one tile per (time slice x tile position), in canonical order
    assert_eq!(
        seen,
        vec![
            (0, 10, 0, 0),
            (0, 10, 0, 1),
            (0, 10, 1, 0),
            (0, 10, 1, 1),
            (10, 20, 0, 0),
            (10, 20, 0, 1),
            (10, 20, 1, 0),
            (10, 20, 1, 1),
        ]
    );
    // input tiles pass through, gaps carry the fill value
    assert_eq!(values, vec![-99, 7, -99, -99, -99, -99, 9, -99]);
    assert!(adapter.next().is_none());
}

#[test]
fn subquery_adapter_enumerates_slots() {
    // one output slot per (time slice, tile position), row-major; the
    // identity projection regrids the per-slice sub-query results
    let shape = GridShape2D::new(1, 1);
    let t0 = TimeInterval::new_millis(0, 10).unwrap();
    let t1 = TimeInterval::new_millis(10, 20).unwrap();
    let grid = geoengine::tiling::TileGrid {
        y_min: 0,
        x_min: 0,
        rows: 1,
        cols: 2,
    };
    let sources_per_time = vec![
        vec![tile_at(0, 0, t0, shape, 5), tile_at(0, 1, t0, shape, 6)],
        vec![tile_at(0, 1, t1, shape, 8)],
    ];
    let out = raster_subquery_adapter(
        grid,
        &vec![t0, t1],
        shape,
        transform(),
        -7,
        &IdentityProjection {},
        &sources_per_time,
    );
    assert_eq!(out.len(), 4);
    let values: Vec<i64> = out.iter().map(|t| t.data.data[0]).collect();
    // covered slots carry the source pixel, the uncovered slot the fill
    assert_eq!(values, vec![5, 6, -7, 8]);
    assert_eq!(out[2].data.no_data_value(), Some(-7));
    assert_eq!(out[3].time, t1);
    assert_eq!(out[3].tile.global_tile_position.x, 1);
}

#[test]
fn time_groups_split_runs() {
    let shape = GridShape2D::new(1, 1);
    let t0 = TimeInterval::new_millis(0, 10).unwrap();
    let t1 = TimeInterval::new_millis(10, 20).unwrap();
    let tiles = vec![
        tile_at(0, 0, t0, shape, 1),
        tile_at(0, 1, t0, shape, 2),
        tile_at(0, 0, t1, shape, 3),
    ];
    let groups = time_groups(&tiles);
    assert_eq!(groups, vec![(0, 2), (2, 3)]);
    assert_eq!(time_groups(&Vec::new()), Vec::<(usize, usize)>::new());
}

fn one_point_chunk(x: i64) -> MultiPointCollection {
    MultiPointCollection::from_data(
        vec![MultiPoint::new(vec![Coordinate2D::new(x, 0)])],
        vec![TimeInterval::new_millis(0, 1).unwrap()],
    )
    .unwrap()
}

#[test]
fn chunk_merge_respects_size_bound() {
    // a single-point feature weighs 40 + 16 bytes in the size model
    let chunks = vec![one_point_chunk(1), one_point_chunk(2), one_point_chunk(3)];
    assert_eq!(byte_size(&chunks[0]), 56);

    let merged = merge_chunks(&chunks, 112);
    assert_eq!(merged.len(), 2);
    assert_eq!(merged[0].len(), 2);
    assert_eq!(merged[1].len(), 1);
    // feature order is preserved end to end
    assert_eq!(merged[0].coordinates[0].coordinates[0].x, 1);
    assert_eq!(merged[0].coordinates[1].coordinates[0].x, 2);
    assert_eq!(merged[1].coordinates[0].coordinates[0].x, 3);
    for c in &merged {
        assert!(byte_size(c) <= 112);
    }
}

#[test]
fn chunk_merge_passes_oversized_through() {
    // every chunk alone exceeds the bound: each passes through unmerged
    let chunks = vec![one_point_chunk(1), one_point_chunk(2)];
    let merged = merge_chunks(&chunks, 50);
    assert_eq!(merged.len(), 2);
    assert_eq!(merged[0].len(), 1);
    assert_eq!(merged[1].len(), 1);
    // a large enough bound fuses everything into one collection
    let all = merge_chunks(&chunks, 1000);
    assert_eq!(all.len(), 1);
    assert_eq!(all[0].len(), 2);
}

#[test]
fn simple_raster() {
    // values [1..6] between bounds [0, 8] in 3 buckets count [2, 3, 1]
    let mut h = Histogram::new(3, 0, 8).unwrap();
    h.add_raster_data(&vec![1, 2, 3, 4, 5, 6], None);
    assert_eq!(h.counts(), &vec![2, 3, 1]);
}

#[test]
fn simple_raster_without_spec() {
    // bounds and bucket count derived from the data: six values, square
    // root rule gives two buckets over [1, 6]
    let shape = GridShape2D::new(3, 2);
    let info = TileInformation::new_aligned(
        GridShape2D::new(1, 1),
        GridIdx2D::new(0, 0),
        shape,
        transform(),
    );
    let data = Grid2D::new(shape, vec![1, 2, 3, 4, 5, 6], None).unwrap();
    let tiles = vec![RasterTile::new(
        TimeInterval::new_millis(0, 1).unwrap(),
        info,
        data,
    )];
    let options = HistogramMetadataOptions {
        number_of_buckets: None,
        min: None,
        max: None,
    };
    let metadata = histogram_metadata_from_tiles(&tiles, options);
    assert_eq!(
        metadata,
        HistogramMetadata {
            number_of_buckets: 2,
            min: 1,
            max: 6
        }
    );
    let h = histogram_counts_from_tiles(&tiles, metadata).unwrap();
    assert_eq!(h.counts(), &vec![3, 3]);
}

fn ratio(num: i64) -> Option<Ratio> {
    Some(Ratio { num, den: 1 })
}

#[test]
fn vector_data_with_nulls() {
    // a nullable float column [1., 2., null, 4., null, 5.]: nulls are
    // skipped for count, bounds and buckets; four values over [1, 5] give
    // two buckets counting [2, 2]
    let n = 6;
    let c = MultiPointCollection::from_data(
        (0..n).map(|_| MultiPoint::new(vec![])).collect(),
        vec![TimeInterval::new_millis(0, 1).unwrap(); n],
    )
    .unwrap();
    let c = c
        .add_column(
            "foo".to_string(),
            ColumnData::Float(vec![ratio(1), ratio(2), None, ratio(4), None, ratio(5)]),
        )
        .unwrap();
    let collections = vec![c];
    let name = "foo".to_string();
    let options = HistogramMetadataOptions {
        number_of_buckets: None,
        min: None,
        max: None,
    };
    let metadata = histogram_metadata_from_collections(&collections, &name, options).unwrap();
    assert_eq!(
        metadata,
        HistogramMetadata {
            number_of_buckets: 2,
            min: 1,
            max: 5
        }
    );
    let h = histogram_counts_from_collections(&collections, &name, metadata).unwrap();
    assert_eq!(h.counts(), &vec![2, 2]);
}

#[test]
fn vector_data_batch_primitives() {
    // the per-batch primitives behind the vector passes
    let mut meta = HistogramMetadataInProgress::new_empty();
    meta.add_vector_batch(&vec![Some(1), Some(2), None, Some(4), None, Some(5)]);
    assert_eq!(meta.n, 4);
    let resolved = meta.resolve();
    assert_eq!(resolved.number_of_buckets, 2);
    assert_eq!((resolved.min, resolved.max), (1, 5));
    let mut h = Histogram::new(2, 1, 5).unwrap();
    h.add_feature_data(&vec![Some(1), Some(2), None, Some(4), None, Some(5)]);
    assert_eq!(h.counts(), &vec![2, 2]);
}

#[test]
fn histogram_buckets_rationals_exactly() {
    // non-integer rationals: 1/2, 3/2, 5/2 and 7/2 between derived bounds
    // floor(1/2) = 0 and ceil(7/2) = 4, two buckets [0,2) and [2,4]
    let half = |num: i64| Some(Ratio { num, den: 2 });
    let cells = vec![half(1), half(3), half(5), half(7)];
    let mut meta = HistogramMetadataInProgress::new_empty();
    meta.add_ratio_batch(&cells);
    assert_eq!(meta.n, 4);
    let resolved = meta.resolve();
    assert_eq!((resolved.min, resolved.max), (0, 4));
    assert_eq!(resolved.number_of_buckets, 2);
    let mut h = Histogram::new(2, 0, 4).unwrap();
    h.add_ratio_data(&cells);
    // 0.5 and 1.5 fall into the first bucket, 2.5 and 3.5 into the second
    assert_eq!(h.counts(), &vec![2, 2]);
}

fn data_collection(values: Vec<Option<i64>>) -> MultiPointCollection {
    let n = values.len();
    let c = MultiPointCollection::from_data(
        (0..n).map(|_| MultiPoint::new(vec![])).collect(),
        vec![TimeInterval::new_millis(0, 1).unwrap(); n],
    )
    .unwrap();
    c.add_column("foo".to_string(), ColumnData::Int(values)).unwrap()
}

#[test]
fn vector_data() {
    // two chunks of the attribute column [1,1,2,2,3,3,4,4] and [5,6,7,8]
    // between bounds [0, 8] in 3 buckets count [4, 5, 3]
    let collections = vec![
        data_collection(vec![1, 1, 2, 2, 3, 3, 4, 4].into_iter().map(Some).collect()),
        data_collection(vec![5, 6, 7, 8].into_iter().map(Some).collect()),
    ];
    let name = "foo".to_string();
    let options = HistogramMetadataOptions {
        number_of_buckets: Some(3),
        min: Some(0),
        max: Some(8),
    };
    let metadata = histogram_metadata_from_collections(&collections, &name, options).unwrap();
    let h = histogram_counts_from_collections(&collections, &name, metadata).unwrap();
    assert_eq!(h.counts(), &vec![4, 5, 3]);
    // a missing column fails both passes
    let missing = "bar".to_string();
    assert!(histogram_metadata_from_collections(&collections, &missing, options).is_err());
    assert!(histogram_counts_from_collections(&collections, &missing, metadata).is_err());
}

#[test]
fn histogram_skips_no_data() {
    // a pixel equal to the no-data value never reaches a bucket
    let mut h = Histogram::new(3, 0, 8).unwrap();
    h.add_raster_data(&vec![1, 2, 3, 4, 5, 6], Some(3));
    assert_eq!(h.counts(), &vec![2, 2, 1]);
    // invalid configurations are rejected
    assert!(Histogram::new(0, 0, 8).is_err());
    assert!(Histogram::new(3, 8, 0).is_err());
}
