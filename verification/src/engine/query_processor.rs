//! Query processors: the runtime-typed values that answer query rectangles
//! chunk by chunk. A typed processor is selected once per initialized
//! operator, at the single point where the runtime pixel or geometry type
//! is dispatched.

use vstd::prelude::*;
use crate::collections::MultiPointCollection;
use crate::engine::execution_context::MockDataSetDataSourceLoadingInfo;
use crate::engine::operator::{
    spec_init_raster_data_type, spec_init_vector_descriptor, InitializedRasterOperator,
    InitializedVectorOperator,
};
use crate::engine::result_descriptor::{RasterDataType, VectorDataType};
use crate::primitives::{RasterQueryRectangle, VectorQueryRectangle};
use crate::raster::RasterTile;
use crate::time::TimeInterval;

verus! {

/// The tiles of a sequence whose time interval intersects the query's.
pub open spec fn spec_filter_time(tiles: Seq<RasterTile>, t: TimeInterval) -> Seq<RasterTile>
    decreases tiles.len(),
{
    if tiles.len() == 0 {
        Seq::empty()
    } else {
        let rest = spec_filter_time(tiles.subrange(1, tiles.len() as int), t);
        if tiles[0].time.spec_intersects(t) {
            seq![tiles[0]] + rest
        } else {
            rest
        }
    }
}

/// One filtered tile more at the back.
pub proof fn lemma_filter_time_snoc(tiles: Seq<RasterTile>, x: RasterTile, t: TimeInterval)
    ensures
        spec_filter_time(tiles.push(x), t) == (if x.time.spec_intersects(t) {
            spec_filter_time(tiles, t).push(x)
        } else {
            spec_filter_time(tiles, t)
        }),
    decreases tiles.len(),
{
    let p = tiles.push(x);
    if tiles.len() == 0 {
        assert(p.subrange(1, p.len() as int) =~= Seq::<RasterTile>::empty());
        assert(spec_filter_time(Seq::<RasterTile>::empty(), t) =~= Seq::<RasterTile>::empty());
        if x.time.spec_intersects(t) {
            assert(spec_filter_time(p, t) =~= spec_filter_time(tiles, t).push(x));
        } else {
            assert(spec_filter_time(p, t) =~= spec_filter_time(tiles, t));
        }
    } else {
        assert(p.subrange(1, p.len() as int) =~= tiles.subrange(1, tiles.len() as int).push(x));
        lemma_filter_time_snoc(tiles.subrange(1, tiles.len() as int), x, t);
        if x.time.spec_intersects(t) {
            assert(spec_filter_time(p, t) =~= spec_filter_time(tiles, t).push(x));
        } else {
            assert(spec_filter_time(p, t) =~= spec_filter_time(tiles, t));
        }
    }
}

/// The query processor of the mock raster source: it serves its stored
/// tiles, restricted to those whose time intersects the query.
pub struct MockRasterSourceProcessor {
    pub data: Vec<RasterTile>,
}

impl MockRasterSourceProcessor {
    /// Answers one raster query, consuming the source: every stored tile
    /// whose time interval intersects the query's, in stored order.
    pub fn raster_query(self, query: &RasterQueryRectangle) -> (r: Vec<RasterTile>)
        ensures
            r@ == spec_filter_time(self.data@, query.time_interval),
    {
        let ghost all = self.data@;
        let mut data = self.data;
        let mut out: Vec<RasterTile> = Vec::new();
        let mut i: usize = 0;
        let n = data.len();
        proof {
            assert(all.subrange(0, 0) =~= Seq::<RasterTile>::empty());
            assert(spec_filter_time(Seq::<RasterTile>::empty(), query.time_interval) =~= Seq::<
                RasterTile,
            >::empty());
            assert(data@ =~= all.subrange(0, n as int));
        }
        while i < n
            invariant
                i <= n,
                n == all.len(),
                data@ == all.subrange(i as int, n as int),
                out@ == spec_filter_time(all.subrange(0, i as int), query.time_interval),
            decreases n - i,
        {
            let tile = data.remove(0);
            proof {
                assert(tile == all[i as int]);
                assert(data@ =~= all.subrange(i + 1, n as int));
                assert(all.subrange(0, i + 1) =~= all.subrange(0, i as int).push(all[i as int]));
                lemma_filter_time_snoc(all.subrange(0, i as int), all[i as int], query.time_interval);
            }
            if tile.time.intersects(query.time_interval) {
                out.push(tile);
            }
            i = i + 1;
        }
        proof {
            assert(all.subrange(0, n as int) =~= all);
        }
        out
    }
}

/// The query processor of the mock point dataset source: one single-point
/// feature per stored coordinate, each valid for all time.
pub struct MockDataSetDataSourceProcessor {
    pub loading_info: MockDataSetDataSourceLoadingInfo,
}

impl MockDataSetDataSourceProcessor {
    /// Answers one vector query with a single collection holding every
    /// stored point as its own feature, tagged with the unbounded time
    /// interval.
    pub fn query(&self, _query: &VectorQueryRectangle) -> (r: MultiPointCollection)
        requires
            self.loading_info.points@.len() <= 0x100_0000,
        ensures
            r.wf(),
            r.spec_len() == self.loading_info.points@.len(),
            r.columns@.len() == 0,
            forall|f: int|
                0 <= f < self.loading_info.points@.len() ==> (#[trigger] r.spec_geometries()[f])
                    =~= seq![self.loading_info.points@[f]],
            forall|f: int|
                0 <= f < self.loading_info.points@.len() ==> (#[trigger] r.spec_times()[f]).spec_start()
                    == i64::MIN && r.spec_times()[f].spec_end() == i64::MAX,
    {
        let n = self.loading_info.points.len();
        let mut coordinates: Vec<crate::collections::MultiPoint> = Vec::new();
        let mut time_intervals: Vec<TimeInterval> = Vec::new();
        let mut i: usize = 0;
        while i < n
            invariant
                i <= n,
                n == self.loading_info.points@.len(),
                coordinates@.len() == i,
                time_intervals@.len() == i,
                forall|j: int|
                    0 <= j < i ==> (#[trigger] coordinates@[j])@ =~= seq![
                        self.loading_info.points@[j],
                    ],
                forall|j: int|
                    0 <= j < i ==> (#[trigger] time_intervals@[j]).spec_start() == i64::MIN
                        && time_intervals@[j].spec_end() == i64::MAX,
            decreases n - i,
        {
            let mut point: Vec<crate::primitives::Coordinate2D> = Vec::new();
            point.push(self.loading_info.points[i]);
            coordinates.push(crate::collections::MultiPoint { coordinates: point });
            time_intervals.push(TimeInterval::default_interval());
            i = i + 1;
        }
        let r = MultiPointCollection { coordinates, time_intervals, columns: Vec::new() };
        proof {
            assert forall|f: int| 0 <= f < n implies (#[trigger] r.spec_geometries()[f]) =~= seq![
                self.loading_info.points@[f],
            ] by {
                assert(r.spec_geometries()[f] == r.coordinates@[f]@);
            }
        }
        r
    }
}

/// A raster query processor tagged with its runtime pixel type. The
/// verified pipeline carries every pixel as a 64-bit integer; the variant
/// records which nominal type the stream stands for.
pub enum TypedRasterQueryProcessor {
    U8(Box<InitializedRasterOperator>),
    U16(Box<InitializedRasterOperator>),
    U32(Box<InitializedRasterOperator>),
    U64(Box<InitializedRasterOperator>),
    I8(Box<InitializedRasterOperator>),
    I16(Box<InitializedRasterOperator>),
    I32(Box<InitializedRasterOperator>),
    I64(Box<InitializedRasterOperator>),
    F32(Box<InitializedRasterOperator>),
    F64(Box<InitializedRasterOperator>),
}

impl TypedRasterQueryProcessor {
    /// The operator this processor runs.
    pub open spec fn spec_operator(self) -> InitializedRasterOperator {
        match self {
            TypedRasterQueryProcessor::U8(io) => *io,
            TypedRasterQueryProcessor::U16(io) => *io,
            TypedRasterQueryProcessor::U32(io) => *io,
            TypedRasterQueryProcessor::U64(io) => *io,
            TypedRasterQueryProcessor::I8(io) => *io,
            TypedRasterQueryProcessor::I16(io) => *io,
            TypedRasterQueryProcessor::I32(io) => *io,
            TypedRasterQueryProcessor::I64(io) => *io,
            TypedRasterQueryProcessor::F32(io) => *io,
            TypedRasterQueryProcessor::F64(io) => *io,
        }
    }

    /// The nominal pixel type this processor is tagged with.
    pub open spec fn spec_tag(self) -> RasterDataType {
        match self {
            TypedRasterQueryProcessor::U8(_) => RasterDataType::U8,
            TypedRasterQueryProcessor::U16(_) => RasterDataType::U16,
            TypedRasterQueryProcessor::U32(_) => RasterDataType::U32,
            TypedRasterQueryProcessor::U64(_) => RasterDataType::U64,
            TypedRasterQueryProcessor::I8(_) => RasterDataType::I8,
            TypedRasterQueryProcessor::I16(_) => RasterDataType::I16,
            TypedRasterQueryProcessor::I32(_) => RasterDataType::I32,
            TypedRasterQueryProcessor::I64(_) => RasterDataType::I64,
            TypedRasterQueryProcessor::F32(_) => RasterDataType::F32,
            TypedRasterQueryProcessor::F64(_) => RasterDataType::F64,
        }
    }

    /// The processor of an initialized raster operator: the one point where
    /// the runtime pixel type selects the statically tagged variant.
    pub fn query_processor(io: InitializedRasterOperator) -> (r: TypedRasterQueryProcessor)
        ensures
            r.spec_operator() == io,
            r.spec_tag() == spec_init_raster_data_type(io),
    {
        let data_type = crate::engine::operator::result_descriptor_of_raster(&io).data_type;
        match data_type {
            RasterDataType::U8 => TypedRasterQueryProcessor::U8(Box::new(io)),
            RasterDataType::U16 => TypedRasterQueryProcessor::U16(Box::new(io)),
            RasterDataType::U32 => TypedRasterQueryProcessor::U32(Box::new(io)),
            RasterDataType::U64 => TypedRasterQueryProcessor::U64(Box::new(io)),
            RasterDataType::I8 => TypedRasterQueryProcessor::I8(Box::new(io)),
            RasterDataType::I16 => TypedRasterQueryProcessor::I16(Box::new(io)),
            RasterDataType::I32 => TypedRasterQueryProcessor::I32(Box::new(io)),
            RasterDataType::I64 => TypedRasterQueryProcessor::I64(Box::new(io)),
            RasterDataType::F32 => TypedRasterQueryProcessor::F32(Box::new(io)),
            RasterDataType::F64 => TypedRasterQueryProcessor::F64(Box::new(io)),
        }
    }
}

/// A vector query processor tagged with its runtime geometry type.
pub enum TypedVectorQueryProcessor {
    Data(Box<InitializedVectorOperator>),
    MultiPoint(Box<InitializedVectorOperator>),
    MultiLineString(Box<InitializedVectorOperator>),
    MultiPolygon(Box<InitializedVectorOperator>),
}

impl TypedVectorQueryProcessor {
    /// The operator this processor runs.
    pub open spec fn spec_operator(self) -> InitializedVectorOperator {
        match self {
            TypedVectorQueryProcessor::Data(io) => *io,
            TypedVectorQueryProcessor::MultiPoint(io) => *io,
            TypedVectorQueryProcessor::MultiLineString(io) => *io,
            TypedVectorQueryProcessor::MultiPolygon(io) => *io,
        }
    }

    /// The geometry type this processor is tagged with.
    pub open spec fn spec_tag(self) -> VectorDataType {
        match self {
            TypedVectorQueryProcessor::Data(_) => VectorDataType::Data,
            TypedVectorQueryProcessor::MultiPoint(_) => VectorDataType::MultiPoint,
            TypedVectorQueryProcessor::MultiLineString(_) => VectorDataType::MultiLineString,
            TypedVectorQueryProcessor::MultiPolygon(_) => VectorDataType::MultiPolygon,
        }
    }

    /// The processor of an initialized vector operator: the single
    /// geometry-type dispatch.
    pub fn query_processor(io: InitializedVectorOperator) -> (r: TypedVectorQueryProcessor)
        ensures
            r.spec_operator() == io,
            r.spec_tag() == spec_init_vector_descriptor(io).data_type,
    {
        let data_type = crate::engine::operator::result_descriptor_of_vector(&io).data_type;
        match data_type {
            VectorDataType::Data => TypedVectorQueryProcessor::Data(Box::new(io)),
            VectorDataType::MultiPoint => TypedVectorQueryProcessor::MultiPoint(Box::new(io)),
            VectorDataType::MultiLineString => TypedVectorQueryProcessor::MultiLineString(
                Box::new(io),
            ),
            VectorDataType::MultiPolygon => TypedVectorQueryProcessor::MultiPolygon(Box::new(io)),
        }
    }
}

} // verus!
