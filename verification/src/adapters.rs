//! Stream adapters: the transformers between a child processor's output and
//! the stream a processor hands upstream.

pub mod feature_collection_merger;
pub mod raster_subquery;
pub mod raster_time_substream;
pub mod sparse_tiles_fill_adapter;
