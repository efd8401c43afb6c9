//! Plot operators: consumers of the pipeline's streams that aggregate a
//! whole query into one chart-ready value.

pub mod histogram;
