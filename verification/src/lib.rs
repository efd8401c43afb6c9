//! A geospatial data-processing engine core: operator trees over raster and
//! vector data, initialized into query processors that answer spatio-temporal
//! queries tile by tile.
//!
//! Continuous quantities (coordinates, resolutions, pixel values) are carried
//! as integers in fixed model units, so every rule of the pipeline is stated
//! and checked exactly.

#![verifier::loop_isolation(false)]

use vstd::prelude::*;

pub mod adapters;
pub mod collections;
pub mod dataset;
pub mod engine;
pub mod grid;
pub mod plot;
pub mod primitives;
pub mod processing;
pub mod raster;
pub mod services;
pub mod spatial_reference;
pub mod tiling;
pub mod time;

verus! {

} // verus!
