//! Processing operators: the concrete transformations built on top of the
//! adapters.

pub mod raster_scaling;
pub mod raster_vector_join;
pub mod reprojection;
