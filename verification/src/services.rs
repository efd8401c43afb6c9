//! The service layer's value types: what the HTTP surface and the catalogs
//! hand the engine and get back. The wire protocols themselves live outside
//! the verified core.

pub mod datasets;
pub mod handlers;
pub mod tasks;
pub mod users;
pub mod util;
