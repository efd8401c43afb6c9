//! The engine: result descriptors, the declarative operator tree, its
//! one-shot initialization against an execution context, and the typed
//! query processors that answer queries stage by stage.

pub mod execution_context;
pub mod operator;
pub mod query_processor;
pub mod result_descriptor;
