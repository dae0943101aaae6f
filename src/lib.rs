//! Events of a telemetry pipeline: structured values, the metric merge algebra, and a basic
//! processing stage.
pub mod metric;
pub mod transform;
pub mod value;
