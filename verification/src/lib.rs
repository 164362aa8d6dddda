//! Sink-side delivery core for a telemetry pipeline: a synthetic event
//! generator, a batching and partitioning layer, request builders for the
//! Datadog metrics and archives endpoints, and a retry-classification layer.

pub mod archives;
pub mod batch;
pub mod datetime;
pub mod event;
pub mod generator;
pub mod ids;
pub mod json;
pub mod metrics;
pub mod retry;
pub mod schema;
pub mod host;
pub mod strutil;
