//! A small pull-based metrics library: a registry of counter families keyed
//! by label values, a classifier that buckets HTTP poll outcomes into those
//! families, and a renderer that serializes the registry in the text
//! exposition format.

pub mod collector;
pub mod exposition;
pub mod laws;
pub mod registry;

pub use registry::MetricRegistry;
