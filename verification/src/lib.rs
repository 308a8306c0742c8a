//! On-demand image transformation: a compact, URL-safe encoding of ordered
//! edit pipelines, an engine that runs a pipeline on a decoded picture, and
//! a bounded least-recently-used cache of fetched source bytes.

pub mod cache;
pub mod engine;
pub mod pb;
pub mod request;
