//! Turns operator intent into structured log searches, compiles them for an
//! Elasticsearch-style or an SQL-style log store, normalizes the documents that
//! come back, and prepares the debugging narrative built from them.

pub mod ai;
pub mod elastic;
pub mod json;
pub mod models;
pub mod normalize;
pub mod openobserve;
pub mod text;
pub mod time_range;
