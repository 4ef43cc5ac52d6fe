//! The life of a request: which route it takes, and to which upstream.
pub mod glob;
pub mod table;
