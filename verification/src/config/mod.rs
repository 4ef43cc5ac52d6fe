//! The configuration document: its records, their defaults, and the rules
//! that a document has to meet before it is served.
pub mod duration;
pub mod workers;
pub mod schema;
pub mod error;
pub mod validate;
