//! The server as a whole: what it starts with, how it answers, what a reload
//! changes, and what it shows of itself.
pub mod bundle;
pub mod probes;
pub mod proxy;
pub mod render;
pub mod startup;
