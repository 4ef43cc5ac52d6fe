//! Listeners and workers: binding every socket before anything is served,
//! counting connections, and draining them at the end.
pub mod bind;
pub mod serve;
pub mod worker;
