//! The control plane: counters, and the answers of the admin endpoint.
pub mod admin;
pub mod metrics;
