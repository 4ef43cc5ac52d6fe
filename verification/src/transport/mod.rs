//! TLS termination: which certificate a handshake is answered with.
pub mod sign;
pub mod tls;
