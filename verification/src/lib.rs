//! A reverse proxy's decision logic.
use vstd::prelude::*;

pub mod clock;
pub mod config;
pub mod control;
pub mod ingress;
pub mod io;
pub mod lifecycle;
pub mod lock;
pub mod pem;
pub mod proto;
pub mod server;
mod share;
pub mod text;
pub mod time;
pub mod transport;
pub mod upstream;

verus! {

} // verus!
