//! Framing, sequencing and node bookkeeping for the link between a kite host
//! and its campus-side agents.

pub mod codec;
pub mod compress;
pub mod protocol;
pub mod services;
pub mod node;
pub mod host;
pub mod agent;
