//! Core of OptRand: a synchronous, epoch-based BFT state machine that doubles
//! as a distributed randomness beacon.  Each epoch commits at most one block
//! and, on success, emits a beacon value reconstructed from publicly
//! verifiable secret sharings (PVSS) contributed by the replicas.

pub mod config;
pub mod crypto;
pub mod pvss;
pub mod codec;
pub mod msg;
pub mod events;
pub mod sched;
pub mod wire;
pub mod state;
