//! Two independent ledger protocols with machine-checked contracts: a
//! content-addressed model registry whose entries are verified by a single
//! fixed authority, and a custody lock that moves tokens into protocol custody
//! and records each lock for a cross-chain relayer.

pub mod address;
pub mod authorization;
pub mod bridge_laws;
pub mod deepchain_registry;
pub mod derivation;
pub mod identity;
pub mod model;
pub mod registry_laws;
pub mod wormhole_bridge;
