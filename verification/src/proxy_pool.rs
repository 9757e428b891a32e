//! Multi-agent proxy routing with primary and protected warm-standby tiers.

pub mod types;
pub mod pool;
pub mod maintenance;
pub mod routing;
pub mod identity;
pub mod subsystem;
pub mod reconcile;
pub mod restart;
pub mod snapshot;
pub mod laws;
