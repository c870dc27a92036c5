//! LatentMesh authenticated advisory communications and governed orchestration.
//!
//! This feature is deliberately outside the flight-control authority path.
//! Decoded peer snapshots are observations only and must never be wired into
//! actuator commands, geofence or failsafe overrides, or collision avoidance.

pub mod metrics;
pub mod node;
pub mod policy;
pub mod protocol;
pub mod receive;
pub mod signature;
pub mod state;
pub mod transport;
