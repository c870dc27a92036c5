//! Verified coordination core of a cooperative-UAV fleet: LatentMesh
//! advisory admission, delivery policy, replay and sequencing rules, the
//! deterministic telemetry schema, predictive-advisory gating and the
//! navigation laboratory's request gate.

pub mod forecast;
pub mod latentmesh;
pub mod navigation_lab;
