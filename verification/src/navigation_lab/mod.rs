//! The navigation laboratory's integer and text logic: scenario names, the
//! validation verdict, the seeded world layout, the grid search, and the
//! local HTTP screen that decides which requests the simulation server
//! answers and how.

pub mod grid;
pub mod http;
pub mod layout;
pub mod scenario;
pub mod text;
