//! Verified state transitions of the cortex runtime modules: the proof-of-existence
//! claim registry, the percept/cognito/connection registry, and the guardian's
//! analytics and off-chain decisions.

pub mod analytics;
pub mod claims;
pub mod guardian;
pub mod keyed_map;
pub mod primitives;
pub mod vision;
