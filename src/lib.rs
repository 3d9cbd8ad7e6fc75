//! Verified coordination logic for field-line tracing through a toroidal
//! coil set: coil/segment geometry alignment, particle partitioning across
//! workers, the per-particle divergence state machine and the checkpoint
//! schedule. Coordinates are opaque to this library: it is generic over the
//! position type, and the numerical field evaluation lives with the caller.

pub mod geometry;
pub mod partition;
pub mod particle;
pub mod schedule;
