//! A feedback-driven residency cache for a sparse voxel world.
//!
//! The world is a sparse map from chunk-aligned coordinates to fixed-size
//! voxel chunks.  A renderer samples from a bounded device-resident grid of
//! chunk slots; when it misses a chunk it records the request in a feedback
//! channel.  The host reads the channel back asynchronously (paced by a
//! three-state sync machine so at most one read-back is ever in flight),
//! resolves the requested coordinates against the world, and queues payloads
//! into a bounded stream channel that a compute step copies into grid slots.

pub mod coordmap;
pub mod feedback;
pub mod grid;
pub mod stream;
pub mod streaming;
pub mod ivec;
pub mod sync;
pub mod tracker;
pub mod voxels;
