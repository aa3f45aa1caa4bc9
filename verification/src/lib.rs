//! Replication of authoritative physics state from a simulation host to
//! observers over an unreliable, reordering transport.
//!
//! The origin periodically emits clock samples and full-body snapshots.  An
//! observer feeds the samples into a [`time_estimate::PhysicsTimeEstimate`],
//! buffers the snapshots time-sorted in a [`snapshot_buffer::PhysicsSnapshots`],
//! and once per frame derives a playout time, selects the bracketing snapshot
//! pair ([`playout`]) and blends poses between them with a cubic Hermite basis
//! ([`hermite`]).  All times are unsigned 64-bit millisecond counts since the
//! origin's epoch; pose components travel through the library as opaque
//! 32-bit IEEE-754 bit patterns, so the embedding converts only at its edges.

pub mod physics;
pub mod snapshot_buffer;
pub mod time_estimate;
pub mod broadcast;
pub mod hermite;
pub mod playout;
