//! Tracking synchronization for immersive-reality devices.
//!
//! The crate keeps a scene model in which every tracked device proxy hangs
//! under one tracking root, and in which the pose of each hand controller is
//! written, once per tick, as one update of translation and rotation.
//! Numeric components are carried as binary32 bit patterns, so that every
//! statement about them is a statement about exact bits.

pub mod markers;
pub mod pose;
pub mod scene;
pub mod trackers;
