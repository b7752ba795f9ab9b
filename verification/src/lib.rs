//! Exact 3D trilinear resampling over fixed-point coordinates.
//!
//! The engine resamples dense 3D volumes under affine and displacement-field
//! transforms using trilinear interpolation.  Coordinates carry a Q16.16
//! fixed-point fraction; corner weights are accumulated exactly in 128-bit
//! integers, so every result is a deterministic function of the inputs,
//! pinned down voxel by voxel by the kernels' contracts.
//!
//! Layout: [`fixed`] holds the fixed-point arithmetic, [`volume`] and
//! [`geometry`] the data model, [`sample`] the shared trilinear core,
//! [`scalar`] the affine kernel and point sampler, [`warp`] the
//! displacement-field resampler and its 2x upsampler, [`adapters`] the
//! 8-bit storage path, [`dispatch`] the capability-based backend choice,
//! and [`laws`] the proved properties that tie the kernels together.

pub mod adapters;
pub mod dispatch;
pub mod fixed;
pub mod geometry;
pub mod laws;
pub mod sample;
pub mod scalar;
pub mod volume;
pub mod warp;
