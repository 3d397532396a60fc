//! Core of a multi-pass voxel global-illumination renderer.
//!
//! The library turns a hierarchical scene description into a flat,
//! GPU-addressable plan: deduplicated buffer allocations, per-primitive
//! draw records, per-pass pipeline sets, a voxel mip-chain dispatch
//! schedule, and a fixed frame sequence.  Everything here is plain data
//! with proved contracts; executing the plan against a real GPU device
//! is left to an unverified shell around the library.

pub mod cache;
pub mod desc;
pub mod error;
pub mod formats;
pub mod frame;
pub mod loader;
pub mod material;
pub mod prims;
pub mod registry;
pub mod scene;
pub mod shader;
pub mod traverse;
pub mod validate;
pub mod voxel;

pub use error::{LoadError, ResourceError};
