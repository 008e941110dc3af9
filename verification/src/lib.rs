//! A statically validated image-processing pipeline.
//!
//! A pipeline is an ordered collection of layers, each an ordered chain of
//! typed processing steps. Every step carries a fixed (input, output)
//! artifact shape, so a whole pipeline can be checked for shape consistency
//! before any pixel work runs.

pub mod artifact;
pub mod compose;
pub mod composer;
pub mod filters;
pub mod gaussians;
pub mod pipeline;
pub mod provider;
