//! Discovery and orchestration of asset pipelines over a fixed set of source
//! locations.
//!
//! The library decides; it performs no input or output. A caller reads the
//! manifests, runs the conversion strategies and writes their results, and
//! hands what came back to the functions of this crate.

pub mod text;
pub mod pattern;
pub mod location;
pub mod string_set;
pub mod out_asset;
pub mod pipeline;
pub mod select;
pub mod context;
pub mod orchestrator;
pub mod run;
pub mod image_load;
