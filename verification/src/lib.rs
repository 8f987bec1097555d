//! Batch conversion of video files into segmented, manifest-described
//! streaming output: the decisions of the per-file pipeline, the rewriting of
//! the paths that a manifest holds, and the listings written per destination.
//!
//! The library decides and computes; it starts no process and touches no
//! file. A caller performs each [`command::Action`] it is handed and reports
//! back what came of it.

pub mod text;
pub mod command;
pub mod utils;
pub mod manifest;
pub mod video_processor;
pub mod dash_generator;
pub mod config;
pub mod json_generator;
pub mod pipeline;
