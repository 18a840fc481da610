//! A pipelined compute cascade with isolated per-stage ping-pong buffers.
//!
//! A pipeline is a chain of compute stages. Each stage owns a pair of output
//! buffers whose roles alternate with every tick, so that all stages of a tick
//! can work at the same time and no stage writes what another one reads. This
//! crate decides: which buffers a stage reads and writes, how many workgroups
//! it dispatches, how tags follow the data, when and how buffers are replaced,
//! and what comes out. It hands these decisions out as plain values
//! (`plan`); whoever holds the device carries them out and reports back.
//!
//! `pipeline::state` and `pipeline::variable_state` model pipelines as
//! mathematical values, `memory` says what the decisions do to the contents of
//! buffers, and `pipeline::laws` and `pipeline::variable_laws` prove what
//! follows for whole runs.

pub mod error;
pub mod memory;
pub mod pipeline;
pub mod plan;
pub mod side_inputs;
pub mod wgpu_utils;

pub use error::PipelineError;
pub use pipeline::pipeline_stage::{PipelineStage, StageConfig};
pub use pipeline::{Pipeline, PipelineBuilder, Stage};
pub use wgpu_utils::ComputeContext;
