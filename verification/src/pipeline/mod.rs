//! Pipelines of compute stages.

pub mod builder;
pub mod call_laws;
pub mod laws;
pub mod ping_pong;
pub mod pipeline_stage;
pub mod size;
pub mod stage;
pub mod stage_laws;
pub mod state;
pub mod variable_call_laws;
pub mod variable_laws;
pub mod variable_size;
pub mod variable_state;

pub use builder::PipelineBuilder;
pub use ping_pong::Pipeline;
pub use pipeline_stage::{PipelineStage, StageConfig};
pub use size::F32_SIZE;
pub use stage::Stage;
pub use variable_size::{StageSizeConfig, VariableSizePipeline, VariableSizePipelineBuilder};
