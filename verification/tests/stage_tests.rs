//! Stages, their configurations and their tags.

use std::sync::{Arc, Mutex};

use wgsl_ping_pong_pipeline::pipeline::stage::{create_identity_shader, IDENTITY_SHADER};
use wgsl_ping_pong_pipeline::pipeline::{PipelineStage, Stage, StageConfig, F32_SIZE};
use wgsl_ping_pong_pipeline::side_inputs::SideInputs;
use wgsl_ping_pong_pipeline::wgpu_utils::ComputeContext;
use wgsl_ping_pong_pipeline::PipelineError;

/// A tag with an id.
#[derive(Debug, Clone, PartialEq)]
struct TestTag {
    id: u64,
}

impl TestTag {
    fn new(id: u64) -> Self {
        Self { id }
    }
}

/// A custom stage that writes down what it is told, and refuses sizes that
/// are too large for it.
struct TestStage {
    name: String,
    vector_dim: usize,
    batch_size: usize,
    limit: usize,
    told: Arc<Mutex<Vec<String>>>,
}

impl TestStage {
    fn new(name: &str, vector_dim: usize, batch_size: usize) -> TestStage {
        TestStage {
            name: name.to_string(),
            vector_dim,
            batch_size,
            limit: usize::MAX,
            told: Arc::new(Mutex::new(Vec::new())),
        }
    }

    fn tell(&mut self, what: String, size: usize) -> anyhow::Result<()> {
        self.told.lock().unwrap().push(what);
        if size > self.limit {
            return Err(anyhow::Error::msg("too large"));
        }
        Ok(())
    }
}

impl PipelineStage for TestStage {
    fn name(&self) -> &str {
        &self.name
    }

    fn vector_dim(&self) -> usize {
        self.vector_dim
    }

    fn batch_size(&self) -> usize {
        self.batch_size
    }

    fn encode(
        &self,
        _encoder: &mut wgpu::CommandEncoder,
        _input: &wgpu::Buffer,
        _output: &wgpu::Buffer,
        _side_inputs: &SideInputs<Arc<wgpu::Buffer>>,
    ) -> anyhow::Result<()> {
        Ok(())
    }

    fn initialize(&mut self, _context: &ComputeContext) -> anyhow::Result<()> {
        self.tell("initialize".to_string(), 0)
    }

    fn requires_initialization(&self) -> bool {
        false
    }

    fn update_actual_total_elements(&mut self, elements: usize) -> anyhow::Result<()> {
        self.tell(format!("elements {elements}"), elements)
    }

    fn update_n(&mut self, n: usize) -> anyhow::Result<()> {
        self.tell(format!("n {n}"), n)
    }

    fn supports_dynamic_resizing(&self) -> bool {
        true
    }

    fn resize(&mut self, batch_size: usize, vector_dim: usize) -> anyhow::Result<()> {
        self.tell(format!("resize {batch_size} {vector_dim}"), batch_size)
    }
}

#[test]
fn test_stage_config_standard() {
    let stage = Stage::new("test", "wgsl", 2, 1024);
    let config: StageConfig<u64> = StageConfig::Standard { stage, tag: None };

    assert_eq!(config.name(), "test");
    assert_eq!(config.vector_dim(), 2);
    assert_eq!(config.batch_size(), 1024);
    assert!(!config.is_custom());
}

#[test]
fn test_stage_config_custom() {
    let stage = Box::new(TestStage::new("custom_test", 2, 2048));
    let config: StageConfig<u64> = StageConfig::Custom { stage, tag: None };

    assert_eq!(config.name(), "custom_test");
    assert_eq!(config.vector_dim(), 2);
    assert_eq!(config.batch_size(), 2048);
    assert!(config.is_custom());
}

#[test]
fn test_stage_config_forward_tag() {
    let stage = Stage::new("test", "wgsl", 2, 1024);
    let mut config = StageConfig::<u64>::Standard { stage, tag: Some(42) };

    // forward_tag exchanges the new tag with the old one
    let old_tag = config.forward_tag(Some(100));
    assert_eq!(old_tag, Some(42));
    assert_eq!(config.tag(), &Some(100));

    let stage2 = Stage::new("test2", "wgsl", 2, 1024);
    let mut config2 = StageConfig::<u64>::Standard { stage: stage2, tag: None };
    let old_tag2 = config2.forward_tag(Some(200));
    assert_eq!(old_tag2, None);
    assert_eq!(config2.tag(), &Some(200));
}

#[test]
fn pipeline_stage_test_stage_config_forward_tag_custom() {
    let stage = Box::new(TestStage::new("custom_test", 2, 2048));
    let mut config =
        StageConfig::<String>::Custom { stage, tag: Some("initial".to_string()) };

    let old_tag = config.forward_tag(Some("new".to_string()));
    assert_eq!(old_tag, Some("initial".to_string()));

    match &config {
        StageConfig::Custom { tag, .. } => {
            assert_eq!(tag, &Some("new".to_string()));
        }
        _ => panic!("Expected Custom variant"),
    }
}

/// A stage config stores tags.
#[test]
fn test_stage_config_tag_storage() {
    let stage = Stage::new("test_stage", "@compute @workgroup_size(1) fn main() {}", 2, 1024);
    let config = StageConfig::<TestTag>::Standard { stage, tag: Some(TestTag::new(1)) };
    assert_eq!(config.tag(), &Some(TestTag::new(1)));
}

/// forward_tag exchanges tags.
#[test]
fn test_stage_config_forward_tag_standard() {
    let stage = Stage::new("test_stage", "@compute @workgroup_size(1) fn main() {}", 2, 1024);
    let mut config = StageConfig::<TestTag>::Standard { stage, tag: Some(TestTag::new(42)) };
    let old_tag = config.forward_tag(Some(TestTag::new(100)));
    assert_eq!(old_tag, Some(TestTag::new(42)));
    assert_eq!(config.tag(), &Some(TestTag::new(100)));
}

/// forward_tag on a stage without a tag.
#[test]
fn test_stage_config_forward_tag_with_none() {
    let stage = Stage::new("test_stage", "@compute @workgroup_size(1) fn main() {}", 2, 1024);
    let mut config = StageConfig::<TestTag>::Standard { stage, tag: None };
    let old_tag = config.forward_tag(Some(TestTag::new(1)));
    assert_eq!(old_tag, None);
    assert_eq!(config.tag(), &Some(TestTag::new(1)));
}

/// forward_tag on a custom stage.
#[test]
fn tag_tests_test_stage_config_forward_tag_custom() {
    let custom_stage = Box::new(TestStage::new("custom", 2, 1024));
    let mut config =
        StageConfig::<TestTag>::Custom { stage: custom_stage, tag: Some(TestTag::new(99)) };
    let old_tag = config.forward_tag(Some(TestTag::new(200)));
    assert_eq!(old_tag, Some(TestTag::new(99)));
    assert_eq!(config.tag(), &Some(TestTag::new(200)));
}

/// Tags can be any struct.
#[test]
fn test_tag_as_struct_with_id() {
    let stage = Stage::new("test", "@compute @workgroup_size(1) fn main() {}", 2, 8);
    let config = StageConfig::<TestTag>::Standard { stage, tag: Some(TestTag::new(123)) };
    assert_eq!(config.tag().as_ref().unwrap().id, 123);
}

#[test]
fn test_tag_forwarding_with_id() {
    let stage = Stage::new("test", "@compute @workgroup_size(1) fn main() {}", 2, 8);
    let mut config = StageConfig::<TestTag>::Standard { stage, tag: Some(TestTag::new(123)) };
    let old_tag = config.forward_tag(Some(TestTag::new(456)));
    assert_eq!(old_tag.unwrap().id, 123);
    assert_eq!(config.tag().as_ref().unwrap().id, 456);
}

// ---- more of what a stage promises ----

#[test]
fn stage_sizes() {
    let stage = Stage::new(String::from("s"), String::from("w"), 3, 10);
    assert_eq!(F32_SIZE, 4);
    assert_eq!(stage.name, "s");
    assert_eq!(stage.wgsl, "w");
    assert_eq!(stage.element_size(), 12);
    assert_eq!(stage.buffer_size(), 120);
    let config: StageConfig<u8> = StageConfig::Standard { stage, tag: None };
    assert_eq!(config.element_size(), 12);
    assert_eq!(config.buffer_size(), 120);
}

#[test]
fn stage_validation() {
    assert!(Stage::new("a", "", 1, 1).validate().is_ok());
    let e = Stage::new("a", "", 0, 0).validate().err().unwrap();
    assert_eq!(e.message().unwrap(), "Vector dimension must be at least 1");
    let e = Stage::new("a", "", 1, 0).validate().err().unwrap();
    assert_eq!(e.message().unwrap(), "Batch size must be at least 1");
    let config: StageConfig<u8> =
        StageConfig::Custom { stage: Box::new(TestStage::new("c", 0, 1)), tag: None };
    assert!(matches!(config.validate(), Err(PipelineError::ZeroVectorDim)));
    let config: StageConfig<u8> =
        StageConfig::Custom { stage: Box::new(TestStage::new("c", 1, 0)), tag: None };
    assert!(matches!(config.validate(), Err(PipelineError::ZeroBatchSize)));
}

#[test]
fn identity_shader_copies_scalars() {
    assert_eq!(create_identity_shader(1), IDENTITY_SHADER);
    assert_eq!(create_identity_shader(7), IDENTITY_SHADER);
    let stage = Stage::identity("id", 2, 4);
    assert_eq!(stage.wgsl, IDENTITY_SHADER);
    assert!(stage.wgsl.contains("output[idx] = input[idx];"));
    assert!(stage.wgsl.contains("@workgroup_size(64)"));
    assert!(stage.bind_group_entries.is_none());
}

#[test]
fn custom_access() {
    let mut config: StageConfig<u8> =
        StageConfig::Custom { stage: Box::new(TestStage::new("c", 2, 4)), tag: Some(1) };
    assert_eq!(config.as_custom().unwrap().batch_size(), 4);
    assert!(config.as_custom().unwrap().side_input_names().is_empty());
    assert!(config.as_custom_mut().unwrap().update_n(5).is_ok());
    assert_eq!(config.tag(), &Some(1));
    assert!(!config.is_empty());
    let mut config: StageConfig<u8> =
        StageConfig::Standard { stage: Stage::identity("id", 2, 4), tag: None };
    assert!(config.as_custom().is_none());
    assert!(config.as_custom_mut().is_none());
    assert!(config.is_empty());
}

#[test]
fn standard_stages_are_copied() {
    let mut stage = Stage::identity("id", 2, 4);
    stage.bind_group_entries = Some(vec![wgpu::BindGroupLayoutEntry {
        binding: 5,
        visibility: wgpu::ShaderStages::COMPUTE,
        ty: wgpu::BindingType::Buffer {
            ty: wgpu::BufferBindingType::Storage { read_only: true },
            has_dynamic_offset: false,
            min_binding_size: None,
        },
        count: None,
    }]);
    let config: StageConfig<u8> = StageConfig::Standard { stage, tag: Some(3) };
    let copy = config.clone();
    assert_eq!(copy.name(), "id");
    assert_eq!(copy.tag(), &Some(3));
    match &copy {
        StageConfig::Standard { stage, .. } => {
            assert_eq!(stage.wgsl, IDENTITY_SHADER);
            assert_eq!(stage.bind_group_entries.as_ref().unwrap()[0].binding, 5);
        }
        _ => panic!("Expected Standard variant"),
    }
}

#[test]
fn notices_reach_custom_stages() {
    let mut stage = TestStage::new("c", 2, 4);
    stage.limit = 10;
    let told = stage.told.clone();
    let mut config: StageConfig<u8> = StageConfig::Custom { stage: Box::new(stage), tag: None };
    assert!(config.update_actual_total_elements(7).is_ok());
    assert!(config.update_n(8).is_ok());
    assert!(config.supports_dynamic_resizing());
    assert!(config.resize(9, 2).is_ok());
    let e = config.resize(11, 2).err().unwrap();
    assert!(e.message().is_none());
    match e {
        PipelineError::Stage(inner) => assert_eq!(inner.to_string(), "too large"),
        _ => panic!("Expected the stage's own error"),
    }
    assert_eq!(
        *told.lock().unwrap(),
        vec!["elements 7", "n 8", "resize 9 2", "resize 11 2"]
    );

    let mut config: StageConfig<u8> =
        StageConfig::Standard { stage: Stage::identity("id", 2, 4), tag: None };
    assert!(config.update_actual_total_elements(usize::MAX).is_ok());
    assert!(config.update_n(usize::MAX).is_ok());
    assert!(!config.supports_dynamic_resizing());
    assert!(config.resize(0, 0).is_ok());
}
