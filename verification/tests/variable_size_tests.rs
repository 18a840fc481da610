//! Pipelines with one size per stage, run on a device that is simulated on
//! the host.

use std::sync::{Arc, Mutex};

use wgsl_ping_pong_pipeline::pipeline::ping_pong::TickEvent;
use wgsl_ping_pong_pipeline::pipeline::{
    Pipeline, PipelineStage, Stage, StageConfig, StageSizeConfig, VariableSizePipeline,
    VariableSizePipelineBuilder,
};
use wgsl_ping_pong_pipeline::plan::{BufferResize, InputWrite, Readback, StageWork};
use wgsl_ping_pong_pipeline::side_inputs::SideInputs;
use wgsl_ping_pong_pipeline::wgpu_utils::ComputeContext;
use wgsl_ping_pong_pipeline::PipelineError;

const DOUBLE_WGSL: &str = r#"
    @group(0) @binding(0)
    var<storage, read> input: array<f32>;

    @group(0) @binding(1)
    var<storage, read_write> output: array<f32>;

    @compute @workgroup_size(64)
    fn main(@builtin(global_invocation_id) id: vec3<u32>) {
        let idx = id.x;
        if (idx >= arrayLength(&input)) { return; }
        output[idx] = input[idx] * 2.0;
    }
    "#;

/// A custom stage that writes down what it is told, and refuses numbers that
/// are too large for it.
struct TestCustomStage {
    name: String,
    vector_dim: usize,
    batch_size: usize,
    limit: usize,
    needs_context: bool,
    told: Arc<Mutex<Vec<String>>>,
    context: Arc<Mutex<Option<String>>>,
}

impl TestCustomStage {
    fn new(name: &str, vector_dim: usize, batch_size: usize) -> Self {
        Self {
            name: name.to_string(),
            vector_dim,
            batch_size,
            limit: usize::MAX,
            needs_context: false,
            told: Arc::new(Mutex::new(Vec::new())),
            context: Arc::new(Mutex::new(None)),
        }
    }

    fn tell(&mut self, what: String, size: usize) -> anyhow::Result<()> {
        self.told.lock().unwrap().push(what);
        if size > self.limit {
            return Err(anyhow::Error::msg(format!("{}: too large", self.name)));
        }
        Ok(())
    }
}

impl PipelineStage for TestCustomStage {
    fn name(&self) -> &str {
        &self.name
    }

    fn vector_dim(&self) -> usize {
        self.vector_dim
    }

    fn batch_size(&self) -> usize {
        self.batch_size
    }

    fn encode(
        &self,
        _encoder: &mut wgpu::CommandEncoder,
        _input: &wgpu::Buffer,
        _output: &wgpu::Buffer,
        _side_inputs: &SideInputs<Arc<wgpu::Buffer>>,
    ) -> anyhow::Result<()> {
        Ok(())
    }

    fn initialize(&mut self, context: &ComputeContext) -> anyhow::Result<()> {
        let size = self.batch_size;
        *self.context.lock().unwrap() = Some(format!("{context:p}"));
        self.tell("initialize".to_string(), size)
    }

    fn requires_initialization(&self) -> bool {
        self.needs_context
    }

    fn update_actual_total_elements(&mut self, elements: usize) -> anyhow::Result<()> {
        self.tell(format!("elements {elements}"), elements)
    }

    fn update_n(&mut self, n: usize) -> anyhow::Result<()> {
        self.tell(format!("n {n}"), n)
    }

    fn supports_dynamic_resizing(&self) -> bool {
        self.limit > 0
    }

    fn resize(&mut self, batch_size: usize, vector_dim: usize) -> anyhow::Result<()> {
        self.tell(format!("resize {batch_size} {vector_dim}"), batch_size)
    }
}

fn noop_context() -> ComputeContext {
    let instance = wgpu::Instance::new(wgpu::InstanceDescriptor {
        backends: wgpu::Backends::NOOP,
        backend_options: wgpu::BackendOptions {
            noop: wgpu::NoopBackendOptions { enable: true, ..Default::default() },
            ..Default::default()
        },
        ..wgpu::InstanceDescriptor::new_without_display_handle()
    });
    let adapter =
        pollster::block_on(instance.request_adapter(&wgpu::RequestAdapterOptions::default()))
            .unwrap();
    let (device, queue) =
        pollster::block_on(adapter.request_device(&wgpu::DeviceDescriptor::default())).unwrap();
    ComputeContext { instance, adapter, device, queue }
}

/// Buffers in host memory, and one scalar function for each stage's shader.
struct Host {
    buffers: Vec<Vec<f32>>,
    shaders: Vec<fn(f32) -> f32>,
}

fn identity(x: f32) -> f32 {
    x
}

fn double(x: f32) -> f32 {
    x * 2.0
}

fn triple(x: f32) -> f32 {
    x * 3.0
}

fn built<T>(
    builder: VariableSizePipelineBuilder<T>,
    shaders: Vec<fn(f32) -> f32>,
) -> (VariableSizePipeline<T>, Host) {
    let built = builder.build().unwrap();
    assert!(built.context.is_none());
    let buffers = built.buffer_sizes.iter().map(|s| vec![0.0; *s as usize / 4]).collect();
    (built.pipeline, Host { buffers, shaders })
}

fn write<T>(pipeline: &mut VariableSizePipeline<T>, host: &mut Host, data: &[f32]) {
    let write = pipeline.write_input(data).unwrap();
    host.buffers[write.buffer][..data.len()].copy_from_slice(data);
}

fn tick<T: Clone>(pipeline: &mut VariableSizePipeline<T>, host: &mut Host, tag: T) {
    pipeline.tick(tag);
    for i in 0..pipeline.num_stages() {
        let pass = pipeline.stage_pass(i).unwrap();
        let invocations = match pass.work {
            StageWork::Dispatch { input_variant, output_state, groups, .. } => {
                let entries = pipeline.create_bind_group_for_stage(i, input_variant, output_state);
                assert_eq!(entries.len(), 2);
                assert_eq!((entries[0].binding, entries[0].buffer), (0, pass.input));
                assert_eq!((entries[1].binding, entries[1].buffer), (1, pass.output));
                groups as usize * 64
            }
            StageWork::Encode => host.buffers[pass.input].len(),
        };
        let input = host.buffers[pass.input].clone();
        let output = &mut host.buffers[pass.output];
        for idx in 0..invocations {
            if idx < input.len() && idx < output.len() {
                output[idx] = (host.shaders[i])(input[idx]);
            }
        }
        pipeline.stage_encoded(i);
    }
    pipeline.finish_tick(TickEvent::Completed);
}

fn read<T: Clone>(
    pipeline: &VariableSizePipeline<T>,
    host: &Host,
) -> Option<(Option<T>, Vec<f32>)> {
    let (tag, readback) = pipeline.read_output()?;
    Some((tag, host.buffers[readback.buffer][..readback.scalars].to_vec()))
}

fn replace(host: &mut Host, resize: &BufferResize) {
    let mut fresh = vec![0.0; resize.new_size as usize / 4];
    let copied = resize.copy_size as usize / 4;
    fresh[..copied].copy_from_slice(&host.buffers[resize.index][..copied]);
    host.buffers[resize.index] = fresh;
}

#[test]
fn test_builder_creation() {
    let stage = Stage::new("test", DOUBLE_WGSL, 1, 1024);
    let builder = VariableSizePipelineBuilder::<u64>::new().pipe_with_size(stage, 2048);
    assert_eq!(builder.stage_configs.len(), 1);
    assert_eq!(builder.stage_configs[0].output_batch_size, 2048);
}

#[test]
fn test_per_stage_buffer_sizes() {
    let stage1 = Stage::new("stage1", DOUBLE_WGSL, 1, 1024);
    let stage2 = Stage::new("stage2", DOUBLE_WGSL, 1, 2048);
    let stage3 = Stage::new("stage3", DOUBLE_WGSL, 1, 4096);

    let builder = VariableSizePipelineBuilder::<u64>::new()
        .pipe_with_size(stage1, 1024)
        .pipe_with_size(stage2, 2048)
        .pipe_with_size(stage3, 4096);

    assert_eq!(builder.stage_configs[0].output_batch_size, 1024);
    assert_eq!(builder.stage_configs[1].output_batch_size, 2048);
    assert_eq!(builder.stage_configs[2].output_batch_size, 4096);
}

#[test]
fn test_selective_stage_resize() {
    let stage1 = Stage::new("stage1", DOUBLE_WGSL, 1, 1024);
    let stage2 = Stage::new("stage2", DOUBLE_WGSL, 1, 1024);
    let stage3 = Stage::new("stage3", DOUBLE_WGSL, 1, 1024);

    let builder = VariableSizePipelineBuilder::<u64>::new()
        .pipe_with_size(stage1, 1024)
        .pipe_with_size(stage2, 1024)
        .pipe_with_size(stage3, 1024);

    assert_eq!(builder.stage_configs[0].output_batch_size, 1024);
    assert_eq!(builder.stage_configs[1].output_batch_size, 1024);
    assert_eq!(builder.stage_configs[2].output_batch_size, 1024);
}

// ---- more of what such a pipeline promises ----

#[test]
fn size_configs() {
    let config: StageSizeConfig<u8> = StageSizeConfig::new(
        StageConfig::Standard { stage: Stage::identity("id", 2, 4), tag: Some(9) },
        10,
        3,
    );
    assert_eq!(config.name(), "id");
    assert_eq!(config.element_size(), 12);
    assert_eq!(config.buffer_size(), 120);
    let copy = config.clone();
    assert_eq!(copy.output_batch_size, 10);
    assert_eq!(copy.vector_dim, 3);
    assert_eq!(copy.config.tag(), &Some(9));
}

#[test]
fn buffers_of_all_sizes() {
    let (pipeline, host): (VariableSizePipeline<u64>, Host) = built(
        VariableSizePipeline::builder()
            .pipe_with_size(Stage::identity("a", 2, 1), 3)
            .pipe_custom_with_size(Box::new(TestCustomStage::new("b", 2, 1)), 5),
        vec![identity, identity],
    );
    let lens: Vec<usize> = host.buffers.iter().map(|b| b.len()).collect();
    assert_eq!(lens, vec![6, 6, 6, 6, 10, 10]);
    assert_eq!(pipeline.num_stages(), 2);
    assert_eq!(pipeline.stage_output_buffer_size(0), 24);
    assert_eq!(pipeline.stage_output_buffer_size(1), 40);
    assert_eq!(pipeline.input_buffer_size(), 24);
    assert_eq!(pipeline.get_stage_buffer_sizes(0), (3, 3));
    assert_eq!(pipeline.get_stage_buffer_sizes(2), (5, 5));
    assert_eq!(pipeline.stage_config(1).name(), "b");
    assert_eq!(pipeline.side_inputs().len(), 0);
    assert_eq!(pipeline.tick_count(), 0);
}

#[test]
fn variable_builds_that_are_refused() {
    let none: VariableSizePipelineBuilder<u64> = VariableSizePipelineBuilder::default();
    let e = none.build().err().unwrap();
    assert_eq!(e.message().unwrap(), "Pipeline must have at least one stage");
    let e = VariableSizePipeline::<u64>::builder()
        .pipe_with_size(Stage::identity("a", 2, 1), 3)
        .pipe_with_size(Stage::identity("odd", 4, 1), 3)
        .build()
        .err()
        .unwrap();
    assert_eq!(
        e.message().unwrap(),
        "All stages must have the same vector dimension. Stage 'odd' has 4, expected 2"
    );
}

/// Data takes as many ticks as there are stages, whatever kind they are of, and
/// stays what is read while no other input is written.
#[test]
fn written_data_is_read() {
    let (mut pipeline, mut host): (VariableSizePipeline<u64>, Host) = built(
        VariableSizePipeline::builder()
            .pipe_with_size(Stage::new("a", DOUBLE_WGSL, 1, 4), 4)
            .pipe_custom_with_size(Box::new(TestCustomStage::new("b", 1, 4)), 4)
            .pipe_with_size(Stage::new("c", DOUBLE_WGSL, 1, 4), 4),
        vec![double, triple, double],
    );
    assert!(!pipeline.has_output());
    assert!(read(&pipeline, &host).is_none());
    for start in [0u64, 4] {
        let x = start as f32 + 1.0;
        write(&mut pipeline, &mut host, &[x, 2.0 * x, 3.0 * x, 4.0 * x]);
        for t in start + 1..start + 5 {
            tick(&mut pipeline, &mut host, t);
            let (tag, output) = read(&pipeline, &host).unwrap();
            assert_eq!(tag, Some(t));
            assert_eq!(pipeline.tick_count(), t);
            let arrived = output == vec![12.0 * x, 24.0 * x, 36.0 * x, 48.0 * x];
            assert_eq!(arrived, t >= start + 3);
        }
    }
}

/// A custom stage reads what the stage before it wrote in the tick before,
/// though that one writes again in this tick.
#[test]
fn custom_stages_lag_by_a_tick() {
    let (mut pipeline, mut host): (VariableSizePipeline<u64>, Host) = built(
        VariableSizePipeline::builder()
            .pipe_with_size(Stage::new("a", DOUBLE_WGSL, 1, 1), 1)
            .pipe_custom_with_size(Box::new(TestCustomStage::new("b", 1, 1)), 1),
        vec![double, triple],
    );
    for t in 1..6u64 {
        write(&mut pipeline, &mut host, &[t as f32]);
        tick(&mut pipeline, &mut host, t);
        assert_eq!(read(&pipeline, &host), Some((Some(t), vec![6.0 * (t - 1) as f32])));
    }
}

/// A standard stage after the first reads what the stage before it wrote in
/// the tick before.
#[test]
fn standard_stages_lag_by_a_tick() {
    let (mut pipeline, mut host): (VariableSizePipeline<u64>, Host) = built(
        VariableSizePipeline::builder()
            .pipe_with_size(Stage::identity("a", 1, 2), 2)
            .pipe_with_size(Stage::new("b", DOUBLE_WGSL, 1, 2), 2),
        vec![identity, double],
    );
    write(&mut pipeline, &mut host, &[1.0, 2.0]);
    tick(&mut pipeline, &mut host, 1);
    assert_eq!(read(&pipeline, &host), Some((Some(1), vec![0.0, 0.0])));
    write(&mut pipeline, &mut host, &[3.0, 4.0]);
    tick(&mut pipeline, &mut host, 2);
    assert_eq!(read(&pipeline, &host), Some((Some(2), vec![2.0, 4.0])));
    tick(&mut pipeline, &mut host, 3);
    assert_eq!(read(&pipeline, &host), Some((Some(3), vec![6.0, 8.0])));
}

/// Data that grows is padded with zeros, of data that shrinks the first part
/// goes on.
#[test]
fn sizes_change_between_stages() {
    let (mut pipeline, mut host): (VariableSizePipeline<u64>, Host) = built(
        VariableSizePipeline::builder()
            .pipe_with_size(Stage::identity("a", 2, 2), 2)
            .pipe_custom_with_size(Box::new(TestCustomStage::new("grow", 2, 3)), 3)
            .pipe_custom_with_size(Box::new(TestCustomStage::new("shrink", 2, 1)), 1),
        vec![identity, identity, identity],
    );
    write(&mut pipeline, &mut host, &[1.0, 2.0, 3.0, 4.0]);
    tick(&mut pipeline, &mut host, 1);
    tick(&mut pipeline, &mut host, 2);
    assert_eq!(host.buffers[5], vec![1.0, 2.0, 3.0, 4.0, 0.0, 0.0]);
    tick(&mut pipeline, &mut host, 3);
    assert_eq!(read(&pipeline, &host), Some((Some(3), vec![1.0, 2.0])));
}

/// Every scalar of a wide batch is covered.
#[test]
fn wide_batches_are_covered() {
    let (mut pipeline, mut host): (VariableSizePipeline<u64>, Host) = built(
        VariableSizePipeline::builder().pipe_with_size(Stage::identity("a", 3, 100), 100),
        vec![identity],
    );
    let data: Vec<f32> = (0..300).map(|i| i as f32).collect();
    write(&mut pipeline, &mut host, &data);
    tick(&mut pipeline, &mut host, 7);
    assert_eq!(read(&pipeline, &host), Some((Some(7), data)));
}

#[test]
fn resizing_one_buffer() {
    let (mut pipeline, mut host): (VariableSizePipeline<u64>, Host) = built(
        VariableSizePipeline::builder().pipe_with_size(Stage::identity("a", 1, 4), 4),
        vec![identity],
    );
    write(&mut pipeline, &mut host, &[1.0, 2.0, 3.0, 4.0]);
    tick(&mut pipeline, &mut host, 1);
    // The output of the tick rests in buffer 2; buffer 3 is written next.
    let resize = pipeline.resize_stage(1, 6).unwrap();
    assert_eq!(resize, BufferResize { index: 2, new_size: 24, copy_size: 16 });
    replace(&mut host, &resize);
    pipeline.complete_resize_stage(1, 6);
    assert_eq!(pipeline.get_stage_buffer_sizes(1), (6, 4));
    assert_eq!(pipeline.stage_output_buffer_size(0), 24);
    assert_eq!(read(&pipeline, &host), Some((Some(1), vec![1.0, 2.0, 3.0, 4.0, 0.0, 0.0])));
    let pass = pipeline.stage_pass(0).unwrap();
    assert!(matches!(pass.work, StageWork::Dispatch { create_bind_groups: true, .. }));
    assert_eq!((pass.output, pass.elements), (3, 6));

    // Input buffers: buffer 1 is written next, so buffer 0 is replaced.
    let resize = pipeline.resize_stage(0, 2).unwrap();
    assert_eq!(resize, BufferResize { index: 0, new_size: 8, copy_size: 8 });
    replace(&mut host, &resize);
    pipeline.complete_resize_stage(0, 2);
    assert_eq!(pipeline.get_stage_buffer_sizes(0), (2, 4));
    assert_eq!(pipeline.write_buffer_size(), 16);
    assert_eq!(pipeline.output_buffer_size(), 24);
    assert!(pipeline.has_output());
    let e = pipeline.write_input(&[1.0f32, 2.0, 3.0]).err().unwrap();
    assert_eq!(
        e.message().unwrap(),
        "Input size 12 bytes exceeds stage 0 buffer size 8 bytes"
    );
    assert_eq!(
        pipeline.write_input(&[5u64]).unwrap(),
        InputWrite { buffer: 1, bytes: 8 }
    );
}

#[test]
fn resizing_both_buffers() {
    let (mut pipeline, mut host): (VariableSizePipeline<u64>, Host) = built(
        VariableSizePipeline::builder()
            .pipe_with_size(Stage::identity("a", 2, 2), 2)
            .pipe_with_size(Stage::identity("b", 2, 2), 2),
        vec![identity, identity],
    );
    tick(&mut pipeline, &mut host, 1);
    let resizes = pipeline.resize_stage_both(2, 5).unwrap();
    assert_eq!(
        resizes,
        vec![
            BufferResize { index: 4, new_size: 40, copy_size: 16 },
            BufferResize { index: 5, new_size: 40, copy_size: 16 },
        ]
    );
    assert_eq!(pipeline.get_stage_buffer_sizes(2), (2, 2));
    pipeline.complete_resize_stage_both(2, 5);
    assert_eq!(pipeline.get_stage_buffer_sizes(2), (5, 5));
    let first = pipeline.stage_pass(0).unwrap();
    let second = pipeline.stage_pass(1).unwrap();
    assert!(matches!(first.work, StageWork::Dispatch { create_bind_groups: false, .. }));
    assert!(matches!(second.work, StageWork::Dispatch { create_bind_groups: true, .. }));

    let e = pipeline.resize_stage(3, 5).err().unwrap();
    assert_eq!(e.message().unwrap(), "Stage index 3 out of bounds (max 2)");
    assert!(matches!(
        pipeline.resize_stage_both(7, 5),
        Err(PipelineError::StageOutOfBounds { index: 7, max: 2 })
    ));
    assert_eq!(pipeline.get_stage_buffer_sizes(1), (2, 2));
    let (tag, readback) = pipeline.read_output().unwrap();
    assert_eq!(tag, Some(1));
    assert_eq!(readback, Readback { buffer: 4, bytes: 40, scalars: 10 });
}

#[test]
fn custom_stages_are_told_and_initialized() {
    let mut willing = TestCustomStage::new("willing", 1, 4);
    willing.needs_context = true;
    let mut limited = TestCustomStage::new("limited", 1, 4);
    limited.limit = 3;
    let told = willing.told.clone();
    let refused = limited.told.clone();
    let built = VariableSizePipeline::<u64>::builder()
        .pipe_custom_with_size(Box::new(willing), 4)
        .pipe_custom_with_size(Box::new(limited), 4)
        .build()
        .unwrap();
    assert!(built.resources.iter().all(|r| !r.compute_pipeline && !r.custom_layout));
    let mut pipeline = built.pipeline;
    let context = noop_context();
    assert!(pipeline.initialize_stages(&context).is_ok());
    pipeline.tick(1);
    let pass = pipeline.stage_pass(0).unwrap();
    assert_eq!(pass.work, StageWork::Encode);
    assert_eq!((pass.input, pass.output), (1, 2));
    pipeline.stage_encoded(0);
    assert!(matches!(pipeline.stage_pass(1), Err(PipelineError::Stage(_))));
    pipeline.finish_tick(TickEvent::PollFailed);
    assert_eq!(pipeline.tick_count(), 0);
    assert_eq!(*told.lock().unwrap(), vec!["initialize", "elements 4", "n 4"]);
    assert_eq!(*refused.lock().unwrap(), vec!["elements 4"]);
}

/// The same stages in a pipeline of one size.
#[test]
fn custom_stages_of_one_size() {
    let mut failing = TestCustomStage::new("failing", 1, 4);
    failing.needs_context = true;
    failing.limit = 3;
    let last = TestCustomStage::new("last", 1, 4);
    let told = failing.told.clone();
    let untold = last.told.clone();
    let mut pipeline: Pipeline<u64> = Pipeline::new()
        .pipe_custom(Box::new(failing))
        .pipe_custom(Box::new(last))
        .build()
        .unwrap()
        .pipeline;
    let context = noop_context();
    assert!(matches!(pipeline.initialize_stages(&context), Err(PipelineError::Stage(_))));
    assert!(matches!(pipeline.update_stage_n(9), Err(PipelineError::Stage(_))));
    assert!(pipeline.update_stage_n(2).is_ok());
    pipeline.complete_resize(8);
    assert!(matches!(pipeline.complete_resize_with_stages(9, 2), Err(PipelineError::Stage(_))));
    assert_eq!((pipeline.batch_size(), pipeline.vector_dim()), (9, 2));
    assert_eq!(
        *told.lock().unwrap(),
        vec!["initialize", "n 9", "n 2", "resize 8 1", "resize 9 1", "resize 9 2"]
    );
    assert_eq!(*untold.lock().unwrap(), vec!["n 2", "resize 8 1", "resize 9 1"]);
}

/// Every kind of resize tells the stages that can be resized both sizes.
#[test]
fn stages_are_told_of_resizes() {
    let willing = TestCustomStage::new("willing", 1, 4);
    let mut fixed = TestCustomStage::new("fixed", 1, 4);
    fixed.limit = 0;
    let told = willing.told.clone();
    let untold = fixed.told.clone();
    let mut pipeline: Pipeline<u64> = Pipeline::new()
        .pipe_custom(Box::new(willing))
        .pipe_custom(Box::new(fixed))
        .build()
        .unwrap()
        .pipeline;
    pipeline.complete_resize(8);
    pipeline.complete_resize_dynamic(6, 3);
    assert_eq!((pipeline.batch_size(), pipeline.vector_dim()), (6, 3));
    assert!(pipeline.complete_resize_with_stages(6, 2).is_ok());
    assert_eq!(*told.lock().unwrap(), vec!["resize 8 1", "resize 6 3", "resize 6 2"]);
    assert!(untold.lock().unwrap().is_empty());
}

/// One buffer now, the other one after the roles were exchanged.
#[test]
fn resizing_one_after_the_other() {
    let (mut pipeline, mut host): (VariableSizePipeline<u64>, Host) = built(
        VariableSizePipeline::builder().pipe_with_size(Stage::identity("a", 1, 4), 4),
        vec![identity],
    );
    for (t, sizes) in [(1u64, (4, 8)), (2, (8, 8))] {
        let resize = pipeline.resize_stage(1, 8).unwrap();
        replace(&mut host, &resize);
        pipeline.complete_resize_stage(1, 8);
        assert_eq!(pipeline.get_stage_buffer_sizes(1), sizes);
        tick(&mut pipeline, &mut host, t);
    }
    for sizes in [(4, 2), (2, 2)] {
        let resize = pipeline.resize_stage(0, 2).unwrap();
        replace(&mut host, &resize);
        pipeline.complete_resize_stage(0, 2);
        assert_eq!(pipeline.get_stage_buffer_sizes(0), sizes);
        write(&mut pipeline, &mut host, &[1.0, 2.0]);
    }
}

/// Nothing changes before the device has done its part.
#[test]
fn a_resize_counts_when_it_is_done() {
    let (mut pipeline, _host): (VariableSizePipeline<u64>, Host) = built(
        VariableSizePipeline::builder().pipe_with_size(Stage::identity("a", 1, 4), 4),
        vec![identity],
    );
    let resize = pipeline.resize_stage(1, 6).unwrap();
    assert_eq!(resize, BufferResize { index: 3, new_size: 24, copy_size: 16 });
    assert_eq!(pipeline.resize_stage(1, 6).unwrap(), resize);
    assert_eq!(pipeline.get_stage_buffer_sizes(1), (4, 4));
    assert_eq!(pipeline.stage_output_buffer_size(0), 16);
    pipeline.complete_resize_stage(1, 6);
    assert_eq!(pipeline.get_stage_buffer_sizes(1), (4, 6));
    assert_eq!(pipeline.stage_output_buffer_size(0), 24);
    assert_eq!(pipeline.resize_stage_both(0, 7).unwrap().len(), 2);
    assert_eq!(pipeline.get_stage_buffer_sizes(0), (4, 4));
    pipeline.complete_resize_stage_both(0, 7);
    assert_eq!(pipeline.get_stage_buffer_sizes(0), (7, 7));
}

/// Input consists of whole vectors.
#[test]
fn variable_input_is_validated() {
    let (mut pipeline, mut host): (VariableSizePipeline<u64>, Host) = built(
        VariableSizePipeline::builder().pipe_with_size(Stage::identity("a", 2, 4), 4),
        vec![identity],
    );
    let e = pipeline.write_input(&[1.0f32, 2.0, 3.0]).err().unwrap();
    assert!(matches!(
        e,
        PipelineError::PartialVector { bytes: 12, element_size: 8, vector_dim: 2 }
    ));
    assert!(e.message().unwrap().contains("12"));
    assert!(matches!(
        pipeline.write_input(&[0u8; 5]),
        Err(PipelineError::PartialVector { bytes: 5, element_size: 8, vector_dim: 2 })
    ));
    assert!(matches!(
        pipeline.write_input(&[0.0f32; 9]),
        Err(PipelineError::InputTooLarge { .. })
    ));
    // What was refused exchanged nothing.
    assert_eq!(
        pipeline.write_input(&[1.0f32, 2.0]).unwrap(),
        InputWrite { buffer: 0, bytes: 8 }
    );
    write(&mut pipeline, &mut host, &[1.0; 8]);
    assert_eq!(host.buffers[1], vec![1.0; 8]);

    // The stage has room for six vectors from now on, its other buffer has not.
    let resize = pipeline.resize_stage(0, 6).unwrap();
    assert_eq!(resize, BufferResize { index: 1, new_size: 48, copy_size: 32 });
    replace(&mut host, &resize);
    pipeline.complete_resize_stage(0, 6);
    assert!(matches!(
        pipeline.write_input(&[1.0f32; 10]),
        Err(PipelineError::InputTooLarge { bytes: 40, capacity: 32 })
    ));
    write(&mut pipeline, &mut host, &[2.0; 8]);
    write(&mut pipeline, &mut host, &[3.0; 10]);
    assert_eq!(host.buffers[1][..10], [3.0; 10]);
}

/// A stage that implements no more than it has to.
struct PlainStage;

impl PipelineStage for PlainStage {
    fn name(&self) -> &str {
        "plain"
    }

    fn vector_dim(&self) -> usize {
        1
    }

    fn batch_size(&self) -> usize {
        4
    }

    fn encode(
        &self,
        _encoder: &mut wgpu::CommandEncoder,
        _input: &wgpu::Buffer,
        _output: &wgpu::Buffer,
        _side_inputs: &SideInputs<Arc<wgpu::Buffer>>,
    ) -> anyhow::Result<()> {
        Ok(())
    }

    fn initialize(&mut self, _context: &ComputeContext) -> anyhow::Result<()> {
        Ok(())
    }
}

#[test]
fn plain_stages_ignore_what_they_are_told() {
    let plain = PlainStage;
    assert!(!plain.supports_dynamic_resizing());
    assert!(plain.requires_initialization());
    assert!(plain.side_input_names().is_empty());
    let mut pipeline: Pipeline<u64> =
        Pipeline::new().pipe_custom(Box::new(plain)).build().unwrap().pipeline;
    assert!(pipeline.update_stage_n(9).is_ok());
    assert!(pipeline.complete_resize_with_stages(8, 2).is_ok());
    let pass = pipeline.stage_pass(0).unwrap();
    assert_eq!((pass.elements, pass.n, pass.work), (8, 8, StageWork::Encode));
}

/// The error of the first stage that fails is the one that comes back.
#[test]
fn errors_of_stages_come_back() {
    let mut first = TestCustomStage::new("first", 1, 4);
    first.needs_context = true;
    let mut second = TestCustomStage::new("second", 1, 4);
    second.needs_context = true;
    second.limit = 3;
    let mut third = TestCustomStage::new("third", 1, 4);
    third.limit = 2;
    let untold = third.told.clone();
    let mut pipeline: Pipeline<u64> = Pipeline::new()
        .pipe_custom(Box::new(first))
        .pipe_custom(Box::new(second))
        .pipe_custom(Box::new(third))
        .build()
        .unwrap()
        .pipeline;
    let of = |result: Result<(), PipelineError>| match result {
        Err(PipelineError::Stage(e)) => e.to_string(),
        _ => panic!("no error of a stage"),
    };
    assert_eq!(of(pipeline.update_stage_n(5)), "second: too large");
    assert_eq!(of(pipeline.update_stage_n(3)), "third: too large");
    assert_eq!(of(pipeline.initialize_stages(&noop_context())), "second: too large");
    assert_eq!(of(pipeline.complete_resize_with_stages(4, 1)), "second: too large");
    assert_eq!(of(pipeline.stage_pass(1).map(|_| ())), "second: too large");
    assert_eq!(*untold.lock().unwrap(), vec!["n 3"]);
}

/// Stages are initialized with the context that was set, or else with a fresh
/// one.
#[test]
fn contexts_reach_the_stages() {
    let context = Arc::new(noop_context());
    let other = Arc::new(noop_context());
    let at = |c: &Arc<ComputeContext>| Some(format!("{:p}", &**c));
    for set in [true, false] {
        let stages: Vec<TestCustomStage> = (0..3)
            .map(|i| {
                let mut stage = TestCustomStage::new("s", 1, 4);
                stage.needs_context = i != 1;
                stage
            })
            .collect();
        let seen: Vec<Arc<Mutex<Option<String>>>> =
            stages.iter().map(|s| s.context.clone()).collect();
        let mut builder = Pipeline::<u64>::new();
        for (i, stage) in stages.into_iter().enumerate() {
            builder = builder.pipe_custom(Box::new(stage));
            if set && i == 1 {
                builder = builder.with_context(Arc::clone(&context));
            }
        }
        let mut built = builder.build().unwrap();
        assert_eq!(built.needs_context(), !set);
        assert!(built.initialize(Some(Arc::clone(&other))).is_ok());
        let used = if set { &context } else { &other };
        assert!(Arc::ptr_eq(built.context.as_ref().unwrap(), used));
        assert_eq!(built.pipeline.num_stages(), 3);
        assert_eq!(*seen[0].lock().unwrap(), at(used));
        assert_eq!(*seen[1].lock().unwrap(), None);
        assert_eq!(*seen[2].lock().unwrap(), at(used));
    }

    let mut stage = TestCustomStage::new("v", 1, 4);
    stage.needs_context = true;
    let seen = stage.context.clone();
    let mut built = VariableSizePipeline::<u64>::builder()
        .with_context(Arc::clone(&context))
        .pipe_custom_with_size(Box::new(stage), 4)
        .build()
        .unwrap();
    assert!(!built.needs_context());
    assert!(built.initialize(None).is_ok());
    assert!(Arc::ptr_eq(built.context.as_ref().unwrap(), &context));
    assert_eq!(*seen.lock().unwrap(), at(&context));
}

fn storage(binding: u32, read_only: bool) -> wgpu::BindGroupLayoutEntry {
    wgpu::BindGroupLayoutEntry {
        binding,
        visibility: wgpu::ShaderStages::COMPUTE,
        ty: wgpu::BindingType::Buffer {
            ty: wgpu::BufferBindingType::Storage { read_only },
            has_dynamic_offset: false,
            min_binding_size: None,
        },
        count: None,
    }
}

/// A stage's own layout is taken as it is.
#[test]
fn variable_stages_bring_their_layouts() {
    let mut two = Stage::identity("two", 1, 4);
    two.bind_group_entries = Some(vec![storage(3, true), storage(7, false)]);
    let mut three = Stage::identity("three", 1, 4);
    three.bind_group_entries =
        Some(vec![storage(0, true), storage(1, true), storage(2, false)]);
    let built = VariableSizePipeline::<u64>::builder()
        .pipe_with_size(two, 4)
        .pipe_with_size(three, 4)
        .pipe_with_size(Stage::identity("plain", 1, 4), 4)
        .build()
        .unwrap();
    let custom: Vec<bool> = built.resources.iter().map(|r| r.custom_layout).collect();
    assert_eq!(custom, vec![true, true, false]);
    assert!(built.resources.iter().all(|r| r.compute_pipeline));
    let bound = |i: usize, variant: usize, state: usize| -> Vec<(u32, usize)> {
        built
            .pipeline
            .create_bind_group_for_stage(i, variant, state)
            .iter()
            .map(|e| (e.binding, e.buffer))
            .collect()
    };
    assert_eq!(bound(0, 1, 0), vec![(3, 1), (7, 2)]);
    assert_eq!(bound(1, 0, 1), vec![(0, 2), (1, 2), (2, 5)]);
    assert_eq!(bound(2, 1, 1), vec![(0, 5), (1, 7)]);
}
