//! Pipelines with custom stages and side inputs. The commands are encoded and
//! validated on wgpu's no-op device, which copies buffers but runs no shader;
//! what the shaders compute is computed on the host.

use std::sync::Arc;

use wgsl_ping_pong_pipeline::pipeline::ping_pong::{InputAction, TickEvent};
use wgsl_ping_pong_pipeline::pipeline::{
    Pipeline, PipelineBuilder, PipelineStage, Stage, StageConfig,
};
use wgsl_ping_pong_pipeline::plan::{create_bind_group_layout, StagePass, StageWork};
use wgsl_ping_pong_pipeline::side_inputs::SideInputs;
use wgsl_ping_pong_pipeline::wgpu_utils::{
    readback_buffer_usages, stage_buffer_usages, staging_buffer_usages, BufferUsages,
    ComputeContext,
};
use wgsl_ping_pong_pipeline::PipelineError;

/// Identity WGSL shader for custom stages
const IDENTITY_WGSL: &str = r#"
@group(0) @binding(0)
var<storage, read> input: array<f32>;

@group(0) @binding(1)
var<storage, read_write> output: array<f32>;

@compute @workgroup_size(64)
fn main(@builtin(global_invocation_id) id: vec3<u32>) {
    let idx = id.x;
    if (idx >= arrayLength(&input)) { return; }
    output[idx] = input[idx];
}
"#;

/// Double WGSL shader for custom stages
const DOUBLE_WGSL: &str = r#"
@group(0) @binding(0)
var<storage, read> input: array<f32>;

@group(0) @binding(1)
var<storage, read_write> output: array<f32>;

@compute @workgroup_size(64)
fn main(@builtin(global_invocation_id) id: vec3<u32>) {
    let idx = id.x;
    if (idx >= arrayLength(&input)) { return; }
    output[idx] = input[idx] * 2.0;
}
"#;

/// Triple WGSL shader for custom stages
const TRIPLE_WGSL: &str = r#"
@group(0) @binding(0)
var<storage, read> input: array<f32>;

@group(0) @binding(1)
var<storage, read_write> output: array<f32>;

@compute @workgroup_size(64)
fn main(@builtin(global_invocation_id) id: vec3<u32>) {
    let idx = id.x;
    if (idx >= arrayLength(&input)) { return; }
    output[idx] = input[idx] * 3.0;
}
"#;

/// Multiply with side input WGSL shader
/// Uses binding 0 for input, binding 1 for multiplier buffer, binding 2 for output
const MULTIPLY_WITH_SIDE_WGSL: &str = r#"
@group(0) @binding(0)
var<storage, read> input: array<f32>;

@group(0) @binding(1)
var<storage, read> multiplier: array<f32>;

@group(0) @binding(2)
var<storage, read_write> output: array<f32>;

@compute @workgroup_size(64)
fn main(@builtin(global_invocation_id) id: vec3<u32>) {
    let idx = id.x;
    if (idx >= arrayLength(&input)) { return; }
    output[idx] = input[idx] * multiplier[0];
}
"#;

fn usages(usages: BufferUsages) -> wgpu::BufferUsages {
    wgpu::BufferUsages::from_bits(usages.bits).unwrap()
}

fn noop_context() -> ComputeContext {
    let instance = wgpu::Instance::new(wgpu::InstanceDescriptor {
        backends: wgpu::Backends::NOOP,
        backend_options: wgpu::BackendOptions {
            noop: wgpu::NoopBackendOptions { enable: true, ..Default::default() },
            ..Default::default()
        },
        ..wgpu::InstanceDescriptor::new_without_display_handle()
    });
    let adapter =
        pollster::block_on(instance.request_adapter(&wgpu::RequestAdapterOptions::default()))
            .unwrap();
    let (device, queue) =
        pollster::block_on(adapter.request_device(&wgpu::DeviceDescriptor::default())).unwrap();
    ComputeContext { instance, adapter, device, queue }
}

fn new_buffer(context: &ComputeContext, size: u64) -> wgpu::Buffer {
    context.device.create_buffer(&wgpu::BufferDescriptor {
        label: None,
        size,
        usage: usages(stage_buffer_usages()),
        mapped_at_creation: false,
    })
}

fn wait(context: &ComputeContext) {
    context
        .device
        .poll(wgpu::PollType::Wait { submission_index: None, timeout: None })
        .unwrap();
}

fn bytes_of(data: &[f32]) -> Vec<u8> {
    data.iter().flat_map(|x| x.to_le_bytes()).collect()
}

/// The contents of a buffer on the device.
fn contents(context: &ComputeContext, buffer: &wgpu::Buffer) -> Vec<f32> {
    let readback = context.device.create_buffer(&wgpu::BufferDescriptor {
        label: None,
        size: buffer.size(),
        usage: usages(readback_buffer_usages()),
        mapped_at_creation: false,
    });
    let mut encoder =
        context.device.create_command_encoder(&wgpu::CommandEncoderDescriptor { label: None });
    encoder.copy_buffer_to_buffer(buffer, 0, &readback, 0, buffer.size());
    context.queue.submit(Some(encoder.finish()));
    let slice = readback.slice(..);
    slice.map_async(wgpu::MapMode::Read, |result| result.unwrap());
    wait(context);
    let mapped = slice.get_mapped_range();
    let bytes: &[u8] = &mapped;
    bytes.chunks(4).map(|c| f32::from_le_bytes([c[0], c[1], c[2], c[3]])).collect()
}

fn storage_entry(binding: u32, read_only: bool) -> wgpu::BindGroupLayoutEntry {
    wgpu::BindGroupLayoutEntry {
        binding,
        visibility: wgpu::ShaderStages::COMPUTE,
        ty: wgpu::BindingType::Buffer {
            ty: wgpu::BufferBindingType::Storage { read_only },
            has_dynamic_offset: false,
            min_binding_size: None,
        },
        count: None,
    }
}

fn compute_pipeline(
    context: &ComputeContext,
    wgsl: &str,
    layout: &wgpu::BindGroupLayout,
) -> wgpu::ComputePipeline {
    let module = context.device.create_shader_module(wgpu::ShaderModuleDescriptor {
        label: None,
        source: wgpu::ShaderSource::Wgsl(wgsl.into()),
    });
    let pipeline_layout =
        context.device.create_pipeline_layout(&wgpu::PipelineLayoutDescriptor {
            label: None,
            bind_group_layouts: &[Some(layout)],
            immediate_size: 0,
        });
    context.device.create_compute_pipeline(&wgpu::ComputePipelineDescriptor {
        label: None,
        layout: Some(&pipeline_layout),
        module: &module,
        entry_point: Some("main"),
        compilation_options: Default::default(),
        cache: None,
    })
}

/// A custom stage that uses WGSL shaders internally.
struct WgslCustomStage {
    name: String,
    wgsl: String,
    vector_dim: usize,
    batch_size: usize,
    device: Option<wgpu::Device>,
    compute_pipeline: Option<wgpu::ComputePipeline>,
    bind_group_layout: Option<wgpu::BindGroupLayout>,
    use_side_input: bool,
}

impl WgslCustomStage {
    fn new(name: &str, wgsl: &str, vector_dim: usize, batch_size: usize) -> Self {
        Self {
            name: name.to_string(),
            wgsl: wgsl.to_string(),
            vector_dim,
            batch_size,
            device: None,
            compute_pipeline: None,
            bind_group_layout: None,
            use_side_input: false,
        }
    }

    fn with_side_input(name: &str, wgsl: &str, vector_dim: usize, batch_size: usize) -> Self {
        Self { use_side_input: true, ..Self::new(name, wgsl, vector_dim, batch_size) }
    }
}

impl PipelineStage for WgslCustomStage {
    fn name(&self) -> &str {
        &self.name
    }

    fn vector_dim(&self) -> usize {
        self.vector_dim
    }

    fn batch_size(&self) -> usize {
        self.batch_size
    }

    fn side_input_names(&self) -> Vec<&str> {
        if self.use_side_input {
            vec!["multiplier"]
        } else {
            Vec::new()
        }
    }

    fn encode(
        &self,
        encoder: &mut wgpu::CommandEncoder,
        input: &wgpu::Buffer,
        output: &wgpu::Buffer,
        side_inputs: &SideInputs<Arc<wgpu::Buffer>>,
    ) -> anyhow::Result<()> {
        let mut buffers = vec![input];
        if self.use_side_input {
            match side_inputs.get("multiplier") {
                Some(multiplier) => buffers.push(multiplier),
                None => return Err(anyhow::Error::msg("Side input 'multiplier' not found")),
            }
        }
        buffers.push(output);
        let entries: Vec<wgpu::BindGroupEntry> = buffers
            .iter()
            .enumerate()
            .map(|(i, b)| wgpu::BindGroupEntry {
                binding: i as u32,
                resource: b.as_entire_binding(),
            })
            .collect();
        let bind_group =
            self.device.as_ref().unwrap().create_bind_group(&wgpu::BindGroupDescriptor {
                label: None,
                layout: self.bind_group_layout.as_ref().unwrap(),
                entries: &entries,
            });
        let mut pass = encoder.begin_compute_pass(&wgpu::ComputePassDescriptor {
            label: None,
            timestamp_writes: None,
        });
        pass.set_pipeline(self.compute_pipeline.as_ref().unwrap());
        pass.set_bind_group(0, &bind_group, &[]);
        pass.dispatch_workgroups((self.batch_size * self.vector_dim).div_ceil(64) as u32, 1, 1);
        Ok(())
    }

    fn initialize(&mut self, context: &ComputeContext) -> anyhow::Result<()> {
        self.device = Some(context.device.clone());
        let entries = if self.use_side_input {
            vec![storage_entry(0, true), storage_entry(1, true), storage_entry(2, false)]
        } else {
            vec![storage_entry(0, true), storage_entry(1, false)]
        };
        let layout = context.device.create_bind_group_layout(
            &wgpu::BindGroupLayoutDescriptor { label: None, entries: &entries },
        );
        self.compute_pipeline = Some(compute_pipeline(context, &self.wgsl, &layout));
        self.bind_group_layout = Some(layout);
        Ok(())
    }
}

/// What a stage's shader multiplies each scalar by.
#[derive(Clone, Copy)]
enum Factor {
    Fixed(f32),
    SideInput(&'static str),
}

/// A pipeline, its buffers on the no-op device, and their contents as the
/// shaders would leave them.
struct Rig {
    context: Arc<ComputeContext>,
    pipeline: Pipeline<u64>,
    buffers: Vec<wgpu::Buffer>,
    layout: wgpu::BindGroupLayout,
    compute_pipelines: Vec<Option<wgpu::ComputePipeline>>,
    memory: Vec<Vec<f32>>,
    factors: Vec<Factor>,
}

fn rig(builder: PipelineBuilder<u64>, factors: Vec<Factor>) -> Rig {
    rig_with(Arc::new(noop_context()), builder, factors)
}

fn rig_with(
    context: Arc<ComputeContext>,
    builder: PipelineBuilder<u64>,
    factors: Vec<Factor>,
) -> Rig {
    let built = builder.with_context(Arc::clone(&context)).build().unwrap();
    let context = built.context.unwrap();
    let mut pipeline = built.pipeline;
    assert!(pipeline.initialize_stages(&context).is_ok());
    let entries: Vec<wgpu::BindGroupLayoutEntry> =
        create_bind_group_layout().iter().map(|e| storage_entry(e.binding, e.read_only)).collect();
    let layout = context.device.create_bind_group_layout(&wgpu::BindGroupLayoutDescriptor {
        label: None,
        entries: &entries,
    });
    let compute_pipelines = (0..pipeline.num_stages())
        .map(|i| match pipeline.stage_config(i) {
            StageConfig::Standard { stage, .. } => {
                assert!(built.resources[i].compute_pipeline);
                Some(compute_pipeline(&context, &stage.wgsl, &layout))
            }
            StageConfig::Custom { .. } => {
                assert!(!built.resources[i].compute_pipeline);
                None
            }
        })
        .collect();
    Rig {
        buffers: built.buffer_sizes.iter().map(|s| new_buffer(&context, *s)).collect(),
        memory: built.buffer_sizes.iter().map(|s| vec![0.0; *s as usize / 4]).collect(),
        context,
        pipeline,
        layout,
        compute_pipelines,
        factors,
    }
}

impl Rig {
    fn write_input(&mut self, data: &[f32]) {
        match self.pipeline.write_input(data).unwrap() {
            InputAction::Resize(_) => panic!("the data should fit"),
            InputAction::Write(write) => {
                self.context.queue.write_buffer(
                    &self.buffers[write.buffer],
                    0,
                    &bytes_of(data),
                );
                self.memory[write.buffer][..data.len()].copy_from_slice(data);
            }
        }
    }

    fn compute(&mut self, pass: &StagePass, invocations: usize) {
        let factor = match self.factors[pass.stage] {
            Factor::Fixed(f) => f,
            Factor::SideInput(name) => {
                let buffer = self.pipeline.get_side_input(name).unwrap();
                contents(&self.context, buffer)[0]
            }
        };
        let input = self.memory[pass.input].clone();
        let output = &mut self.memory[pass.output];
        for idx in 0..invocations {
            if idx < input.len() && idx < output.len() {
                output[idx] = input[idx] * factor;
            }
        }
    }

    fn tick(&mut self, tag: u64) {
        let mut encoder = self
            .context
            .device
            .create_command_encoder(&wgpu::CommandEncoderDescriptor { label: None });
        self.pipeline.tick(tag);
        for i in 0..self.pipeline.num_stages() {
            let pass = self.pipeline.stage_pass(i).unwrap();
            match pass.work {
                StageWork::Dispatch { input_variant, output_state, groups, .. } => {
                    let planned = self.pipeline.create_bind_group_for_stage(
                        i,
                        input_variant,
                        output_state,
                    );
                    let entries: Vec<wgpu::BindGroupEntry> = planned
                        .iter()
                        .map(|e| wgpu::BindGroupEntry {
                            binding: e.binding,
                            resource: self.buffers[e.buffer].as_entire_binding(),
                        })
                        .collect();
                    let bind_group =
                        self.context.device.create_bind_group(&wgpu::BindGroupDescriptor {
                            label: None,
                            layout: &self.layout,
                            entries: &entries,
                        });
                    let mut compute_pass =
                        encoder.begin_compute_pass(&wgpu::ComputePassDescriptor {
                            label: None,
                            timestamp_writes: None,
                        });
                    compute_pass.set_pipeline(self.compute_pipelines[i].as_ref().unwrap());
                    compute_pass.set_bind_group(0, &bind_group, &[]);
                    compute_pass.dispatch_workgroups(groups, 1, 1);
                    drop(compute_pass);
                    self.compute(&pass, groups as usize * 64);
                }
                StageWork::Encode => {
                    let stage = self.pipeline.stage_config(i).as_custom().unwrap();
                    stage
                        .encode(
                            &mut encoder,
                            &self.buffers[pass.input],
                            &self.buffers[pass.output],
                            self.pipeline.side_inputs(),
                        )
                        .unwrap();
                    self.compute(&pass, usize::MAX.min(self.memory[pass.input].len()));
                }
            }
            self.pipeline.stage_encoded(i);
        }
        self.context.queue.submit(Some(encoder.finish()));
        wait(&self.context);
        self.pipeline.finish_tick(TickEvent::Completed);
    }

    fn read_output(&mut self) -> Option<(u64, Vec<f32>)> {
        let readback = self.pipeline.read_output()?;
        let output = self.memory[readback.buffer][..readback.scalars].to_vec();
        assert!(readback.bytes <= self.buffers[readback.buffer].size());
        self.pipeline.take_output().map(|t| (t, output))
    }
}

const INPUT: [f32; 8] = [1.0, 2.0, 3.0, 4.0, 5.0, 6.0, 7.0, 8.0];

// ---- scenarios ----

/// Single custom identity stage pipeline
#[test]
fn test_single_custom_identity_stage() {
    let custom_stage = WgslCustomStage::new("custom_identity", IDENTITY_WGSL, 2, 4);
    let mut rig =
        rig(Pipeline::new().pipe_custom(Box::new(custom_stage)), vec![Factor::Fixed(1.0)]);

    assert_eq!(rig.pipeline.num_stages(), 1);
    assert_eq!(rig.pipeline.vector_dim(), 2);
    assert_eq!(rig.pipeline.batch_size(), 4);

    let input: Vec<f32> = INPUT.to_vec();
    rig.write_input(&input);
    rig.tick(1);
    let Some((_tag, output)) = rig.read_output() else {
        panic!("Output should be ready after ticking");
    };
    assert_eq!(output, input);
}

/// Single custom double stage pipeline
#[test]
fn test_single_custom_double_stage() {
    let custom_stage = WgslCustomStage::new("custom_double", DOUBLE_WGSL, 2, 4);
    let mut rig =
        rig(Pipeline::new().pipe_custom(Box::new(custom_stage)), vec![Factor::Fixed(2.0)]);

    assert_eq!(rig.pipeline.num_stages(), 1);
    assert_eq!(rig.pipeline.vector_dim(), 2);
    assert_eq!(rig.pipeline.batch_size(), 4);

    let expected: Vec<f32> = vec![2.0, 4.0, 6.0, 8.0, 10.0, 12.0, 14.0, 16.0];
    rig.write_input(&INPUT);
    rig.tick(1);
    let Some((_tag, output)) = rig.read_output() else {
        panic!("Output should be ready after ticking");
    };
    assert_eq!(output, expected);
}

/// Two custom identity stages in sequence
#[test]
fn test_two_custom_identity_stages() {
    let mut rig = rig(
        Pipeline::new()
            .pipe_custom(Box::new(WgslCustomStage::new("custom_id1", IDENTITY_WGSL, 2, 4)))
            .pipe_custom(Box::new(WgslCustomStage::new("custom_id2", IDENTITY_WGSL, 2, 4))),
        vec![Factor::Fixed(1.0), Factor::Fixed(1.0)],
    );
    assert_eq!(rig.pipeline.num_stages(), 2);

    let input: Vec<f32> = INPUT.to_vec();
    rig.write_input(&input);
    rig.tick(1);
    rig.tick(1);
    let Some((_tag, output)) = rig.read_output() else {
        panic!("Output should be ready after ticking");
    };
    assert_eq!(output, input);
}

/// Mixed pipeline - standard stage followed by custom stage
#[test]
fn test_mixed_standard_then_custom() {
    let mut rig = rig(
        Pipeline::new()
            .pipe(Stage::identity("standard_id", 2, 4))
            .pipe_custom(Box::new(WgslCustomStage::new("custom_double", DOUBLE_WGSL, 2, 4))),
        vec![Factor::Fixed(1.0), Factor::Fixed(2.0)],
    );
    assert_eq!(rig.pipeline.num_stages(), 2);

    let expected: Vec<f32> = vec![2.0, 4.0, 6.0, 8.0, 10.0, 12.0, 14.0, 16.0];
    rig.write_input(&INPUT);
    rig.tick(1);
    rig.tick(1);
    let Some((_tag, output)) = rig.read_output() else {
        panic!("Output should be ready after ticking");
    };
    assert_eq!(output, expected);
}

/// Mixed pipeline - custom stage followed by standard stage
#[test]
fn test_mixed_custom_then_standard() {
    let mut rig = rig(
        Pipeline::new()
            .pipe_custom(Box::new(WgslCustomStage::new("custom_double", DOUBLE_WGSL, 2, 4)))
            .pipe(Stage::identity("standard_id", 2, 4)),
        vec![Factor::Fixed(2.0), Factor::Fixed(1.0)],
    );
    assert_eq!(rig.pipeline.num_stages(), 2);

    let expected: Vec<f32> = vec![2.0, 4.0, 6.0, 8.0, 10.0, 12.0, 14.0, 16.0];
    rig.write_input(&INPUT);
    rig.tick(1);
    rig.tick(1);
    let Some((_tag, output)) = rig.read_output() else {
        panic!("Output should be ready after ticking");
    };
    assert_eq!(output, expected);
}

/// Three custom stages - double, then triple, then identity
#[test]
fn test_three_custom_stages_chain() {
    let mut rig = rig(
        Pipeline::new()
            .pipe_custom(Box::new(WgslCustomStage::new("double", DOUBLE_WGSL, 2, 4)))
            .pipe_custom(Box::new(WgslCustomStage::new("triple", TRIPLE_WGSL, 2, 4)))
            .pipe_custom(Box::new(WgslCustomStage::new("identity", IDENTITY_WGSL, 2, 4))),
        vec![Factor::Fixed(2.0), Factor::Fixed(3.0), Factor::Fixed(1.0)],
    );
    assert_eq!(rig.pipeline.num_stages(), 3);

    let expected: Vec<f32> = vec![6.0, 12.0, 18.0, 24.0, 30.0, 36.0, 42.0, 48.0];
    rig.write_input(&INPUT);
    rig.tick(1);
    rig.tick(1);
    rig.tick(1);
    let Some((_tag, output)) = rig.read_output() else {
        panic!("Output should be ready after ticking");
    };
    assert_eq!(output, expected);
}

/// Custom stage with side inputs (multiply with constant)
#[test]
fn test_custom_stage_with_side_input() {
    let context = Arc::new(noop_context());
    let multiplier_value = 3.0f32;
    let multiplier_buffer = Arc::new(new_buffer(&context, 4));
    context.queue.write_buffer(&multiplier_buffer, 0, &bytes_of(&[multiplier_value]));

    let custom_stage =
        WgslCustomStage::with_side_input("multiply_with_side", MULTIPLY_WITH_SIDE_WGSL, 2, 4);
    let mut rig = rig_with(
        Arc::clone(&context),
        Pipeline::new().pipe_custom(Box::new(custom_stage)),
        vec![Factor::SideInput("multiplier")],
    );
    rig.pipeline.add_side_input("multiplier", Arc::clone(&multiplier_buffer));
    assert_eq!(rig.pipeline.num_stages(), 1);

    let expected: Vec<f32> = vec![3.0, 6.0, 9.0, 12.0, 15.0, 18.0, 21.0, 24.0];
    rig.write_input(&INPUT);
    rig.tick(1);
    let Some((_tag, output)) = rig.read_output() else {
        panic!("Output should be ready after ticking");
    };
    for (i, (actual, expected_val)) in output.iter().zip(expected.iter()).enumerate() {
        assert!(
            (actual - expected_val).abs() < 1e-5,
            "Mismatch at index {}: expected {}, got {}",
            i,
            expected_val,
            actual
        );
    }
}

/// Complex pipeline with 4 stages (2 standard, 2 custom)
#[test]
fn test_complex_mixed_pipeline() {
    let mut rig = rig(
        Pipeline::new()
            .pipe(Stage::identity("std_id1", 2, 4))
            .pipe_custom(Box::new(WgslCustomStage::new("custom_double", DOUBLE_WGSL, 2, 4)))
            .pipe(Stage::identity("std_id2", 2, 4))
            .pipe_custom(Box::new(WgslCustomStage::new("custom_triple", TRIPLE_WGSL, 2, 4))),
        vec![Factor::Fixed(1.0), Factor::Fixed(2.0), Factor::Fixed(1.0), Factor::Fixed(3.0)],
    );
    assert_eq!(rig.pipeline.num_stages(), 4);

    let expected: Vec<f32> = vec![6.0, 12.0, 18.0, 24.0, 30.0, 36.0, 42.0, 48.0];
    rig.write_input(&INPUT);
    for _ in 0..4 {
        rig.tick(1);
    }
    let Some((_tag, output)) = rig.read_output() else {
        panic!("Output should be ready after ticking");
    };
    assert_eq!(output, expected);
}

/// Custom stage with larger batch size
#[test]
fn test_custom_stage_large_batch() {
    let batch_size = 256;
    let vector_dim = 2;
    let custom_stage = WgslCustomStage::new("large_double", DOUBLE_WGSL, vector_dim, batch_size);
    let mut rig =
        rig(Pipeline::new().pipe_custom(Box::new(custom_stage)), vec![Factor::Fixed(2.0)]);

    assert_eq!(rig.pipeline.num_stages(), 1);
    assert_eq!(rig.pipeline.batch_size(), batch_size);
    assert_eq!(rig.pipeline.vector_dim(), vector_dim);

    let input: Vec<f32> = vec![1.0; batch_size * vector_dim];
    let expected: Vec<f32> = vec![2.0; batch_size * vector_dim];
    rig.write_input(&input);
    rig.tick(1);
    let Some((_tag, output)) = rig.read_output() else {
        panic!("Output should be ready after ticking");
    };
    assert_eq!(output, expected);
}

/// Custom stages can be used multiple times
#[test]
fn test_multiple_custom_stage_instances() {
    let mut rig = rig(
        Pipeline::new()
            .pipe_custom(Box::new(WgslCustomStage::new("double1", DOUBLE_WGSL, 2, 4)))
            .pipe_custom(Box::new(WgslCustomStage::new("double2", DOUBLE_WGSL, 2, 4))),
        vec![Factor::Fixed(2.0), Factor::Fixed(2.0)],
    );
    assert_eq!(rig.pipeline.num_stages(), 2);

    let expected: Vec<f32> = vec![4.0, 8.0, 12.0, 16.0, 20.0, 24.0, 28.0, 32.0];
    rig.write_input(&INPUT);
    rig.tick(1);
    rig.tick(1);
    let Some((_tag, output)) = rig.read_output() else {
        panic!("Output should be ready after ticking");
    };
    assert_eq!(output, expected);
}

/// Custom stage with vector_dim = 1 (scalar values)
#[test]
fn test_custom_stage_scalar() {
    let custom_stage = WgslCustomStage::new("scalar_double", DOUBLE_WGSL, 1, 8);
    let mut rig =
        rig(Pipeline::new().pipe_custom(Box::new(custom_stage)), vec![Factor::Fixed(2.0)]);

    assert_eq!(rig.pipeline.num_stages(), 1);
    assert_eq!(rig.pipeline.vector_dim(), 1);
    assert_eq!(rig.pipeline.batch_size(), 8);

    let expected: Vec<f32> = vec![2.0, 4.0, 6.0, 8.0, 10.0, 12.0, 14.0, 16.0];
    rig.write_input(&INPUT);
    rig.tick(1);
    let Some((_tag, output)) = rig.read_output() else {
        panic!("Output should be ready after ticking");
    };
    assert_eq!(output, expected);
}

/// Custom stage with vector_dim = 4 (4D vectors)
#[test]
fn test_custom_stage_4d_vectors() {
    let vector_dim = 4;
    let batch_size = 2;
    let custom_stage = WgslCustomStage::new("4d_double", DOUBLE_WGSL, vector_dim, batch_size);
    let mut rig =
        rig(Pipeline::new().pipe_custom(Box::new(custom_stage)), vec![Factor::Fixed(2.0)]);

    assert_eq!(rig.pipeline.num_stages(), 1);
    assert_eq!(rig.pipeline.vector_dim(), 4);
    assert_eq!(rig.pipeline.batch_size(), 2);

    let expected: Vec<f32> = vec![2.0, 4.0, 6.0, 8.0, 10.0, 12.0, 14.0, 16.0];
    rig.write_input(&INPUT);
    rig.tick(1);
    let Some((_tag, output)) = rig.read_output() else {
        panic!("Output should be ready after ticking");
    };
    assert_eq!(output, expected);
}

// ---- side inputs, usages, errors ----

#[test]
fn side_inputs_by_name() {
    let context = noop_context();
    let stage = WgslCustomStage::new("c", IDENTITY_WGSL, 1, 4);
    assert!(stage.side_input_names().is_empty());
    let side = WgslCustomStage::with_side_input("c", MULTIPLY_WITH_SIDE_WGSL, 1, 4);
    assert_eq!(side.side_input_names(), vec!["multiplier"]);

    let mut pipeline: Pipeline<u64> =
        Pipeline::new().pipe_custom(Box::new(stage)).build().unwrap().pipeline;
    let a = Arc::new(new_buffer(&context, 4));
    let b = Arc::new(new_buffer(&context, 8));
    let c = Arc::new(new_buffer(&context, 12));
    assert!(pipeline.get_side_input("a").is_none());
    assert_eq!(pipeline.get_side_input_index("a"), None);
    assert_eq!(pipeline.add_side_input("a", Arc::clone(&a)), 0);
    assert_eq!(pipeline.add_side_input(String::from("b"), Arc::clone(&b)), 1);
    assert_eq!(pipeline.get_side_input_index("a"), Some(0));
    assert_eq!(pipeline.get_side_input_index("b"), Some(1));
    assert!(Arc::ptr_eq(pipeline.get_side_input("a").unwrap(), &a));
    assert!(Arc::ptr_eq(pipeline.get_side_input("b").unwrap(), &b));
    // A name that is in use keeps its place.
    assert_eq!(pipeline.add_side_input("a", Arc::clone(&c)), 0);
    assert!(Arc::ptr_eq(pipeline.get_side_input("a").unwrap(), &c));
    assert_eq!(pipeline.get_side_input_index("a"), Some(0));
    assert_eq!(pipeline.get_side_input_index("b"), Some(1));
    assert_eq!(pipeline.side_inputs().len(), 2);
}

#[test]
fn buffer_usages() {
    assert_eq!(
        usages(stage_buffer_usages()),
        wgpu::BufferUsages::STORAGE | wgpu::BufferUsages::COPY_SRC | wgpu::BufferUsages::COPY_DST
    );
    assert_eq!(
        usages(staging_buffer_usages()),
        wgpu::BufferUsages::COPY_SRC | wgpu::BufferUsages::MAP_WRITE
    );
    assert_eq!(
        usages(readback_buffer_usages()),
        wgpu::BufferUsages::COPY_DST | wgpu::BufferUsages::MAP_READ
    );
    assert_eq!(stage_buffer_usages().bits, 0x8C);
    assert_eq!(staging_buffer_usages().bits, 0x06);
    assert_eq!(readback_buffer_usages().bits, 0x09);
}

#[test]
fn builds_that_are_refused() {
    let none: PipelineBuilder<u64> = PipelineBuilder::default();
    let e = none.build().err().unwrap();
    assert_eq!(e.message().unwrap(), "Pipeline must have at least one stage");

    let e = Pipeline::<u64>::new()
        .identity("a", 2, 4)
        .pipe_custom(Box::new(WgslCustomStage::new("wide", IDENTITY_WGSL, 3, 4)))
        .build()
        .err()
        .unwrap();
    assert_eq!(
        e.message().unwrap(),
        "All stages must have the same vector dimension. Stage 'wide' has 3, expected 2"
    );

    let e = Pipeline::<u64>::new()
        .identity("a", 2, 4)
        .pipe_config(StageConfig::Standard { stage: Stage::identity("long", 2, 1024), tag: None })
        .build()
        .err()
        .unwrap();
    assert_eq!(
        e.message().unwrap(),
        "All stages must have the same batch size. Stage 'long' has 1024, expected 4"
    );

    let e = Pipeline::<u64>::new().identity("a", 2, 4).identity("b", 0, 4).build().err().unwrap();
    assert!(matches!(e, PipelineError::ZeroVectorDim));
    let e = Pipeline::<u64>::new().identity("a", 2, 0).build().err().unwrap();
    assert!(matches!(e, PipelineError::ZeroBatchSize));
}

#[test]
fn layouts_are_bound_by_number() {
    let mut stage = Stage::new("multiply", MULTIPLY_WITH_SIDE_WGSL, 1, 4);
    stage.bind_group_entries =
        Some(vec![storage_entry(0, true), storage_entry(1, true), storage_entry(2, false)]);
    let built = Pipeline::<u64>::new().identity("a", 1, 4).pipe(stage).build().unwrap();
    assert!(!built.resources[0].custom_layout);
    assert!(built.resources[1].custom_layout);
    let entries = built.pipeline.create_bind_group_for_stage(0, 1, 0);
    let pairs: Vec<(u32, usize)> = entries.iter().map(|e| (e.binding, e.buffer)).collect();
    assert_eq!(pairs, vec![(0, 1), (1, 2)]);
    let entries = built.pipeline.create_bind_group_for_stage(1, 0, 1);
    let pairs: Vec<(u32, usize)> = entries.iter().map(|e| (e.binding, e.buffer)).collect();
    assert_eq!(pairs, vec![(0, 2), (1, 2), (2, 5)]);
    let mut stage = Stage::identity("two", 1, 4);
    stage.bind_group_entries = Some(vec![storage_entry(2, true), storage_entry(5, false)]);
    let built = Pipeline::<u64>::new().pipe(stage).build().unwrap();
    let entries = built.pipeline.create_bind_group_for_stage(0, 1, 1);
    let pairs: Vec<(u32, usize)> = entries.iter().map(|e| (e.binding, e.buffer)).collect();
    assert_eq!(pairs, vec![(2, 1), (5, 3)]);
    // The order in which a layout lists its bindings does not matter.
    let mut stage = Stage::identity("backward", 1, 4);
    stage.bind_group_entries = Some(vec![storage_entry(1, false), storage_entry(0, true)]);
    let mut mixed = Stage::identity("mixed", 1, 4);
    mixed.bind_group_entries =
        Some(vec![storage_entry(2, false), storage_entry(0, true), storage_entry(1, true)]);
    let built = Pipeline::<u64>::new().pipe(stage).pipe(mixed).build().unwrap();
    let entries = built.pipeline.create_bind_group_for_stage(0, 0, 1);
    let pairs: Vec<(u32, usize)> = entries.iter().map(|e| (e.binding, e.buffer)).collect();
    assert_eq!(pairs, vec![(1, 3), (0, 0)]);
    let entries = built.pipeline.create_bind_group_for_stage(1, 1, 0);
    let pairs: Vec<(u32, usize)> = entries.iter().map(|e| (e.binding, e.buffer)).collect();
    assert_eq!(pairs, vec![(2, 4), (0, 3), (1, 3)]);
    let layout: Vec<(u32, bool)> =
        create_bind_group_layout().iter().map(|e| (e.binding, e.read_only)).collect();
    assert_eq!(layout, vec![(0, true), (1, false)]);
}
