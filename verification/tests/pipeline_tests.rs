//! Pipelines of one size, run on a device that is simulated on the host.

use wgsl_ping_pong_pipeline::pipeline::builder::BuiltPipeline;
use wgsl_ping_pong_pipeline::pipeline::ping_pong::{InputAction, ProcessAction, TickEvent};
use wgsl_ping_pong_pipeline::plan::{
    BindingEntry, BufferResize, InputWrite, Readback, StagePass, StageWork,
};
use wgsl_ping_pong_pipeline::{Pipeline, PipelineBuilder, PipelineError, Stage};

/// Shader that doubles each element (flat array).
const DOUBLE_SHADER: &str = r#"
@group(0) @binding(0)
var<storage, read> input: array<f32>;

@group(0) @binding(1)
var<storage, read_write> output: array<f32>;

@compute @workgroup_size(64)
fn main(@builtin(global_invocation_id) id: vec3<u32>) {
    let idx = id.x;
    if (idx >= arrayLength(&input)) { return; }
    output[idx] = input[idx] * 2.0;
}
"#;

/// Buffers in host memory, and one scalar function for each stage's shader.
struct Host {
    buffers: Vec<Vec<f32>>,
    shaders: Vec<fn(f32) -> f32>,
}

fn identity(x: f32) -> f32 {
    x
}

fn double(x: f32) -> f32 {
    x * 2.0
}

fn add_one(x: f32) -> f32 {
    x + 1.0
}

impl Host {
    fn new(sizes: &[u64], shaders: Vec<fn(f32) -> f32>) -> Host {
        Host {
            buffers: sizes.iter().map(|s| vec![0.0; *s as usize / 4]).collect(),
            shaders,
        }
    }

    fn write(&mut self, write: &InputWrite, data: &[f32]) {
        assert_eq!(write.bytes, data.len() * 4);
        self.buffers[write.buffer][..data.len()].copy_from_slice(data);
    }

    fn dispatch(&mut self, pass: &StagePass, entries: &[BindingEntry]) {
        let StageWork::Dispatch { groups, .. } = pass.work else {
            panic!("not a standard stage");
        };
        assert_eq!(entries[0], BindingEntry { binding: 0, buffer: pass.input });
        assert_eq!(entries[entries.len() - 1].buffer, pass.output);
        let input = self.buffers[pass.input].clone();
        let output = &mut self.buffers[pass.output];
        for idx in 0..groups as usize * 64 {
            if idx < input.len() && idx < output.len() {
                output[idx] = (self.shaders[pass.stage])(input[idx]);
            }
        }
    }

    fn replace(&mut self, resizes: &[BufferResize]) {
        for r in resizes {
            let mut fresh = vec![0.0; r.new_size as usize / 4];
            let copied = r.copy_size as usize / 4;
            fresh[..copied].copy_from_slice(&self.buffers[r.index][..copied]);
            self.buffers[r.index] = fresh;
        }
    }

    fn read(&self, readback: &Readback) -> Vec<f32> {
        assert_eq!(readback.bytes as usize, readback.scalars * 4);
        self.buffers[readback.buffer][..readback.scalars].to_vec()
    }
}

fn built<T>(builder: PipelineBuilder<T>, shaders: Vec<fn(f32) -> f32>) -> (Pipeline<T>, Host) {
    let BuiltPipeline { pipeline, buffer_sizes, resources, context } = builder.build().unwrap();
    assert!(context.is_none());
    assert_eq!(resources.len(), shaders.len());
    assert_eq!(buffer_sizes.len(), 2 + 2 * shaders.len());
    (pipeline, Host::new(&buffer_sizes, shaders))
}

fn run_stages<T>(pipeline: &mut Pipeline<T>, host: &mut Host) {
    for i in 0..pipeline.num_stages() {
        let pass = pipeline.stage_pass(i).unwrap();
        let StageWork::Dispatch { input_variant, output_state, .. } = pass.work else {
            panic!("not a standard stage");
        };
        let entries = pipeline.create_bind_group_for_stage(i, input_variant, output_state);
        host.dispatch(&pass, &entries);
        pipeline.stage_encoded(i);
    }
}

fn process<T>(
    pipeline: &mut Pipeline<T>,
    host: &mut Host,
    data: Option<&[f32]>,
    tag: T,
) -> Result<Option<(T, Vec<f32>)>, PipelineError> {
    let mut tag = tag;
    loop {
        match pipeline.process(data, tag)? {
            ProcessAction::Resize { plan, tag: same } => {
                host.replace(&plan.buffers);
                pipeline.complete_resize(plan.batch_size);
                tag = same;
            }
            ProcessAction::Run { write, output_due } => {
                if let Some(write) = write {
                    host.write(&write, data.unwrap());
                }
                run_stages(pipeline, host);
                let readback = pipeline.readback();
                let output = readback.as_ref().map(|r| host.read(r));
                let tag = pipeline.finish_process(output_due, &readback, TickEvent::Completed);
                return Ok(tag.map(|t| (t, output.unwrap())));
            }
        }
    }
}

fn resize<T>(pipeline: &mut Pipeline<T>, host: &mut Host, batch_size: usize) {
    if let Some(plan) = pipeline.resize(batch_size).unwrap() {
        host.replace(&plan.buffers);
        pipeline.complete_resize(plan.batch_size);
    }
}

fn write_input<T>(pipeline: &mut Pipeline<T>, host: &mut Host, data: &[f32]) {
    loop {
        match pipeline.write_input(data).unwrap() {
            InputAction::Resize(plan) => {
                host.replace(&plan.buffers);
                pipeline.complete_resize(plan.batch_size);
            }
            InputAction::Write(write) => {
                host.write(&write, data);
                return;
            }
        }
    }
}

fn tick<T>(pipeline: &mut Pipeline<T>, host: &mut Host, tag: T) -> bool {
    let output_due = pipeline.tick(tag);
    run_stages(pipeline, host);
    pipeline.finish_tick(TickEvent::Completed);
    output_due
}

fn read_output<T>(pipeline: &mut Pipeline<T>, host: &Host) -> Option<(T, Vec<f32>)> {
    let readback = pipeline.read_output()?;
    let output = host.read(&readback);
    pipeline.take_output().map(|t| (t, output))
}

// ---- scenarios ----

/// Single stage pipeline with identity shader.
#[test]
fn test_single_stage_identity() {
    let stage = Stage::identity("identity", 2, 4);
    let (mut pipeline, mut host): (Pipeline<u64>, Host) =
        built(Pipeline::new().pipe(stage), vec![identity]);

    assert_eq!(pipeline.num_stages(), 1);
    assert_eq!(pipeline.vector_dim(), 2);
    assert_eq!(pipeline.batch_size(), 4);

    let input: Vec<f32> = vec![1.0, 2.0, 3.0, 4.0, 5.0, 6.0, 7.0, 8.0];
    let Some((_tag, output)) = process(&mut pipeline, &mut host, Some(&input), 1u64).unwrap()
    else {
        panic!("Output should be ready after processing");
    };
    assert_eq!(output, input);
}

/// Two stage pipeline with identity shaders.
#[test]
fn test_two_stage_identity() {
    let (mut pipeline, mut host): (Pipeline<u64>, Host) = built(
        Pipeline::new().pipe(Stage::identity("id1", 2, 4)).pipe(Stage::identity("id2", 2, 4)),
        vec![identity, identity],
    );
    assert_eq!(pipeline.num_stages(), 2);

    let input: Vec<f32> = vec![1.0, 2.0, 3.0, 4.0, 5.0, 6.0, 7.0, 8.0];
    process(&mut pipeline, &mut host, Some(&input), 1u64).unwrap();
    let Some((_tag, output)) = process(&mut pipeline, &mut host, None, 1u64).unwrap() else {
        panic!("Output should be ready after second process");
    };
    assert_eq!(output, input);
}

/// Three stage pipeline with identity shaders.
#[test]
fn test_three_stage_identity() {
    let (mut pipeline, mut host): (Pipeline<u64>, Host) = built(
        Pipeline::new()
            .pipe(Stage::identity("id1", 2, 8))
            .pipe(Stage::identity("id2", 2, 8))
            .pipe(Stage::identity("id3", 2, 8)),
        vec![identity, identity, identity],
    );
    assert_eq!(pipeline.num_stages(), 3);

    let input: Vec<f32> = vec![
        1.0, 2.0, 3.0, 4.0, 5.0, 6.0, 7.0, 8.0, 9.0, 10.0, 11.0, 12.0, 13.0, 14.0, 15.0, 16.0,
    ];
    process(&mut pipeline, &mut host, Some(&input), 1u64).unwrap();
    process(&mut pipeline, &mut host, None, 1u64).unwrap();
    let Some((_tag, output)) = process(&mut pipeline, &mut host, None, 1u64).unwrap() else {
        panic!("Output should be ready after third process");
    };
    assert_eq!(output, input);
}

/// Pipeline with a shader that computes.
#[test]
fn test_single_stage_double() {
    let stage = Stage::new("double", DOUBLE_SHADER, 2, 4);
    assert_eq!(stage.wgsl, DOUBLE_SHADER);
    let (mut pipeline, mut host): (Pipeline<u64>, Host) =
        built(Pipeline::new().pipe(stage), vec![double]);

    let input: Vec<f32> = vec![1.0, 2.0, 3.0, 4.0, 5.0, 6.0, 7.0, 8.0];
    let expected: Vec<f32> = vec![2.0, 4.0, 6.0, 8.0, 10.0, 12.0, 14.0, 16.0];
    let Some((_tag, output)) = process(&mut pipeline, &mut host, Some(&input), 1u64).unwrap()
    else {
        panic!("Output should be ready after processing");
    };
    assert_eq!(output, expected);
}

/// Changing write data during operation.
#[test]
fn test_change_write_data_size_during_operation() {
    let (mut pipeline, mut host): (Pipeline<u64>, Host) = built(
        Pipeline::new().pipe(Stage::identity("id1", 2, 4)).pipe(Stage::identity("id2", 2, 4)),
        vec![identity, identity],
    );

    let input1: Vec<f32> = vec![1.0, 2.0, 3.0, 4.0, 5.0, 6.0, 7.0, 8.0];
    process(&mut pipeline, &mut host, Some(&input1), 1u64).unwrap();
    let Some((_tag, output1)) = process(&mut pipeline, &mut host, None, 1u64).unwrap() else {
        panic!("First output should be ready");
    };
    assert_eq!(output1, input1);

    let input2: Vec<f32> = vec![10.0, 20.0, 30.0, 40.0, 50.0, 60.0, 70.0, 80.0];
    process(&mut pipeline, &mut host, Some(&input2), 2u64).unwrap();
    let Some((_tag, output2)) = process(&mut pipeline, &mut host, None, 2u64).unwrap() else {
        panic!("Second output should be ready");
    };
    assert_eq!(output2, input2);
}

/// A tag that cannot be cloned.
#[derive(Debug, PartialEq)]
struct NonCloneTag {
    id: u64,
    data: String,
}

impl NonCloneTag {
    fn new(id: u64, data: &str) -> Self {
        Self { id, data: data.to_string() }
    }
}

/// Tags follow data through the pipeline without requiring Clone.
#[test]
fn test_tag_follows_data_without_clone() {
    let (mut pipeline, mut host): (Pipeline<NonCloneTag>, Host) =
        built(Pipeline::new().pipe(Stage::identity("identity", 2, 4)), vec![identity]);

    let input: Vec<f32> = vec![1.0, 2.0, 3.0, 4.0, 5.0, 6.0, 7.0, 8.0];
    let tag1 = NonCloneTag::new(42, "first");
    let Some((returned_tag, output)) =
        process(&mut pipeline, &mut host, Some(&input), tag1).unwrap()
    else {
        panic!("Output should be ready after processing");
    };
    assert_eq!(returned_tag, NonCloneTag::new(42, "first"));
    assert_eq!(output, input);

    let input2: Vec<f32> = vec![10.0, 20.0, 30.0, 40.0, 50.0, 60.0, 70.0, 80.0];
    let tag2 = NonCloneTag::new(99, "second");
    let Some((returned_tag, output)) =
        process(&mut pipeline, &mut host, Some(&input2), tag2).unwrap()
    else {
        panic!("Output should be ready after processing");
    };
    assert_eq!(returned_tag, NonCloneTag::new(99, "second"));
    assert_eq!(output, input2);
}

/// Tags follow data through multiple stages.
#[test]
fn test_tag_follows_data_through_multiple_stages() {
    let (mut pipeline, mut host): (Pipeline<NonCloneTag>, Host) = built(
        Pipeline::new().pipe(Stage::identity("id1", 2, 4)).pipe(Stage::identity("id2", 2, 4)),
        vec![identity, identity],
    );
    let input: Vec<f32> = vec![1.0, 2.0, 3.0, 4.0, 5.0, 6.0, 7.0, 8.0];

    let tag1 = NonCloneTag::new(123, "first");
    let result1 = process(&mut pipeline, &mut host, Some(&input), tag1).unwrap();
    assert!(
        result1.is_none(),
        "Output should not be ready after first process in 2-stage pipeline"
    );

    let tag2 = NonCloneTag::new(456, "second");
    let Some((returned_tag, output)) = process(&mut pipeline, &mut host, None, tag2).unwrap()
    else {
        panic!("Output should be ready after second process");
    };
    assert_eq!(returned_tag, NonCloneTag::new(123, "first"));
    assert_eq!(output, input);
}

/// Single stage pipeline with process().
#[test]
fn test_single_stage_process() {
    let (mut pipeline, mut host): (Pipeline<u64>, Host) =
        built(Pipeline::new().pipe(Stage::identity("identity", 2, 4)), vec![identity]);
    let input: Vec<f32> = vec![1.0, 2.0, 3.0, 4.0, 5.0, 6.0, 7.0, 8.0];
    let Some((_tag, output)) = process(&mut pipeline, &mut host, Some(&input), 1u64).unwrap()
    else {
        panic!("Output should be ready after first process in 1-stage pipeline");
    };
    assert_eq!(output, input);
}

/// Two stage pipeline with process().
#[test]
fn test_two_stage_process() {
    let (mut pipeline, mut host): (Pipeline<u64>, Host) = built(
        Pipeline::new().pipe(Stage::identity("id1", 2, 4)).pipe(Stage::identity("id2", 2, 4)),
        vec![identity, identity],
    );
    assert_eq!(pipeline.num_stages(), 2);

    let input: Vec<f32> = vec![1.0, 2.0, 3.0, 4.0, 5.0, 6.0, 7.0, 8.0];
    let result1 = process(&mut pipeline, &mut host, Some(&input), 1u64).unwrap();
    assert!(result1.is_none(), "First process should return None for 2-stage pipeline");

    let Some((_tag, output)) = process(&mut pipeline, &mut host, None, 1u64).unwrap() else {
        panic!("Second process should return Some for 2-stage pipeline");
    };
    assert_eq!(output, input);
}

/// Three stage pipeline with process().
#[test]
fn test_three_stage_process() {
    let (mut pipeline, mut host): (Pipeline<u64>, Host) = built(
        Pipeline::new()
            .pipe(Stage::identity("id1", 2, 4))
            .pipe(Stage::identity("id2", 2, 4))
            .pipe(Stage::identity("id3", 2, 4)),
        vec![identity, identity, identity],
    );
    assert_eq!(pipeline.num_stages(), 3);

    let input: Vec<f32> = vec![1.0, 2.0, 3.0, 4.0, 5.0, 6.0, 7.0, 8.0];
    let result1 = process(&mut pipeline, &mut host, Some(&input), 1u64).unwrap();
    assert!(result1.is_none(), "First process should return None for 3-stage pipeline");
    let result2 = process(&mut pipeline, &mut host, None, 1u64).unwrap();
    assert!(result2.is_none(), "Second process should return None for 3-stage pipeline");

    let Some((_tag, output)) = process(&mut pipeline, &mut host, None, 1u64).unwrap() else {
        panic!("Third process should return Some for 3-stage pipeline");
    };
    assert_eq!(output, input);
}

/// Process with different tags.
#[test]
fn test_process_tag_propagation() {
    let (mut pipeline, mut host): (Pipeline<u64>, Host) = built(
        Pipeline::new().pipe(Stage::identity("id1", 2, 4)).pipe(Stage::identity("id2", 2, 4)),
        vec![identity, identity],
    );
    let input: Vec<f32> = vec![1.0, 2.0, 3.0, 4.0];
    let tag1 = 123u64;
    let tag2 = 456u64;

    process(&mut pipeline, &mut host, Some(&input), tag1).unwrap();
    let Some((returned_tag, output)) = process(&mut pipeline, &mut host, None, tag2).unwrap()
    else {
        panic!("Should have output after second process");
    };
    assert_eq!(returned_tag, tag1);
    assert_eq!(output, input);
}

// ---- more of what a pipeline promises ----

/// Identity, then double, then add one.
#[test]
fn stages_compute_in_order() {
    let (mut pipeline, mut host): (Pipeline<u64>, Host) = built(
        Pipeline::new()
            .pipe(Stage::identity("identity", 2, 8))
            .pipe(Stage::new("double", DOUBLE_SHADER, 2, 8))
            .pipe(Stage::new("add_one", "shader", 2, 8)),
        vec![identity, double, add_one],
    );
    let input: Vec<f32> = vec![
        1.0, 10.0, 2.0, 20.0, 3.0, 30.0, 4.0, 40.0, 5.0, 50.0, 6.0, 60.0, 7.0, 70.0, 8.0, 80.0,
    ];
    let expected: Vec<f32> = vec![
        3.0, 21.0, 5.0, 41.0, 7.0, 61.0, 9.0, 81.0, 11.0, 101.0, 13.0, 121.0, 15.0, 141.0, 17.0,
        161.0,
    ];
    assert!(process(&mut pipeline, &mut host, Some(&input), 1).unwrap().is_none());
    assert!(process(&mut pipeline, &mut host, None, 2).unwrap().is_none());
    let (tag, output) = process(&mut pipeline, &mut host, None, 3).unwrap().unwrap();
    assert_eq!(tag, 1);
    assert_eq!(output, expected);
}

/// Identity shaders leave 1024 vectors of two scalars unchanged.
#[test]
fn identity_covers_every_scalar() {
    let (mut pipeline, mut host): (Pipeline<u64>, Host) = built(
        Pipeline::new()
            .pipe(Stage::identity("stage1", 2, 1024))
            .pipe(Stage::identity("stage2", 2, 1024))
            .pipe(Stage::identity("stage3", 2, 1024)),
        vec![identity, identity, identity],
    );
    let input: Vec<f32> = (0..1024 * 2).map(|i| i as f32).collect();
    write_input(&mut pipeline, &mut host, &input);
    for i in 0..pipeline.num_stages() {
        assert_eq!(tick(&mut pipeline, &mut host, i as u64), i == 2);
    }
    let (tag, output) = read_output(&mut pipeline, &host).unwrap();
    assert_eq!(tag, 0);
    assert_eq!(output, input);
    assert!(read_output(&mut pipeline, &host).is_none());
}

/// Every call brings a batch, and every batch comes out in its turn.
#[test]
fn batches_follow_each_other() {
    let (mut pipeline, mut host): (Pipeline<usize>, Host) = built(
        Pipeline::new().pipe(Stage::identity("a", 1, 2)).pipe(Stage::new("b", "shader", 1, 2)).pipe(
            Stage::new("c", "shader", 1, 2),
        ),
        vec![identity, double, add_one],
    );
    for i in 0..10usize {
        let data = vec![i as f32, 100.0 + i as f32];
        let out = process(&mut pipeline, &mut host, Some(&data), i).unwrap();
        if i < 2 {
            assert!(out.is_none());
        } else {
            let (tag, output) = out.unwrap();
            assert_eq!(tag, i - 2);
            let x = (i - 2) as f32;
            assert_eq!(output, vec![x * 2.0 + 1.0, (100.0 + x) * 2.0 + 1.0]);
        }
        assert_eq!(pipeline.tick_count(), i as u64 + 1);
    }
}

/// What a stage is asked to do, tick by tick.
#[test]
fn roles_alternate() {
    let (mut pipeline, _host): (Pipeline<u8>, Host) = built(
        Pipeline::new().pipe(Stage::identity("a", 3, 50)).pipe(Stage::identity("b", 3, 50)),
        vec![identity, identity],
    );
    let mut seen: Vec<(usize, usize)> = Vec::new();
    for t in 0..3u8 {
        assert!(matches!(
            pipeline.process::<f32>(None, t),
            Ok(ProcessAction::Run { write: None, .. })
        ));
        for i in 0..2 {
            let pass = pipeline.stage_pass(i).unwrap();
            assert_eq!(pass.elements, 50);
            assert_eq!(pass.n, 50);
            assert_eq!(
                pass.work,
                StageWork::Dispatch {
                    input_variant: t as usize % 2,
                    output_state: 1 - t as usize % 2,
                    groups: 3,
                    create_bind_groups: t == 0,
                }
            );
            seen.push((pass.input, pass.output));
            pipeline.stage_encoded(i);
        }
        let readback = pipeline.readback();
        assert_eq!(
            readback,
            Some(Readback { buffer: 5 - t as usize % 2, bytes: 600, scalars: 150 })
        );
        pipeline.finish_process(t > 0, &readback, TickEvent::Completed);
    }
    assert_eq!(seen, vec![(0, 3), (2, 5), (1, 2), (3, 4), (0, 3), (2, 5)]);
}

/// Data that does not fit makes the buffers grow, and what is on its way stays.
#[test]
fn larger_data_resizes() {
    let (mut pipeline, mut host): (Pipeline<u64>, Host) = built(
        Pipeline::new().pipe(Stage::identity("a", 2, 2)).pipe(Stage::identity("b", 2, 2)),
        vec![identity, identity],
    );
    let small: Vec<f32> = vec![1.0, 2.0];
    let large: Vec<f32> = (0..12).map(|i| i as f32).collect();
    assert!(process(&mut pipeline, &mut host, Some(&small), 1).unwrap().is_none());
    let (tag, output) = process(&mut pipeline, &mut host, Some(&large), 2).unwrap().unwrap();
    assert_eq!((tag, output), (1, small));
    assert_eq!(pipeline.batch_size(), 6);
    let (tag, output) = process(&mut pipeline, &mut host, None, 3).unwrap().unwrap();
    assert_eq!((tag, output), (2, large));
}

/// Growing pads with zeros, shrinking truncates.
#[test]
fn resizing_keeps_data_in_flight() {
    let (mut pipeline, mut host): (Pipeline<u64>, Host) = built(
        Pipeline::new().pipe(Stage::identity("a", 1, 4)).pipe(Stage::identity("b", 1, 4)),
        vec![identity, identity],
    );
    let data: Vec<f32> = vec![1.0, 2.0, 3.0, 4.0];
    process(&mut pipeline, &mut host, Some(&data), 1).unwrap();
    let plan = pipeline.resize(6).unwrap().unwrap();
    assert_eq!((plan.batch_size, plan.vector_dim), (6, 1));
    assert_eq!(plan.buffers.len(), 6);
    assert_eq!(plan.buffers[3], BufferResize { index: 3, new_size: 24, copy_size: 16 });
    host.replace(&plan.buffers);
    pipeline.complete_resize(plan.batch_size);
    assert_eq!(host.buffers[3], vec![1.0, 2.0, 3.0, 4.0, 0.0, 0.0]);
    let (tag, output) = process(&mut pipeline, &mut host, None, 2).unwrap().unwrap();
    assert_eq!((tag, output), (1, data.clone()));

    process(&mut pipeline, &mut host, Some(&data), 3).unwrap();
    resize(&mut pipeline, &mut host, 3);
    let (tag, output) = process(&mut pipeline, &mut host, None, 4).unwrap().unwrap();
    assert_eq!((tag, output), (3, vec![1.0, 2.0, 3.0]));
}

/// A resize to the same size does nothing, one to zero is refused.
#[test]
fn resize_decisions() {
    let (mut pipeline, mut host): (Pipeline<u64>, Host) =
        built(Pipeline::new().pipe(Stage::identity("a", 2, 4)), vec![identity]);
    assert!(matches!(pipeline.resize(0), Err(PipelineError::ZeroBatchSize)));
    assert!(matches!(pipeline.resize(4), Ok(None)));
    assert!(matches!(pipeline.resize_dynamic(0, 2), Err(PipelineError::ZeroBatchSize)));
    assert!(matches!(pipeline.resize_dynamic(4, 0), Err(PipelineError::ZeroVectorDim)));
    assert!(matches!(pipeline.resize_dynamic(4, 2), Ok(None)));
    assert!(matches!(pipeline.resize_with_stages(0, 2), Err(PipelineError::ZeroBatchSize)));
    assert!(matches!(pipeline.resize_with_stages(4, 0), Err(PipelineError::ZeroVectorDim)));
    assert!(matches!(pipeline.resize_with_stages(4, 2), Ok(None)));

    let plan = pipeline.resize_dynamic(2, 3).unwrap().unwrap();
    assert_eq!(plan.buffers[1], BufferResize { index: 1, new_size: 24, copy_size: 24 });
    host.replace(&plan.buffers);
    pipeline.complete_resize_dynamic(plan.batch_size, plan.vector_dim);
    assert_eq!((pipeline.batch_size(), pipeline.vector_dim()), (2, 3));

    let plan = pipeline.resize_with_stages(5, 4).unwrap().unwrap();
    assert_eq!(plan.buffers[2], BufferResize { index: 2, new_size: 80, copy_size: 24 });
    host.replace(&plan.buffers);
    assert!(pipeline.complete_resize_with_stages(plan.batch_size, plan.vector_dim).is_ok());
    assert_eq!((pipeline.batch_size(), pipeline.vector_dim()), (5, 4));
    let data: Vec<f32> = (0..20).map(|i| i as f32).collect();
    let (_, output) = process(&mut pipeline, &mut host, Some(&data), 1).unwrap().unwrap();
    assert_eq!(output, data);
}

/// Buffers that grew and shrank back hold what they held.
#[test]
fn growth_can_be_undone() {
    let (mut pipeline, mut host): (Pipeline<u64>, Host) = built(
        Pipeline::new().pipe(Stage::identity("a", 2, 3)).pipe(Stage::identity("b", 2, 3)),
        vec![identity, double],
    );
    for t in 0..3u64 {
        let data: Vec<f32> = (0..6).map(|i| (10 * t + i) as f32).collect();
        process(&mut pipeline, &mut host, Some(&data), t).unwrap();
    }
    let before = host.buffers.clone();
    resize(&mut pipeline, &mut host, 5);
    assert_ne!(host.buffers, before);
    resize(&mut pipeline, &mut host, 3);
    assert_eq!(host.buffers, before);
    assert_eq!(pipeline.batch_size(), 3);
    assert!(matches!(pipeline.resize(3), Ok(None)));
}

/// The default transform size follows the batch size until it is set anew.
#[test]
fn the_default_n_follows_a_resize() {
    let (mut pipeline, mut host): (Pipeline<u64>, Host) =
        built(Pipeline::new().pipe(Stage::identity("a", 2, 4)), vec![identity]);
    assert_eq!(pipeline.stage_pass(0).unwrap().n, 4);
    pipeline.set_default_n(16);
    assert_eq!(pipeline.stage_pass(0).unwrap().n, 16);
    resize(&mut pipeline, &mut host, 6);
    assert_eq!(pipeline.stage_pass(0).unwrap().n, 6);
    pipeline.complete_resize_dynamic(3, 1);
    assert_eq!(pipeline.stage_pass(0).unwrap().n, 3);
    assert!(pipeline.complete_resize_with_stages(5, 1).is_ok());
    assert_eq!(pipeline.stage_pass(0).unwrap().n, 5);
}

/// Only calls that were answered count.
#[test]
fn ticks_are_counted() {
    let (mut pipeline, mut host): (Pipeline<u64>, Host) = built(
        Pipeline::new().pipe(Stage::identity("a", 2, 2)).pipe(Stage::identity("b", 2, 2)),
        vec![identity, identity],
    );
    let data: Vec<f32> = vec![1.0, 2.0, 3.0, 4.0, 5.0, 6.0];
    assert!(process(&mut pipeline, &mut host, Some(&data[..2]), 1).is_ok());
    assert!(process(&mut pipeline, &mut host, Some(&data[..3]), 2).is_err());
    assert!(process(&mut pipeline, &mut host, Some(&[]), 3).is_err());
    assert_eq!(pipeline.tick_count(), 1);
    resize(&mut pipeline, &mut host, 7);
    pipeline.set_default_n(3);
    pipeline.set_input_submission_metadata(1, 1, 1);
    pipeline.clear_all_buffer_metadata();
    assert_eq!(pipeline.tick_count(), 1);
    // One call, a resize in its midst.
    resize(&mut pipeline, &mut host, 1);
    assert!(process(&mut pipeline, &mut host, Some(&data), 4).is_ok());
    tick(&mut pipeline, &mut host, 5);
    assert_eq!(pipeline.tick_count(), 3);
}

/// Input is validated before it enters.
#[test]
fn input_is_validated() {
    let (mut pipeline, _host): (Pipeline<u64>, Host) =
        built(Pipeline::new().pipe(Stage::identity("a", 2, 4)), vec![identity]);
    let e = pipeline.process::<f32>(Some(&[]), 1).err().unwrap();
    assert!(matches!(e, PipelineError::EmptyInput));
    assert_eq!(e.message().unwrap(), "Input data cannot be empty");
    let e = pipeline.process::<f32>(Some(&[1.0, 2.0, 3.0]), 1).err().unwrap();
    assert_eq!(
        e.message().unwrap(),
        "Input byte size 12 is not a multiple of element size 8 (vector_dim 2 * F32_SIZE 4)"
    );
    assert!(pipeline.is_empty());
    assert_eq!(pipeline.tick_count(), 0);
}

/// Transform sizes go with the data, and the default one without.
#[test]
fn metadata_goes_with_the_data() {
    let (mut pipeline, mut host): (Pipeline<u64>, Host) = built(
        Pipeline::new().pipe(Stage::identity("a", 2, 4)).pipe(Stage::identity("b", 2, 4)),
        vec![identity, identity],
    );
    pipeline.set_default_n(16);
    pipeline.set_input_submission_metadata(3, 8, 1);
    let pass = pipeline.stage_pass(0).unwrap();
    assert_eq!((pass.elements, pass.n), (3, 8));
    let data: Vec<f32> = vec![1.0, 2.0];
    process(&mut pipeline, &mut host, Some(&data), 1).unwrap();
    let pass = pipeline.stage_pass(1).unwrap();
    assert_eq!((pass.elements, pass.n), (1, 8));
    let pass = pipeline.stage_pass(0).unwrap();
    assert_eq!((pass.elements, pass.n), (4, 16));
    pipeline.clear_all_buffer_metadata();
    let pass = pipeline.stage_pass(1).unwrap();
    assert_eq!((pass.elements, pass.n), (4, 16));
    pipeline.set_input_submission_metadata(0, 8, 1);
    pipeline.tick(2);
    run_stages(&mut pipeline, &mut host);
    pipeline.finish_tick(TickEvent::Completed);
    let due = pipeline.tick(3);
    run_stages(&mut pipeline, &mut host);
    assert!(due);
    assert_eq!(pipeline.readback(), None);
    assert_eq!(pipeline.finish_process(due, &None, TickEvent::Completed), None);
    assert!(!pipeline.is_empty());
}

/// A tick whose commands could not be waited for is not counted; one whose
/// output could not be read keeps its tag.
#[test]
fn device_failures() {
    let (mut pipeline, mut host): (Pipeline<u64>, Host) =
        built(Pipeline::new().pipe(Stage::identity("a", 1, 2)), vec![identity]);
    let due = pipeline.tick(1);
    run_stages(&mut pipeline, &mut host);
    let readback = pipeline.readback();
    assert_eq!(pipeline.finish_process(due, &readback, TickEvent::PollFailed), None);
    assert_eq!(pipeline.tick_count(), 0);
    let due = pipeline.tick(2);
    run_stages(&mut pipeline, &mut host);
    let readback = pipeline.readback();
    assert_eq!(pipeline.finish_process(due, &readback, TickEvent::ReadFailed), None);
    assert_eq!(pipeline.tick_count(), 1);
    assert!(!pipeline.is_empty());
    assert_eq!(pipeline.take_output(), Some(2));
    assert!(pipeline.is_empty());
}

/// Output that nobody takes is gone with the next tick.
#[test]
fn output_may_be_left() {
    let (mut pipeline, mut host): (Pipeline<u64>, Host) = built(
        Pipeline::new().pipe(Stage::identity("a", 1, 1)).pipe(Stage::identity("b", 1, 1)),
        vec![identity, double],
    );
    for t in 0..4u64 {
        write_input(&mut pipeline, &mut host, &[t as f32]);
        assert_eq!(tick(&mut pipeline, &mut host, t), t >= 1);
    }
    assert_eq!(read_output(&mut pipeline, &host), Some((2, vec![4.0])));
    assert_eq!(read_output(&mut pipeline, &host), None);
    tick(&mut pipeline, &mut host, 4);
    assert_eq!(read_output(&mut pipeline, &host), Some((3, vec![6.0])));
}

/// Bind groups are created once, and anew after a resize.
#[test]
fn bind_groups_are_created_anew() {
    let (mut pipeline, mut host): (Pipeline<u64>, Host) =
        built(Pipeline::new().pipe(Stage::identity("a", 1, 4)), vec![identity]);
    let create = |pipeline: &mut Pipeline<u64>| {
        let pass = pipeline.stage_pass(0).unwrap();
        matches!(pass.work, StageWork::Dispatch { create_bind_groups: true, .. })
    };
    assert!(create(&mut pipeline));
    tick(&mut pipeline, &mut host, 1);
    assert!(!create(&mut pipeline));
    resize(&mut pipeline, &mut host, 5);
    assert!(create(&mut pipeline));
    tick(&mut pipeline, &mut host, 2);
    assert!(!create(&mut pipeline));
}
