//! Pipelines whose stages have buffers of their own sizes.
//!
//! All stages of a tick do their work in one submission, and each one after
//! the first reads what the stage before it wrote in the tick before. As in
//! pipelines of one size, a request that the device has a part in comes in two
//! halves, one that decides and one that is called when the device is done.

use std::sync::Arc;

use vstd::prelude::*;

use crate::error::PipelineError;
use crate::pipeline::builder;
use crate::pipeline::builder::{choose_context, stage_resources, StageResources};
use crate::pipeline::ping_pong::TickEvent;
use crate::pipeline::pipeline_stage;
use crate::pipeline::pipeline_stage::{Notice, PipelineStage, StageConfig, StageKind};
use crate::pipeline::size;
use crate::pipeline::size::{batch_byte_size, F32_SIZE};
use crate::pipeline::stage::Stage;
use crate::pipeline::variable_state;
use crate::pipeline::variable_state::VariableState;
use crate::plan::{
    bind_entries, default_bindings, workgroup_count, BindingEntry, BufferResize, InputWrite,
    Readback, StagePass, StageWork, Submission,
};
use crate::side_inputs::SideInputs;
use crate::wgpu_utils::ComputeContext;

verus! {

/// Per-stage configuration with output buffer size.
///
/// Each stage specifies its output buffer size. The input buffer size
/// is automatically determined by the previous stage's output buffer size.
pub struct StageSizeConfig<T> {
    /// The stage configuration (standard or custom)
    pub config: StageConfig<T>,
    /// Output buffer size for this stage (in elements)
    /// This determines the size of this stage's output buffers.
    /// For stage 0, this also determines the input buffer size (external input).
    pub output_batch_size: usize,
    /// Vector dimension for this stage
    pub vector_dim: usize,
}

impl<T> StageSizeConfig<T> {
    /// A stage with its size.
    pub fn new(config: StageConfig<T>, output_batch_size: usize, vector_dim: usize) -> (sized: Self)
        ensures
            sized == (StageSizeConfig { config, output_batch_size, vector_dim }),
    {
        StageSizeConfig { config, output_batch_size, vector_dim }
    }

    /// The name of the stage.
    pub fn name(&self) -> (name: &str)
        ensures
            name@ == self.config.spec_name(),
    {
        self.config.name()
    }

    /// Element size in bytes.
    pub fn element_size(&self) -> (bytes: usize)
        requires
            size::vector_bytes(self.vector_dim) <= usize::MAX,
        ensures
            bytes == size::vector_bytes(self.vector_dim),
    {
        self.vector_dim * F32_SIZE
    }

    /// Buffer size in bytes for this stage's output
    pub fn buffer_size(&self) -> (bytes: u64)
        requires
            size::vector_bytes(self.vector_dim) <= usize::MAX,
            size::batch_bytes(self.output_batch_size, self.vector_dim) <= u64::MAX,
        ensures
            bytes == size::batch_bytes(self.output_batch_size, self.vector_dim),
    {
        batch_byte_size(self.output_batch_size, self.vector_dim)
    }

    /// A copy of a standard stage with its size. Custom stages cannot be
    /// copied: create a new one instead.
    pub fn clone(&self) -> (copy: Self) where T: Clone
        requires
            !self.config.spec_is_custom(),
        ensures
            copy.output_batch_size == self.output_batch_size,
            copy.vector_dim == self.vector_dim,
            copy.config.copy_of(&self.config),
    {
        StageSizeConfig {
            config: self.config.clone(),
            output_batch_size: self.output_batch_size,
            vector_dim: self.vector_dim,
        }
    }
}

/// The stages without their sizes.
pub open spec fn configs<T>(stages: Seq<StageSizeConfig<T>>) -> Seq<StageConfig<T>> {
    stages.map_values(|c: StageSizeConfig<T>| c.config)
}

/// These stages, with the configurations `configs`.
pub open spec fn with_configs<T>(
    stages: Seq<StageSizeConfig<T>>,
    configs: Seq<StageConfig<T>>,
) -> Seq<StageSizeConfig<T>> {
    Seq::new(
        stages.len(),
        |j: int| StageSizeConfig { config: configs[j], ..stages[j] },
    )
}

/// A pipeline that supports variable buffer sizes per stage.
///
/// Unlike the standard Pipeline which requires all stages to have the same
/// batch size, this pipeline allows each stage to have independent sizing
/// requirements.
pub struct VariableSizePipeline<T> {
    tick_count: u64,
    stage_configs: Vec<StageSizeConfig<T>>,
    buffer_sizes: Vec<u64>,
    bind_groups: Vec<bool>,
    // All stages exchange the roles of their output buffers at once, so one
    // index serves them all.
    current_output_index: usize,
    current_input_write_index: usize,
    side_inputs: SideInputs<Arc<wgpu::Buffer>>,
    last_output_tag: Option<T>,
    buffer_submission_metadata: Vec<Option<Submission>>,
    default_n: usize,
}

impl<T> View for VariableSizePipeline<T> {
    type V = VariableState<T>;

    closed spec fn view(&self) -> VariableState<T> {
        VariableState {
            vector_dim: self.stage_configs@[0].vector_dim,
            output_batch_sizes: self.stage_configs@.map_values(
                |c: StageSizeConfig<T>| c.output_batch_size,
            ),
            buffer_sizes: self.buffer_sizes@,
            tick_count: self.tick_count,
            output_index: self.current_output_index,
            input_write_index: self.current_input_write_index,
            default_n: self.default_n,
            tags: self.stage_configs@.map_values(|c: StageSizeConfig<T>| c.config.spec_tag()),
            last_output_tag: self.last_output_tag,
            kinds: self.stage_configs@.map_values(|c: StageSizeConfig<T>| c.config.kind()),
            bind_groups: self.bind_groups@,
            metadata: self.buffer_submission_metadata@,
            side_inputs: self.side_inputs@,
        }
    }
}

impl<T> VariableSizePipeline<T> {
    /// Whether all stages have the vector dimension of the first one.
    pub closed spec fn uniform(&self) -> bool {
        forall|i: int|
            0 <= i < self.stage_configs@.len() ==> (#[trigger] self.stage_configs@[i]).vector_dim
                == self.stage_configs@[0].vector_dim
    }

    /// What holds of every pipeline.
    pub open spec fn wf(&self) -> bool {
        self@.wf() && self.uniform()
    }

    /// The stages.
    pub closed spec fn stages(&self) -> Seq<StageSizeConfig<T>> {
        self.stage_configs@
    }

    /// Whether the stages are the ones `before` but for their tags.
    pub open spec fn retagged(&self, before: &Self) -> bool {
        &&& self.stages().len() == before.stages().len()
        &&& forall|j: int|
            0 <= j < before.stages().len() ==> (#[trigger] self.stages()[j]) == (StageSizeConfig {
                config: before.stages()[j].config.with_tag(self@.tags[j]),
                ..before.stages()[j]
            })
    }

    /// Creates a new variable-size pipeline builder
    pub fn builder() -> (builder: VariableSizePipelineBuilder<T>)
        ensures
            builder.stage_configs@ == Seq::<StageSizeConfig<T>>::empty(),
            builder.context is None,
    {
        VariableSizePipelineBuilder::new()
    }

    /// Gets the number of stages
    pub fn num_stages(&self) -> (count: usize)
        ensures
            count == self@.num_stages(),
    {
        self.stage_configs.len()
    }

    /// Gets the output buffer size for a specific stage
    pub fn stage_output_buffer_size(&self, stage_idx: usize) -> (bytes: u64)
        requires
            self.wf(),
            stage_idx < self@.num_stages(),
        ensures
            bytes == self@.stage_bytes(stage_idx as int),
    {
        assert(self@.output_batch_sizes[stage_idx as int]
            == self.stage_configs@[stage_idx as int].output_batch_size);
        self.stage_configs[stage_idx].buffer_size()
    }

    /// Gets the input buffer size (stage 0's buffer size)
    pub fn input_buffer_size(&self) -> (bytes: u64)
        requires
            self.wf(),
        ensures
            bytes == self@.stage_bytes(0),
    {
        self.stage_output_buffer_size(0)
    }

    /// Completed ticks.
    pub fn tick_count(&self) -> (count: u64)
        ensures
            count == self@.tick_count,
    {
        self.tick_count
    }

    /// The configuration of a stage.
    pub fn stage_config(&self, stage_idx: usize) -> (config: &StageSizeConfig<T>)
        requires
            self.wf(),
            stage_idx < self@.num_stages(),
        ensures
            *config == self.stages()[stage_idx as int],
            config.config.spec_tag() == self@.tags[stage_idx as int],
            config.config.kind() == self@.kinds[stage_idx as int],
            config.output_batch_size == self@.output_batch_sizes[stage_idx as int],
            config.vector_dim == self@.vector_dim,
    {
        &self.stage_configs[stage_idx]
    }

    /// The side inputs that custom stages get: none.
    pub fn side_inputs(&self) -> (inputs: &SideInputs<Arc<wgpu::Buffer>>)
        requires
            self.wf(),
        ensures
            inputs@ == Seq::<(Seq<char>, Arc<wgpu::Buffer>)>::empty(),
    {
        assert(self.side_inputs@ =~= Seq::<(Seq<char>, Arc<wgpu::Buffer>)>::empty());
        &self.side_inputs
    }

    /// The stages after the one that a pair of buffers belongs to got another
    /// size.
    pub open spec fn resized_stages(&self, pair: int, batch_size: usize) -> Seq<
        StageSizeConfig<T>,
    > {
        let stage = variable_state::stage_of_pair(pair);
        self.stages().update(
            stage,
            StageSizeConfig { output_batch_size: batch_size, ..self.stages()[stage] },
        )
    }

    /// Sets the size of the stage that a pair of buffers belongs to.
    fn set_size(&mut self, pair: usize, new_batch_size: usize)
        requires
            old(self).wf(),
            pair <= old(self)@.num_stages(),
            size::batch_bytes(new_batch_size, old(self)@.vector_dim) <= usize::MAX,
        ensures
            final(self).wf(),
            final(self)@ == old(self)@.sized(pair as int, new_batch_size),
            final(self).stages() == old(self).resized_stages(pair as int, new_batch_size),
    {
        let stage: usize = if pair == 0 {
            0
        } else {
            pair - 1
        };
        let ghost before = *self;
        self.stage_configs[stage].output_batch_size = new_batch_size;
        proof {
            let after = before@.sized(pair as int, new_batch_size);
            assert(self@.output_batch_sizes =~= after.output_batch_sizes);
            assert(self@.tags =~= after.tags);
            assert(self@.kinds =~= after.kinds);
            assert(self.stages() =~= before.resized_stages(pair as int, new_batch_size));
        }
    }

    /// How buffer `buf_idx` is replaced by one that holds `new_batch_size`
    /// vectors.
    fn replacement(&self, buf_idx: usize, new_batch_size: usize) -> (resize: BufferResize)
        requires
            self.wf(),
            buf_idx < self@.buffer_sizes.len(),
            size::batch_bytes(new_batch_size, self@.vector_dim) <= usize::MAX,
        ensures
            resize == self@.replacement(buf_idx as int, new_batch_size),
    {
        let new_size: u64 = batch_byte_size(new_batch_size, self.stage_configs[0].vector_dim);
        let old_size: u64 = self.buffer_sizes[buf_idx];
        let copy_size: u64 = if old_size <= new_size {
            old_size
        } else {
            new_size
        };
        BufferResize { index: buf_idx, new_size, copy_size }
    }

    /// Records that buffer `buf_idx` was replaced by one that holds
    /// `new_batch_size` vectors.
    fn set_buffer(&mut self, buf_idx: usize, new_batch_size: usize)
        requires
            old(self).wf(),
            buf_idx < old(self)@.buffer_sizes.len(),
            size::batch_bytes(new_batch_size, old(self)@.vector_dim) <= usize::MAX,
        ensures
            final(self).wf(),
            final(self)@ == old(self)@.replaced(buf_idx as int, new_batch_size),
            final(self).stages() == old(self).stages(),
    {
        let new_size: u64 = batch_byte_size(new_batch_size, self.stage_configs[0].vector_dim);
        self.buffer_sizes.set(buf_idx, new_size);
        self.buffer_submission_metadata.set(buf_idx, None);
    }

    /// Index of the buffer of a pair that is not written next.
    fn resting_buffer(&self, pair: usize) -> (buf_idx: usize)
        requires
            self.wf(),
            pair <= self@.num_stages(),
        ensures
            buf_idx == self@.resting_buffer(pair as int),
    {
        if pair == 0 {
            1 - self.current_input_write_index
        } else {
            2 * pair + (1 - self.current_output_index)
        }
    }

    /// Decides how a specific stage's output buffers are resized.
    ///
    /// In a ping-pong buffer system, only ONE buffer from each pair should be resized
    /// at a time. The other buffer retains its old size until the next tick when the
    /// roles swap.
    ///
    /// This resizes the buffer that is NOT written next (the "read" buffer in the
    /// ping-pong pair), so that in-flight data is not corrupted. `stage_idx` is 0 for
    /// the input buffers and 1+ for stage output buffers. Nothing changes until the
    /// device has replaced the buffer: `complete_resize_stage` then ends the resize.
    pub fn resize_stage(&self, stage_idx: usize, new_batch_size: usize) -> (result: Result<
        BufferResize,
        PipelineError,
    >)
        requires
            self.wf(),
            size::batch_bytes(new_batch_size, self@.vector_dim) <= usize::MAX,
        ensures
            if stage_idx > self@.num_stages() {
                &&& result matches Err(e)
                &&& e == (PipelineError::StageOutOfBounds {
                    index: stage_idx,
                    max: self@.num_stages() as usize,
                })
            } else {
                &&& result matches Ok(resize)
                &&& resize == self@.replacement(
                    self@.resting_buffer(stage_idx as int),
                    new_batch_size,
                )
            },
    {
        let num_stages: usize = self.stage_configs.len();
        if stage_idx > num_stages {
            return Err(PipelineError::StageOutOfBounds { index: stage_idx, max: num_stages });
        }
        let buf_idx: usize = self.resting_buffer(stage_idx);
        Ok(self.replacement(buf_idx, new_batch_size))
    }

    /// Records that the buffer that `resize_stage` named was replaced. The
    /// stage has its size from now on, and the bind groups of the affected
    /// stages are void.
    pub fn complete_resize_stage(&mut self, stage_idx: usize, new_batch_size: usize)
        requires
            old(self).wf(),
            stage_idx <= old(self)@.num_stages(),
            size::batch_bytes(new_batch_size, old(self)@.vector_dim) <= usize::MAX,
        ensures
            final(self).wf(),
            final(self)@ == old(self)@.resized(stage_idx as int, new_batch_size),
            final(self).stages() == old(self).resized_stages(stage_idx as int, new_batch_size),
    {
        let buf_idx: usize = self.resting_buffer(stage_idx);
        self.set_size(stage_idx, new_batch_size);
        self.set_buffer(buf_idx, new_batch_size);
        self.clear_bind_groups(stage_idx);
    }

    /// Decides how both buffers in a stage's ping-pong pair are resized to the
    /// same size.
    ///
    /// This is useful when you want to ensure both buffers have the same size,
    /// but it may cause issues if there's data in-flight. Use with caution.
    ///
    /// Prefer `resize_stage()` which only resizes one buffer at a time for
    /// proper ping-pong behavior. Nothing changes until the device has replaced
    /// the buffers: `complete_resize_stage_both` then ends the resize.
    pub fn resize_stage_both(&self, stage_idx: usize, new_batch_size: usize) -> (result: Result<
        Vec<BufferResize>,
        PipelineError,
    >)
        requires
            self.wf(),
            size::batch_bytes(new_batch_size, self@.vector_dim) <= usize::MAX,
        ensures
            if stage_idx > self@.num_stages() {
                &&& result matches Err(e)
                &&& e == (PipelineError::StageOutOfBounds {
                    index: stage_idx,
                    max: self@.num_stages() as usize,
                })
            } else {
                &&& result matches Ok(resizes)
                &&& resizes@ == seq![
                    self@.replacement(2 * stage_idx, new_batch_size),
                    self@.replacement(2 * stage_idx + 1, new_batch_size),
                ]
            },
    {
        let num_stages: usize = self.stage_configs.len();
        if stage_idx > num_stages {
            return Err(PipelineError::StageOutOfBounds { index: stage_idx, max: num_stages });
        }
        let base_idx: usize = 2 * stage_idx;
        let mut resizes: Vec<BufferResize> = Vec::new();
        resizes.push(self.replacement(base_idx, new_batch_size));
        resizes.push(self.replacement(base_idx + 1, new_batch_size));
        assert(resizes@ =~= seq![
            self@.replacement(2 * stage_idx, new_batch_size),
            self@.replacement(2 * stage_idx + 1, new_batch_size),
        ]);
        Ok(resizes)
    }

    /// Records that both buffers of a pair were replaced. The stage has their
    /// size from now on, and the bind groups of the affected stages are void.
    pub fn complete_resize_stage_both(&mut self, stage_idx: usize, new_batch_size: usize)
        requires
            old(self).wf(),
            stage_idx <= old(self)@.num_stages(),
            size::batch_bytes(new_batch_size, old(self)@.vector_dim) <= usize::MAX,
        ensures
            final(self).wf(),
            final(self)@ == old(self)@.resized_both(stage_idx as int, new_batch_size),
            final(self).stages() == old(self).resized_stages(stage_idx as int, new_batch_size),
    {
        let base_idx: usize = 2 * stage_idx;
        self.set_size(stage_idx, new_batch_size);
        self.set_buffer(base_idx, new_batch_size);
        self.set_buffer(base_idx + 1, new_batch_size);
        self.clear_bind_groups(stage_idx);
    }

    /// Marks the bind groups as void from the stage on that a pair belongs to.
    fn clear_bind_groups(&mut self, pair: usize)
        requires
            old(self).wf(),
            pair <= old(self)@.num_stages(),
        ensures
            final(self).wf(),
            final(self)@ == old(self)@.unbound(pair as int),
            final(self).stages() == old(self).stages(),
    {
        let affected_stage: usize = if pair == 0 {
            0
        } else {
            pair - 1
        };
        let mut i: usize = affected_stage;
        while i < self.bind_groups.len()
            invariant
                old(self).wf(),
                affected_stage <= i <= self.bind_groups@.len() == old(self)@.num_stages(),
                self.stage_configs == old(self).stage_configs,
                self@ == (VariableState { bind_groups: self@.bind_groups, ..old(self)@ }),
                forall|j: int|
                    0 <= j < affected_stage ==> (#[trigger] self@.bind_groups[j]) == old(
                        self,
                    )@.bind_groups[j],
                forall|j: int| affected_stage <= j < i ==> (#[trigger] self@.bind_groups[j]) == false,
            decreases self.bind_groups@.len() - i,
        {
            self.bind_groups.set(i, false);
            i = i + 1;
        }
        assert(self@.bind_groups =~= old(self)@.unbound(pair as int).bind_groups);
    }

    /// Gets the current buffer sizes for a stage's output ping-pong pair
    /// Returns (buffer_a_size, buffer_b_size) in elements. `stage_idx` is 0
    /// for the input buffers and 1+ for output buffers.
    pub fn get_stage_buffer_sizes(&self, stage_idx: usize) -> (sizes: (usize, usize))
        requires
            self.wf(),
            stage_idx <= self@.num_stages(),
            self@.vector_dim > 0,
        ensures
            sizes.0 == self@.buffer_sizes[2 * stage_idx] as nat / size::vector_bytes(
                self@.vector_dim,
            ),
            sizes.1 == self@.buffer_sizes[2 * stage_idx + 1] as nat / size::vector_bytes(
                self@.vector_dim,
            ),
    {
        let element_size: u64 = (self.stage_configs[0].vector_dim * F32_SIZE) as u64;
        let base_idx: usize = 2 * stage_idx;
        let first: u64 = self.buffer_sizes[base_idx];
        let second: u64 = self.buffer_sizes[base_idx + 1];
        assert(self@.buffer_sizes[base_idx as int] <= usize::MAX);
        assert(self@.buffer_sizes[base_idx + 1] <= usize::MAX);
        assert(first / element_size <= first && second / element_size <= second)
            by (nonlinear_arith)
            requires
                element_size > 0,
        ;
        ((first / element_size) as usize, (second / element_size) as usize)
    }

    /// Bytes of the buffer that the next input is written to.
    pub fn write_buffer_size(&self) -> (bytes: u64)
        requires
            self.wf(),
        ensures
            bytes == self@.buffer_sizes[self@.input_write_index as int],
    {
        self.buffer_sizes[self.current_input_write_index]
    }

    /// Takes input data for the current write buffer.
    ///
    /// Data that is too large for the size of the first stage or for the
    /// buffer that is written, or does not consist of whole vectors, is
    /// refused. A buffer keeps its size until it is replaced, whatever size the
    /// stage was given since.
    pub fn write_input<D>(&mut self, data: &[D]) -> (result: Result<InputWrite, PipelineError>)
        requires
            old(self).wf(),
            data@.len() * vstd::layout::size_of::<D>() <= usize::MAX,
        ensures
            final(self).wf(),
            final(self).stages() == old(self).stages(),
            ({
                let bytes = data@.len() * vstd::layout::size_of::<D>();
                match old(self)@.input_error(bytes) {
                    Some(e) => result == Err::<InputWrite, PipelineError>(e) && final(self)@
                        == old(self)@,
                    None => {
                        &&& result matches Ok(write)
                        &&& write == (InputWrite {
                            buffer: old(self)@.input_write_index,
                            bytes: bytes as usize,
                        })
                        &&& final(self)@ == old(self)@.accept()
                    },
                }
            }),
    {
        assert(self@.output_batch_sizes[0] == self.stage_configs@[0].output_batch_size);
        let expected_byte_size: usize = self.stage_configs[0].buffer_size() as usize;
        let actual_byte_size: usize = data.len() * std::mem::size_of::<D>();
        if actual_byte_size > expected_byte_size {
            return Err(
                PipelineError::InputTooLarge {
                    bytes: actual_byte_size,
                    capacity: expected_byte_size,
                },
            );
        }
        let buffer_byte_size: u64 = self.write_buffer_size();
        if actual_byte_size as u64 > buffer_byte_size {
            return Err(
                PipelineError::InputTooLarge {
                    bytes: actual_byte_size,
                    capacity: buffer_byte_size as usize,
                },
            );
        }
        let vector_dim: usize = self.stage_configs[0].vector_dim;
        let element_size: usize = self.stage_configs[0].element_size();
        if element_size != 0 && actual_byte_size % element_size != 0 {
            return Err(
                PipelineError::PartialVector { bytes: actual_byte_size, element_size, vector_dim },
            );
        }
        let write_idx: usize = self.current_input_write_index;
        self.current_input_write_index = 1 - write_idx;
        Ok(InputWrite { buffer: write_idx, bytes: actual_byte_size })
    }

    /// Begins a tick: every tag moves on by one stage, and a copy of `tag`
    /// enters at the first. The output of the tick has the tag itself.
    pub fn tick(&mut self, tag: T) where T: Clone
        requires
            old(self).wf(),
        ensures
            final(self).wf(),
            exists|first: T|
                cloned::<T>(tag, first) && final(self)@ == #[trigger] old(self)@.forward(first, tag),
            final(self).retagged(old(self)),
    {
        let num_stages: usize = self.stage_configs.len();
        let first = tag.clone();
        let mut current_tag: Option<T> = Some(first);
        self.last_output_tag = Some(tag);
        let mut i: usize = 0;
        while i < self.stage_configs.len()
            invariant
                self.stage_configs@.len() == old(self).stage_configs@.len() == num_stages,
                i <= num_stages,
                old(self).wf(),
                self.uniform(),
                self@ == (VariableState {
                    tags: self@.tags,
                    last_output_tag: Some(tag),
                    ..old(self)@
                }),
                forall|j: int|
                    0 <= j < i ==> (#[trigger] self@.tags[j]) == if j == 0 {
                        Some(first)
                    } else {
                        old(self)@.tags[j - 1]
                    },
                forall|j: int| i <= j < num_stages ==> (#[trigger] self@.tags[j]) == old(self)@.tags[j],
                forall|j: int|
                    0 <= j < i ==> (#[trigger] self.stage_configs@[j]) == (StageSizeConfig {
                        config: old(self).stage_configs@[j].config.with_tag(self@.tags[j]),
                        ..old(self).stage_configs@[j]
                    }),
                forall|j: int|
                    i <= j < num_stages ==> (#[trigger] self.stage_configs@[j]) == old(
                        self,
                    ).stage_configs@[j],
                current_tag == if i == 0 {
                    Some(first)
                } else {
                    old(self)@.tags[i - 1]
                },
            decreases num_stages - i,
        {
            let ghost before = self@;
            let ghost entering = current_tag;
            current_tag = self.stage_configs[i].config.forward_tag(current_tag);
            proof {
                assert(current_tag == before.tags[i as int]);
                assert(self@.tags =~= before.tags.update(i as int, entering));
                assert(self@.kinds =~= before.kinds);
                assert(self@.output_batch_sizes =~= before.output_batch_sizes);
            }
            i = i + 1;
        }
        assert(self@.tags =~= old(self)@.forward(first, tag).tags);
        assert(self@ == old(self)@.forward(first, tag));
    }

    /// Where all stages kept their kinds, tags and sizes and nothing else
    /// changed, neither did the state.
    proof fn lemma_same_state(&self, before: &Self)
        requires
            before.wf(),
            *self == (VariableSizePipeline { stage_configs: self.stage_configs, ..*before }),
            self.stages() == with_configs(before.stages(), configs(self.stages())),
            forall|j: int|
                0 <= j < self.stages().len() ==> {
                    let now = #[trigger] self.stages()[j];
                    &&& now.config.kind() == before.stages()[j].config.kind()
                    &&& now.config.spec_tag() == before.stages()[j].config.spec_tag()
                },
        ensures
            self.wf(),
            self@ == before@,
    {
        assert(self.stages().len() == before.stages().len());
        assert forall|j: int| 0 <= j < self.stages().len() implies {
            let now = #[trigger] self.stages()[j];
            &&& now.output_batch_size == before.stages()[j].output_batch_size
            &&& now.vector_dim == before.stages()[j].vector_dim
        } by {
            assert(self.stages()[j] == with_configs(before.stages(), configs(self.stages()))[j]);
        }
        assert(self@.tags =~= before@.tags) by {
            assert forall|j: int| 0 <= j < self@.tags.len() implies self@.tags[j]
                == before@.tags[j] by {
                assert(self.stages()[j].config.spec_tag()
                    == before.stages()[j].config.spec_tag());
            }
        }
        assert(self@.kinds =~= before@.kinds) by {
            assert forall|j: int| 0 <= j < self@.kinds.len() implies self@.kinds[j]
                == before@.kinds[j] by {
                assert(self.stages()[j].config.kind() == before.stages()[j].config.kind());
            }
        }
        assert(self@.output_batch_sizes =~= before@.output_batch_sizes) by {
            assert forall|j: int| 0 <= j < self.stages().len() implies self@.output_batch_sizes[j]
                == before@.output_batch_sizes[j] by {
                assert(self.stages()[j].output_batch_size
                    == before.stages()[j].output_batch_size);
            }
        }
        assert(self.stages()[0].vector_dim == before.stages()[0].vector_dim);
        assert(self.uniform()) by {
            assert forall|j: int| 0 <= j < self.stage_configs@.len() implies (
            #[trigger] self.stage_configs@[j]).vector_dim == self.stage_configs@[0].vector_dim by {
                assert(self.stages()[j].vector_dim == before.stages()[j].vector_dim);
                assert(before.stage_configs@[j].vector_dim == before.stage_configs@[0].vector_dim);
            }
        }
    }

    /// Decides what stage `i` does in this tick, and tells a custom stage
    /// what its data is.
    pub fn stage_pass(&mut self, i: usize) -> (result: Result<StagePass, PipelineError>)
        requires
            old(self).wf(),
            i < old(self)@.num_stages(),
        ensures
            final(self).wf(),
            final(self)@ == old(self)@,
            final(self).stages() == old(self).stages().update(
                i as int,
                StageSizeConfig {
                    config: final(self).stages()[i as int].config,
                    ..old(self).stages()[i as int]
                },
            ),
            match result {
                Ok(pass) => {
                    &&& pass == old(self)@.pass(i as int)
                    &&& final(self).stages()[i as int].config.briefed(
                        &old(self).stages()[i as int].config,
                        pass.elements,
                        pass.n,
                        Ok(()),
                    )
                },
                Err(e) => {
                    &&& e is Stage
                    &&& old(self)@.kinds[i as int] is Custom
                    &&& final(self).stages()[i as int].config.briefed(
                        &old(self).stages()[i as int].config,
                        old(self)@.pass(i as int).elements,
                        old(self)@.pass(i as int).n,
                        Err(e),
                    )
                },
            },
            !(old(self)@.kinds[i as int] is Custom) ==> final(self).stages() == old(self).stages(),
    {
        let state: usize = self.current_output_index;
        let input_variant: usize = if i == 0 {
            1 - self.current_input_write_index
        } else {
            1 - state
        };
        let input: usize = 2 * i + input_variant;
        let output: usize = 2 * i + 2 + state;
        let batch_size: usize = self.stage_configs[i].output_batch_size;
        let vector_dim: usize = self.stage_configs[i].vector_dim;
        let (elements, n): (usize, usize) = match self.buffer_submission_metadata[input] {
            Some(s) => (s.elements, s.n),
            None => (batch_size, self.default_n),
        };
        proof {
            assert(self@.output_batch_sizes[i as int] == batch_size);
            size::lemma_batch_scalars(batch_size, vector_dim);
        }
        let told = self.stage_configs[i].config.brief(elements, n);
        proof {
            let was = old(self).stages()[i as int];
            let now = self.stages()[i as int];
            now.config.lemma_briefed(&was.config, elements, n, told);
            assert(self.stages() =~= old(self).stages().update(
                i as int,
                StageSizeConfig { config: now.config, ..was },
            ));
            assert(self.stages() =~= with_configs(old(self).stages(), configs(self.stages())));
            self.lemma_same_state(old(self));
            assert(old(self)@.kinds[i as int] == was.config.kind());
            if !was.config.spec_is_custom() {
                assert(self.stages() =~= old(self).stages());
            }
            assert(told is Ok ==> told == Ok::<(), PipelineError>(()));
        }
        if let Err(e) = told {
            return Err(e);
        }
        let work = if self.stage_configs[i].config.is_custom() {
            StageWork::Encode
        } else {
            StageWork::Dispatch {
                input_variant,
                output_state: state,
                groups: workgroup_count(batch_size * vector_dim),
                create_bind_groups: !self.bind_groups[i],
            }
        };
        Ok(StagePass { stage: i, input, output, elements, n, work })
    }

    /// Records that the work of stage `i` was encoded.
    pub fn stage_encoded(&mut self, i: usize)
        requires
            old(self).wf(),
            i < old(self)@.num_stages(),
        ensures
            final(self).wf(),
            final(self)@ == old(self)@.encoded(i as int),
            final(self).stages() == old(self).stages(),
    {
        let input: usize = if i == 0 {
            1 - self.current_input_write_index
        } else {
            2 * i + (1 - self.current_output_index)
        };
        let output: usize = 2 * i + 2 + self.current_output_index;
        let known = self.buffer_submission_metadata[input];
        self.buffer_submission_metadata.set(output, known);
        if !self.stage_configs[i].config.is_custom() {
            self.bind_groups.set(i, true);
        }
        assert(self@.kinds[i as int] == self.stage_configs@[i as int].config.kind());
        assert(self@.bind_groups =~= old(self)@.encoded(i as int).bind_groups);
    }

    /// Ends a tick. `PollFailed` leaves the tick uncounted.
    pub fn finish_tick(&mut self, event: TickEvent)
        requires
            old(self).wf(),
            old(self)@.tick_count < u64::MAX,
        ensures
            final(self).wf(),
            final(self)@ == if event == TickEvent::PollFailed {
                old(self)@.flip()
            } else {
                old(self)@.complete()
            },
            final(self).stages() == old(self).stages(),
    {
        self.current_output_index = 1 - self.current_output_index;
        if event != TickEvent::PollFailed {
            self.tick_count = self.tick_count + 1;
        }
    }

    /// The entries of a bind group of stage `stage_idx`: the one that reads
    /// the member `input_buffer_variant` of the input pair and writes the
    /// member `output_state` of the output pair.
    pub fn create_bind_group_for_stage(
        &self,
        stage_idx: usize,
        input_buffer_variant: usize,
        output_state: usize,
    ) -> (entries: Vec<BindingEntry>)
        requires
            self.wf(),
            stage_idx < self@.num_stages(),
            input_buffer_variant <= 1,
            output_state <= 1,
        ensures
            entries@ == self@.bind_group(stage_idx as int, input_buffer_variant, output_state),
    {
        let input_buffer_idx: usize = 2 * stage_idx + input_buffer_variant;
        let output_buffer_idx: usize = 2 * stage_idx + 2 + output_state;
        let bindings: Vec<u32> = match &self.stage_configs[stage_idx].config {
            StageConfig::Standard { stage, .. } => stage.bindings(),
            StageConfig::Custom { .. } => default_bindings(),
        };
        assert(self@.kinds[stage_idx as int] == self.stage_configs@[stage_idx as int].config.kind());
        bind_entries(&bindings, input_buffer_idx, output_buffer_idx)
    }

    /// Whether a tick began, so that there is output to read.
    pub fn has_output(&self) -> (has: bool)
        ensures
            has == (self@.last_output_tag is Some),
    {
        self.last_output_tag.is_some()
    }

    /// Bytes of the buffer that the output is read from.
    pub fn output_buffer_size(&self) -> (bytes: u64)
        requires
            self.wf(),
        ensures
            bytes == self@.buffer_sizes[self@.finished_output()],
    {
        let num_stages: usize = self.stage_configs.len();
        self.buffer_sizes[2 * num_stages + (1 - self.current_output_index)]
    }

    /// What to copy to the host to get the output of the last stage, with a
    /// copy of the tag of the tick that began last. Nothing before the first
    /// tick. The buffer that is copied must not be empty.
    pub fn read_output(&self) -> (output: Option<(Option<T>, Readback)>) where T: Clone
        requires
            self.wf(),
            self@.last_output_tag is Some ==> self@.buffer_sizes[self@.finished_output()] > 0,
        ensures
            match self@.last_output_tag {
                None => output is None,
                Some(tag) => {
                    &&& output matches Some((Some(copy), readback))
                    &&& cloned::<T>(tag, copy)
                    &&& readback == self@.readback()
                },
            },
    {
        match &self.last_output_tag {
            None => None,
            Some(tag) => {
                let num_stages: usize = self.stage_configs.len();
                let buffer: usize = 2 * num_stages + (1 - self.current_output_index);
                let bytes: u64 = self.output_buffer_size();
                assert(self@.buffer_sizes[buffer as int] <= usize::MAX);
                let scalars: usize = bytes as usize / F32_SIZE;
                Some((Some(tag.clone()), Readback { buffer, bytes, scalars }))
            },
        }
    }

    /// Initializes the custom stages that say that they require it with
    /// `context`, until one fails. The answers of the stages decide which ones
    /// are initialized.
    pub fn initialize_stages(&mut self, context: &ComputeContext) -> (result: Result<
        (),
        PipelineError,
    >)
        requires
            old(self).wf(),
        ensures
            final(self).wf(),
            final(self)@ == old(self)@,
            result matches Err(e) ==> e is Stage,
            final(self).stages() == with_configs(
                old(self).stages(),
                configs(final(self).stages()),
            ),
            pipeline_stage::initialized_in_turn(
                configs(old(self).stages()),
                configs(final(self).stages()),
                context,
                result,
            ),
    {
        let ghost notice = Notice::Initialize;
        let ghost before_all = configs(old(self).stages());
        let ghost mut required: Seq<bool> = Seq::new(before_all.len(), |j: int| false);
        let mut i: usize = 0;
        while i < self.stage_configs.len()
            invariant
                i <= self.stages().len() == before_all.len() == required.len(),
                before_all == configs(old(self).stages()),
                notice == Notice::Initialize,
                old(self).wf(),
                self.wf(),
                self@ == old(self)@,
                self.stages() == with_configs(old(self).stages(), configs(self.stages())),
                forall|j: int|
                    0 <= j < i ==> before_all[j].asks_initialization(#[trigger] required[j]),
                forall|j: int|
                    0 <= j < i && #[trigger] required[j] ==> before_all[j].initialized(
                        context,
                        Ok(()),
                    ),
                forall|j: int|
                    0 <= j < i ==> if required[j] {
                        (#[trigger] configs(self.stages())[j]).told(
                            &before_all[j],
                            notice,
                            Ok(()),
                        )
                    } else {
                        configs(self.stages())[j] == before_all[j]
                    },
                forall|j: int|
                    i <= j < self.stages().len() ==> (#[trigger] configs(self.stages())[j])
                        == before_all[j],
            decreases self.stages().len() - i,
        {
            let ghost before = *self;
            assert(configs(before.stages())[i as int] == before_all[i as int]);
            let result = self.stage_configs[i].config.initialize(context);
            proof {
                let was = before.stages()[i as int].config;
                let now = self.stages()[i as int].config;
                assert(was == before_all[i as int]);
                let answer = choose|answer: bool|
                    #[trigger] was.asks_initialization(answer) && if answer {
                        now.told(&was, notice, result) && was.initialized(context, result)
                    } else {
                        now == was && result is Ok
                    };
                if answer {
                    now.lemma_told(&was, notice, result);
                }
                assert(self.stages() =~= with_configs(before.stages(), configs(self.stages())));
                self.lemma_same_state(&before);
                assert(self.stages() =~= with_configs(
                    old(self).stages(),
                    configs(self.stages()),
                ));
                assert(configs(self.stages()) =~= configs(before.stages()).update(i as int, now));
                required = required.update(i as int, answer);
                assert(result is Ok ==> result == Ok::<(), PipelineError>(()));
            }
            if let Err(e) = result {
                proof {
                    assert(pipeline_stage::told_until(
                        before_all,
                        configs(self.stages()),
                        required,
                        i as int,
                        notice,
                        result,
                    ));
                }
                return Err(e);
            }
            i = i + 1;
        }
        proof {
            assert(pipeline_stage::told_until(
                before_all,
                configs(self.stages()),
                required,
                before_all.len() as int,
                notice,
                Ok(()),
            ));
        }
        Ok(())
    }
}

/// Builder for variable-size pipelines
pub struct VariableSizePipelineBuilder<T> {
    /// The stages so far, with their sizes.
    pub stage_configs: Vec<StageSizeConfig<T>>,
    /// The context that was set.
    pub context: Option<Arc<ComputeContext>>,
}

/// A variable-size pipeline that was built, and what it needs of the device.
pub struct BuiltVariablePipeline<T> {
    /// The pipeline.
    pub pipeline: VariableSizePipeline<T>,
    /// The context to use, where one was set.
    pub context: Option<Arc<ComputeContext>>,
    /// The sizes of the buffers to create.
    pub buffer_sizes: Vec<u64>,
    /// What each stage needs.
    pub resources: Vec<StageResources>,
}

/// Whether a pipeline can be built of these stages: there is one, and all
/// have the vector dimension of the first.
pub open spec fn sizes_accepted<T>(stages: Seq<StageSizeConfig<T>>) -> bool {
    &&& stages.len() > 0
    &&& forall|i: int|
        0 <= i < stages.len() ==> (#[trigger] stages[i]).vector_dim == stages[0].vector_dim
}

/// Whether `error` is why no pipeline can be built of these stages: there are
/// none, or the first one of another vector dimension is named.
pub open spec fn sizes_refusal<T>(stages: Seq<StageSizeConfig<T>>, error: PipelineError) -> bool {
    if stages.len() == 0 {
        error == PipelineError::NoStages
    } else {
        &&& error matches PipelineError::VectorDimMismatch { stage, found, expected }
        &&& expected == stages[0].vector_dim
        &&& exists|i: int|
            0 <= i < stages.len() && (#[trigger] stages[i]).vector_dim == found && found != expected
                && stage@ == stages[i].config.spec_name() && forall|j: int|
                0 <= j < i ==> (#[trigger] stages[j]).vector_dim == expected
    }
}

/// The state of a pipeline of these stages before its first tick.
pub open spec fn initial_state<T>(stages: Seq<StageSizeConfig<T>>) -> VariableState<T> {
    let vector_dim = stages[0].vector_dim;
    VariableState {
        vector_dim,
        output_batch_sizes: stages.map_values(|c: StageSizeConfig<T>| c.output_batch_size),
        buffer_sizes: Seq::new(
            2 + 2 * stages.len(),
            |b: int|
                size::batch_bytes(
                    stages[variable_state::stage_of_pair(b / 2)].output_batch_size,
                    vector_dim,
                ) as u64,
        ),
        tick_count: 0,
        output_index: 0,
        input_write_index: 0,
        default_n: stages[0].output_batch_size,
        tags: stages.map_values(|c: StageSizeConfig<T>| c.config.spec_tag()),
        last_output_tag: None,
        kinds: stages.map_values(|c: StageSizeConfig<T>| c.config.kind()),
        bind_groups: Seq::new(stages.len(), |i: int| false),
        metadata: Seq::new(2 + 2 * stages.len(), |b: int| None),
        side_inputs: Seq::empty(),
    }
}

impl<T> BuiltVariablePipeline<T> {
    /// Whether a fresh context has to be created: only where none was set.
    pub fn needs_context(&self) -> (needed: bool)
        ensures
            needed == (self.context is None),
    {
        self.context.is_none()
    }

    /// Initializes the stages with the context that the pipeline runs on from
    /// then on: the one that was set, or else `fresh`. The pipeline is ready
    /// where no stage fails.
    pub fn initialize(&mut self, fresh: Option<Arc<ComputeContext>>) -> (result: Result<
        (),
        PipelineError,
    >)
        requires
            old(self).pipeline.wf(),
            old(self).context is None ==> fresh is Some,
        ensures
            final(self).pipeline.wf(),
            final(self).context == Some(builder::chosen_context(old(self).context, fresh)),
            final(self).pipeline@ == old(self).pipeline@,
            final(self).pipeline.stages() == with_configs(
                old(self).pipeline.stages(),
                configs(final(self).pipeline.stages()),
            ),
            pipeline_stage::initialized_in_turn(
                configs(old(self).pipeline.stages()),
                configs(final(self).pipeline.stages()),
                &*builder::chosen_context(old(self).context, fresh),
                result,
            ),
            result matches Err(e) ==> e is Stage,
            final(self).buffer_sizes == old(self).buffer_sizes,
            final(self).resources == old(self).resources,
    {
        let context = choose_context(&self.context, fresh);
        let result = self.pipeline.initialize_stages(&context);
        self.context = Some(context);
        result
    }
}

impl<T> VariableSizePipelineBuilder<T> {
    /// A builder without stages.
    pub fn new() -> (builder: Self)
        ensures
            builder.stage_configs@ == Seq::<StageSizeConfig<T>>::empty(),
            builder.context is None,
    {
        VariableSizePipelineBuilder { stage_configs: Vec::new(), context: None }
    }

    /// Add a standard stage with a specific output buffer size
    pub fn pipe_with_size(self, stage: Stage, output_batch_size: usize) -> (builder: Self)
        ensures
            builder.stage_configs@ == self.stage_configs@.push(
                StageSizeConfig {
                    config: StageConfig::Standard { stage, tag: None },
                    output_batch_size,
                    vector_dim: stage.vector_dim,
                },
            ),
            builder.context == self.context,
    {
        let vector_dim: usize = stage.vector_dim;
        let config = StageSizeConfig {
            config: StageConfig::Standard { stage, tag: None },
            output_batch_size,
            vector_dim,
        };
        let mut stage_configs = self.stage_configs;
        stage_configs.push(config);
        VariableSizePipelineBuilder { stage_configs, context: self.context }
    }

    /// Add a custom stage with a specific output buffer size
    pub fn pipe_custom_with_size(
        self,
        stage: Box<dyn PipelineStage>,
        output_batch_size: usize,
    ) -> (builder: Self)
        ensures
            builder.stage_configs@.len() == self.stage_configs@.len() + 1,
            builder.stage_configs@.drop_last() == self.stage_configs@,
            builder.stage_configs@.last().config == (StageConfig::Custom { stage, tag: None::<T> }),
            builder.stage_configs@.last().output_batch_size == output_batch_size,
            builder.stage_configs@.last().vector_dim == stage.spec_vector_dim(),
            builder.context == self.context,
    {
        let vector_dim: usize = stage.vector_dim();
        let config = StageConfig::Custom { stage, tag: None::<T> };
        let config = StageSizeConfig { config, output_batch_size, vector_dim };
        let mut stage_configs = self.stage_configs;
        stage_configs.push(config);
        assert(stage_configs@.drop_last() =~= self.stage_configs@);
        VariableSizePipelineBuilder { stage_configs, context: self.context }
    }

    /// Set a custom ComputeContext
    pub fn with_context(self, context: Arc<ComputeContext>) -> (builder: Self)
        ensures
            builder.stage_configs == self.stage_configs,
            builder.context == Some(context),
    {
        VariableSizePipelineBuilder { stage_configs: self.stage_configs, context: Some(context) }
    }

    /// Build the variable-size pipeline, and say what it needs of the device.
    pub fn build(self) -> (result: Result<BuiltVariablePipeline<T>, PipelineError>)
        requires
            2 + 2 * self.stage_configs@.len() <= usize::MAX,
            sizes_accepted(self.stage_configs@) ==> size::vector_bytes(
                self.stage_configs@[0].vector_dim,
            ) <= usize::MAX,
            sizes_accepted(self.stage_configs@) ==> forall|i: int|
                0 <= i < self.stage_configs@.len() ==> size::batch_bytes(
                    (#[trigger] self.stage_configs@[i]).output_batch_size,
                    self.stage_configs@[0].vector_dim,
                ) <= usize::MAX,
        ensures
            result is Ok <==> sizes_accepted(self.stage_configs@),
            result matches Err(e) ==> sizes_refusal(self.stage_configs@, e),
            result matches Ok(built) ==> {
                &&& built.pipeline.wf()
                &&& built.pipeline.stages() == self.stage_configs@
                &&& built.pipeline@ == initial_state(self.stage_configs@)
                &&& built.context == self.context
                &&& built.buffer_sizes@ == built.pipeline@.buffer_sizes
                &&& built.resources@ == built.pipeline@.kinds.map_values(
                    |k: StageKind| builder::resources_of(k),
                )
            },
    {
        if self.stage_configs.len() == 0 {
            return Err(PipelineError::NoStages);
        }
        let ghost stages = self.stage_configs@;
        let num_stages: usize = self.stage_configs.len();
        let vector_dim: usize = self.stage_configs[0].vector_dim;
        let mut i: usize = 0;
        while i < self.stage_configs.len()
            invariant
                stages == self.stage_configs@,
                stages.len() > 0,
                i <= stages.len(),
                vector_dim == stages[0].vector_dim,
                forall|j: int| 0 <= j < i ==> (#[trigger] stages[j]).vector_dim == vector_dim,
            decreases stages.len() - i,
        {
            let config = &self.stage_configs[i];
            if config.vector_dim != vector_dim {
                assert(stages[i as int].vector_dim != stages[0].vector_dim);
                return Err(
                    PipelineError::VectorDimMismatch {
                        stage: String::from(config.name()),
                        found: config.vector_dim,
                        expected: vector_dim,
                    },
                );
            }
            i = i + 1;
        }
        assert(sizes_accepted(stages));
        let ghost initial = initial_state(stages);
        let mut buffer_sizes: Vec<u64> = Vec::new();
        let mut buffer_submission_metadata: Vec<Option<Submission>> = Vec::new();
        let mut bind_groups: Vec<bool> = Vec::new();
        let mut resources: Vec<StageResources> = Vec::new();
        let input_size: u64 = self.stage_configs[0].buffer_size();
        buffer_sizes.push(input_size);
        buffer_sizes.push(input_size);
        buffer_submission_metadata.push(None);
        buffer_submission_metadata.push(None);
        let mut k: usize = 0;
        while k < num_stages
            invariant
                stages == self.stage_configs@,
                initial == initial_state(stages),
                sizes_accepted(stages),
                size::vector_bytes(stages[0].vector_dim) <= usize::MAX,
                forall|i: int|
                    0 <= i < stages.len() ==> size::batch_bytes(
                        (#[trigger] stages[i]).output_batch_size,
                        stages[0].vector_dim,
                    ) <= usize::MAX,
                k <= num_stages == stages.len(),
                buffer_sizes@.len() == 2 + 2 * k,
                forall|b: int|
                    0 <= b < buffer_sizes@.len() ==> (#[trigger] buffer_sizes@[b])
                        == initial.buffer_sizes[b],
                buffer_submission_metadata@.len() == 2 + 2 * k,
                forall|b: int|
                    0 <= b < buffer_submission_metadata@.len()
                        ==> buffer_submission_metadata@[b] is None,
                bind_groups@.len() == k,
                forall|j: int| 0 <= j < k ==> bind_groups@[j] == false,
                resources@.len() == k,
                forall|j: int|
                    0 <= j < k ==> (#[trigger] resources@[j]) == builder::resources_of(
                        stages[j].config.kind(),
                    ),
            decreases num_stages - k,
        {
            let buffer_size: u64 = self.stage_configs[k].buffer_size();
            proof {
                let low = 2 + 2 * k;
                assert(variable_state::stage_of_pair(low as int / 2) == k);
                assert(variable_state::stage_of_pair((low + 1) as int / 2) == k);
                assert(initial.buffer_sizes[low as int] == buffer_size);
                assert(initial.buffer_sizes[low + 1] == buffer_size);
            }
            buffer_sizes.push(buffer_size);
            buffer_sizes.push(buffer_size);
            buffer_submission_metadata.push(None);
            buffer_submission_metadata.push(None);
            bind_groups.push(false);
            resources.push(stage_resources(&self.stage_configs[k].config));
            k = k + 1;
        }
        let default_n: usize = self.stage_configs[0].output_batch_size;
        let pipeline = VariableSizePipeline {
            tick_count: 0,
            stage_configs: self.stage_configs,
            buffer_sizes: buffer_sizes.clone(),
            bind_groups,
            current_output_index: 0,
            current_input_write_index: 0,
            side_inputs: SideInputs::new(),
            last_output_tag: None,
            buffer_submission_metadata,
            default_n,
        };
        proof {
            assert(pipeline@.buffer_sizes =~= initial.buffer_sizes);
            assert(pipeline@.metadata =~= initial.metadata);
            assert(pipeline@.bind_groups =~= initial.bind_groups);
            assert(pipeline@.tags =~= initial.tags);
            assert(pipeline@.kinds =~= initial.kinds);
            assert(pipeline@.output_batch_sizes =~= initial.output_batch_sizes);
            assert(resources@ =~= pipeline@.kinds.map_values(
                |k: StageKind| builder::resources_of(k),
            ));
            assert(pipeline@.wf());
        }
        Ok(BuiltVariablePipeline { pipeline, context: self.context, buffer_sizes, resources })
    }
}

impl<T> Default for VariableSizePipelineBuilder<T> {
    fn default() -> (builder: Self)
        ensures
            builder.stage_configs@ == Seq::<StageSizeConfig<T>>::empty(),
            builder.context is None,
    {
        VariableSizePipelineBuilder::new()
    }
}

} // verus!
