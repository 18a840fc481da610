//! Building pipelines.

use std::sync::Arc;

use vstd::prelude::*;

use crate::error::PipelineError;
use crate::pipeline::ping_pong::Pipeline;
use crate::pipeline::pipeline_stage;
use crate::pipeline::pipeline_stage::{PipelineStage, StageConfig, StageKind};
use crate::pipeline::size;
use crate::pipeline::size::batch_byte_size;
use crate::pipeline::stage::{Stage, IDENTITY_SHADER};
use crate::pipeline::state::PipelineState;
use crate::wgpu_utils::ComputeContext;

verus! {

/// Pipeline builder.
pub struct PipelineBuilder<T> {
    stages: Vec<StageConfig<T>>,
    context: Option<Arc<ComputeContext>>,
}

/// What a stage needs of the device.
#[derive(Clone, Copy, Debug, PartialEq, Eq, Structural)]
pub struct StageResources {
    /// A compute pipeline of the stage's shader.
    pub compute_pipeline: bool,
    /// A bind group layout of the stage's own entries, in place of the
    /// default one.
    pub custom_layout: bool,
}

/// A pipeline that was built, and what it needs of the device.
pub struct BuiltPipeline<T> {
    /// The pipeline.
    pub pipeline: Pipeline<T>,
    /// The context to use, where one was set.
    pub context: Option<Arc<ComputeContext>>,
    /// The sizes of the buffers to create.
    pub buffer_sizes: Vec<u64>,
    /// What each stage needs.
    pub resources: Vec<StageResources>,
}

/// What a stage of this kind needs of the device.
pub open spec fn resources_of(kind: StageKind) -> StageResources {
    match kind {
        StageKind::Standard { stage } => StageResources {
            compute_pipeline: true,
            custom_layout: stage.bind_group_entries is Some,
        },
        StageKind::Custom => StageResources { compute_pipeline: false, custom_layout: false },
    }
}

/// What a stage needs of the device.
pub fn stage_resources<T>(config: &StageConfig<T>) -> (resources: StageResources)
    ensures
        resources == resources_of(config.kind()),
{
    match config {
        StageConfig::Standard { stage, .. } => StageResources {
            compute_pipeline: true,
            custom_layout: stage.bind_group_entries.is_some(),
        },
        StageConfig::Custom { .. } => StageResources {
            compute_pipeline: false,
            custom_layout: false,
        },
    }
}

/// Whether stage `i` has dimensions that are not zero, and those of the first
/// stage.
pub open spec fn stage_accepted<T>(stages: Seq<StageConfig<T>>, i: int) -> bool {
    &&& size::dimension_error(stages[i].spec_vector_dim(), stages[i].spec_batch_size()) is None
    &&& stages[i].spec_vector_dim() == stages[0].spec_vector_dim()
    &&& stages[i].spec_batch_size() == stages[0].spec_batch_size()
}

/// Whether `error` is why stage `i` is refused.
pub open spec fn stage_refusal<T>(
    stages: Seq<StageConfig<T>>,
    i: int,
    error: PipelineError,
) -> bool {
    match size::dimension_error(stages[i].spec_vector_dim(), stages[i].spec_batch_size()) {
        Some(e) => error == e,
        None => if stages[i].spec_vector_dim() != stages[0].spec_vector_dim() {
            &&& error matches PipelineError::VectorDimMismatch { stage, found, expected }
            &&& stage@ == stages[i].spec_name()
            &&& found == stages[i].spec_vector_dim()
            &&& expected == stages[0].spec_vector_dim()
        } else {
            &&& stages[i].spec_batch_size() != stages[0].spec_batch_size()
            &&& error matches PipelineError::BatchSizeMismatch { stage, found, expected }
            &&& stage@ == stages[i].spec_name()
            &&& found == stages[i].spec_batch_size()
            &&& expected == stages[0].spec_batch_size()
        },
    }
}

/// Whether a pipeline can be built of these stages.
pub open spec fn stages_accepted<T>(stages: Seq<StageConfig<T>>) -> bool {
    &&& stages.len() > 0
    &&& forall|i: int| 0 <= i < stages.len() ==> #[trigger] stage_accepted(stages, i)
}

/// Whether `error` is why no pipeline can be built of these stages: there are
/// none, or it is why the first stage that is refused is refused.
pub open spec fn stages_refusal<T>(stages: Seq<StageConfig<T>>, error: PipelineError) -> bool {
    if stages.len() == 0 {
        error == PipelineError::NoStages
    } else {
        exists|i: int|
            0 <= i < stages.len() && !stage_accepted(stages, i) && #[trigger] stage_refusal(
                stages,
                i,
                error,
            ) && forall|j: int| 0 <= j < i ==> #[trigger] stage_accepted(stages, j)
    }
}

/// The context that a pipeline runs on: the one that was set, or else a fresh
/// one.
pub open spec fn chosen_context(
    set: Option<Arc<ComputeContext>>,
    fresh: Option<Arc<ComputeContext>>,
) -> Arc<ComputeContext> {
    match set {
        Some(context) => context,
        None => fresh->0,
    }
}

/// The context that a pipeline runs on.
pub fn choose_context(
    set: &Option<Arc<ComputeContext>>,
    fresh: Option<Arc<ComputeContext>>,
) -> (context: Arc<ComputeContext>)
    requires
        set is None ==> fresh is Some,
    ensures
        context == chosen_context(*set, fresh),
{
    match set {
        Some(context) => Arc::clone(context),
        None => match fresh {
            Some(context) => context,
            None => vstd::pervasive::unreached(),
        },
    }
}

impl<T> BuiltPipeline<T> {
    /// Whether a fresh context has to be created: only where none was set.
    pub fn needs_context(&self) -> (needed: bool)
        ensures
            needed == (self.context is None),
    {
        self.context.is_none()
    }

    /// Initializes the stages with the context that the pipeline runs on from
    /// then on: the one that was set, or else `fresh`. The pipeline is ready
    /// where no stage fails.
    pub fn initialize(&mut self, fresh: Option<Arc<ComputeContext>>) -> (result: Result<
        (),
        PipelineError,
    >)
        requires
            old(self).pipeline.wf(),
            old(self).context is None ==> fresh is Some,
        ensures
            final(self).pipeline.wf(),
            final(self).context == Some(chosen_context(old(self).context, fresh)),
            final(self).pipeline@ == old(self).pipeline@,
            pipeline_stage::initialized_in_turn(
                old(self).pipeline.stages(),
                final(self).pipeline.stages(),
                &*chosen_context(old(self).context, fresh),
                result,
            ),
            result matches Err(e) ==> e is Stage,
            final(self).buffer_sizes == old(self).buffer_sizes,
            final(self).resources == old(self).resources,
    {
        let context = choose_context(&self.context, fresh);
        let result = self.pipeline.initialize_stages(&context);
        self.context = Some(context);
        result
    }
}

impl<T> PipelineBuilder<T> {
    /// The stages so far.
    pub closed spec fn stages(&self) -> Seq<StageConfig<T>> {
        self.stages@
    }

    /// The context that was set.
    pub closed spec fn context(&self) -> Option<Arc<ComputeContext>> {
        self.context
    }

    /// A builder without stages.
    pub fn new() -> (builder: Self)
        ensures
            builder.stages() == Seq::<StageConfig<T>>::empty(),
            builder.context() is None,
    {
        PipelineBuilder { stages: Vec::new(), context: None }
    }

    /// Adds a standard stage.
    pub fn pipe(self, stage: Stage) -> (builder: Self)
        ensures
            builder.stages() == self.stages().push(StageConfig::Standard { stage, tag: None }),
            builder.context() == self.context(),
    {
        let ghost config = StageConfig::Standard { stage, tag: None };
        let builder = self.pipe_config(StageConfig::Standard { stage, tag: None });
        assert(builder.stages() =~= self.stages().push(config));
        builder
    }

    /// Adds a custom stage.
    pub fn pipe_custom(self, stage: Box<dyn PipelineStage>) -> (builder: Self)
        ensures
            builder.stages().len() == self.stages().len() + 1,
            builder.stages().drop_last() == self.stages(),
            builder.stages().last() == (StageConfig::Custom { stage, tag: None::<T> }),
            builder.context() == self.context(),
    {
        let config = StageConfig::Custom { stage, tag: None::<T> };
        self.pipe_config(config)
    }

    /// Adds a stage of either kind.
    pub fn pipe_config(self, config: StageConfig<T>) -> (builder: Self)
        ensures
            builder.stages().len() == self.stages().len() + 1,
            builder.stages().drop_last() == self.stages(),
            builder.stages().last() == config,
            builder.context() == self.context(),
    {
        let mut stages = self.stages;
        stages.push(config);
        assert(stages@.drop_last() =~= self.stages());
        PipelineBuilder { stages, context: self.context }
    }

    /// Adds a stage that passes data through unchanged.
    pub fn identity<N: Into<String>>(self, name: N, vector_dim: usize, batch_size: usize) -> (builder:
        Self)
        ensures
            builder.context() == self.context(),
            builder.stages().len() == self.stages().len() + 1,
            builder.stages().drop_last() == self.stages(),
            builder.stages().last() matches StageConfig::Standard { stage, tag } && {
                &&& call_ensures(N::into, (name,), stage.name)
                &&& stage.wgsl@ == IDENTITY_SHADER@
                &&& stage.vector_dim == vector_dim
                &&& stage.batch_size == batch_size
                &&& stage.bind_group_entries is None
                &&& tag is None
            },
    {
        let builder = self.pipe(Stage::identity(name, vector_dim, batch_size));
        assert(builder.stages().drop_last() =~= self.stages());
        builder
    }

    /// Set a custom ComputeContext for the pipeline.
    ///
    /// This allows sharing a ComputeContext between the pipeline and external
    /// resources (like side input buffers).
    ///
    /// If not set, a new ComputeContext has to be created for the pipeline.
    pub fn with_context(self, context: Arc<ComputeContext>) -> (builder: Self)
        ensures
            builder.stages() == self.stages(),
            builder.context() == Some(context),
    {
        PipelineBuilder { stages: self.stages, context: Some(context) }
    }

    /// The stages so far.
    pub fn stage_configs(&self) -> (stages: &Vec<StageConfig<T>>)
        ensures
            stages@ == self.stages(),
    {
        &self.stages
    }

    /// Builds the pipeline, and says what it needs of the device.
    pub fn build(self) -> (result: Result<BuiltPipeline<T>, PipelineError>)
        requires
            2 + 2 * self.stages().len() <= usize::MAX,
            stages_accepted(self.stages()) ==> size::vector_bytes(
                self.stages()[0].spec_vector_dim(),
            ) <= usize::MAX,
            stages_accepted(self.stages()) ==> size::batch_bytes(
                self.stages()[0].spec_batch_size(),
                self.stages()[0].spec_vector_dim(),
            ) <= usize::MAX,
        ensures
            result is Ok <==> stages_accepted(self.stages()),
            result matches Err(e) ==> stages_refusal(self.stages(), e),
            result matches Ok(built) ==> {
                &&& built.pipeline.wf()
                &&& built.pipeline.stages() == self.stages()
                &&& built.pipeline@ == PipelineState::initial(
                    self.stages(),
                    self.stages()[0].spec_vector_dim(),
                    self.stages()[0].spec_batch_size(),
                )
                &&& built.context == self.context()
                &&& built.buffer_sizes@ == Seq::new(
                    2 + 2 * self.stages().len(),
                    |b: int| built.pipeline@.buffer_bytes() as u64,
                )
                &&& built.resources@ == built.pipeline@.kinds.map_values(
                    |k: StageKind| resources_of(k),
                )
            },
    {
        if self.stages.len() == 0 {
            return Err(PipelineError::NoStages);
        }
        let ghost stages = self.stages();
        let vector_dim: usize = self.stages[0].vector_dim();
        let batch_size: usize = self.stages[0].batch_size();
        let mut i: usize = 0;
        while i < self.stages.len()
            invariant
                stages == self.stages@,
                stages.len() > 0,
                i <= stages.len(),
                vector_dim == stages[0].spec_vector_dim(),
                batch_size == stages[0].spec_batch_size(),
                forall|j: int| 0 <= j < i ==> #[trigger] stage_accepted(stages, j),
            decreases stages.len() - i,
        {
            let stage = &self.stages[i];
            if let Err(e) = stage.validate() {
                assert(!stage_accepted(stages, i as int));
                assert(stage_refusal(stages, i as int, e));
                return Err(e);
            }
            if stage.vector_dim() != vector_dim {
                let e = PipelineError::VectorDimMismatch {
                    stage: String::from(stage.name()),
                    found: stage.vector_dim(),
                    expected: vector_dim,
                };
                assert(!stage_accepted(stages, i as int));
                assert(stage_refusal(stages, i as int, e));
                return Err(e);
            }
            if stage.batch_size() != batch_size {
                let e = PipelineError::BatchSizeMismatch {
                    stage: String::from(stage.name()),
                    found: stage.batch_size(),
                    expected: batch_size,
                };
                assert(!stage_accepted(stages, i as int));
                assert(stage_refusal(stages, i as int, e));
                return Err(e);
            }
            i = i + 1;
        }
        assert(stage_accepted(stages, 0));
        let buffer_size: u64 = batch_byte_size(batch_size, vector_dim);
        let mut buffer_sizes: Vec<u64> = Vec::new();
        buffer_sizes.push(buffer_size);
        buffer_sizes.push(buffer_size);
        let mut resources: Vec<StageResources> = Vec::new();
        let mut k: usize = 0;
        while k < self.stages.len()
            invariant
                stages == self.stages@,
                k <= stages.len(),
                buffer_sizes@ =~= Seq::new(2 + 2 * k as nat, |b: int| buffer_size),
                resources@.len() == k,
                forall|j: int|
                    0 <= j < k ==> (#[trigger] resources@[j]) == resources_of(stages[j].kind()),
            decreases stages.len() - k,
        {
            buffer_sizes.push(buffer_size);
            buffer_sizes.push(buffer_size);
            resources.push(stage_resources(&self.stages[k]));
            k = k + 1;
        }
        let pipeline = Pipeline::assemble(self.stages, vector_dim, batch_size);
        assert(resources@ =~= pipeline@.kinds.map_values(|k: StageKind| resources_of(k)));
        Ok(BuiltPipeline { pipeline, context: self.context, buffer_sizes, resources })
    }
}

impl<T> Default for PipelineBuilder<T> {
    fn default() -> (builder: Self)
        ensures
            builder.stages() == Seq::<StageConfig<T>>::empty(),
            builder.context() is None,
    {
        PipelineBuilder::new()
    }
}

impl<T> Pipeline<T> {
    /// A builder of pipelines.
    pub fn new() -> (builder: PipelineBuilder<T>)
        ensures
            builder.stages() == Seq::<StageConfig<T>>::empty(),
            builder.context() is None,
    {
        PipelineBuilder::new()
    }
}

} // verus!
