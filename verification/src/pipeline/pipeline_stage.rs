//! Custom stages, and the two kinds of stage behind one type.

use std::sync::Arc;

use vstd::prelude::*;

use crate::error::PipelineError;
use crate::pipeline::size;
use crate::pipeline::size::{batch_byte_size, check_dimensions, F32_SIZE};
use crate::pipeline::stage::Stage;
use crate::side_inputs::SideInputs;
use crate::wgpu_utils::ComputeContext;

verus! {

/// Something that a pipeline told a custom stage.
#[derive(Clone, Copy, Debug, PartialEq, Eq, Structural)]
pub enum Notice {
    /// Create the GPU resources of the stage.
    Initialize,
    /// The data of the next encoding consists of this many vectors.
    TotalElements { elements: usize },
    /// The transform size is now `n`.
    N { n: usize },
    /// The buffers now hold this many vectors of this dimension.
    Resize { batch_size: usize, vector_dim: usize },
}

/// A pipeline stage that encodes its own compute operations.
///
/// Operations that take several compute passes, such as a Fourier transform,
/// cannot be expressed as a single shader; a custom stage encodes them itself.
///
/// `spec_name`, `spec_vector_dim` and `spec_batch_size` stand for what the
/// methods of these names answer for a given stage. `notices` is the list of
/// what the stage was told so far, each with whether the stage took it without
/// an error; a stage that does not keep it is left as it was by what it is told.
/// Nothing else is known of an implementation. These four are for
/// specifications only: an implementation that is not verified does not mention
/// them.
pub trait PipelineStage {
    /// What `name` answers.
    open spec fn spec_name(&self) -> Seq<char> {
        arbitrary()
    }

    /// What `vector_dim` answers.
    open spec fn spec_vector_dim(&self) -> usize {
        arbitrary()
    }

    /// What `batch_size` answers.
    open spec fn spec_batch_size(&self) -> usize {
        arbitrary()
    }

    /// What the stage was told so far, and whether it took it.
    open spec fn notices(&self) -> Seq<(Notice, bool)> {
        arbitrary()
    }

    /// Returns the name of this stage for debugging and identification.
    fn name(&self) -> (name: &str)
        ensures
            name@ == self.spec_name(),
    ;

    /// Returns the vector dimension (2 for complex numbers, etc.).
    fn vector_dim(&self) -> (dim: usize)
        ensures
            dim == self.spec_vector_dim(),
    ;

    /// Returns the batch size (number of elements/vectors).
    fn batch_size(&self) -> (size: usize)
        ensures
            size == self.spec_batch_size(),
    ;

    /// Returns the names of any side input buffers this stage requires.
    ///
    /// Side inputs are buffers that are not part of the pipeline's data flow
    /// but are needed by this stage (e.g., a constant buffer for
    /// multiplication). The pipeline provides these buffers when encoding.
    /// A stage that does not say otherwise requires none.
    fn side_input_names(&self) -> (names: Vec<&str>)
        default_ensures
            names@ == Seq::<&str>::empty(),
    {
        Vec::new()
    }

    /// Encodes the compute operations for this stage into the given encoder.
    ///
    /// It receives the input and output buffers and should encode all
    /// necessary compute passes into the encoder.
    fn encode(
        &self,
        encoder: &mut wgpu::CommandEncoder,
        input: &wgpu::Buffer,
        output: &wgpu::Buffer,
        side_inputs: &SideInputs<Arc<wgpu::Buffer>>,
    ) -> anyhow::Result<()>;

    /// Initializes the stage with the pipeline's compute context.
    ///
    /// This is called when the pipeline is built. Stages that need GPU
    /// resources create them here.
    fn initialize(&mut self, context: &ComputeContext) -> (result: anyhow::Result<()>)
        ensures
            (&*final(self)) == (&*old(self)) || final(self).notices() == old(self).notices().push(
                (Notice::Initialize, result is Ok),
            ),
    ;

    /// Returns true if this stage requires initialization.
    ///
    /// Stages that don't need any GPU context can return false; one that does
    /// not say otherwise requires it.
    fn requires_initialization(&self) -> (required: bool)
        default_ensures
            required,
    {
        true
    }

    /// Tells the stage of how many vectors the data of the next encoding
    /// consists. A stage that does not say otherwise ignores it.
    fn update_actual_total_elements(&mut self, elements: usize) -> (result: anyhow::Result<()>)
        ensures
            (&*final(self)) == (&*old(self)) || final(self).notices() == old(self).notices().push(
                (Notice::TotalElements { elements }, result is Ok),
            ),
        default_ensures
            result is Ok,
            (&*final(self)) == (&*old(self)),
    {
        Ok(())
    }

    /// Tells the stage the transform size. A stage that does not say otherwise
    /// ignores it.
    fn update_n(&mut self, n: usize) -> (result: anyhow::Result<()>)
        ensures
            (&*final(self)) == (&*old(self)) || final(self).notices() == old(self).notices().push(
                (Notice::N { n }, result is Ok),
            ),
        default_ensures
            result is Ok,
            (&*final(self)) == (&*old(self)),
    {
        Ok(())
    }

    /// Returns true if the stage wants to be told of new buffer sizes. One that
    /// does not say otherwise does not.
    fn supports_dynamic_resizing(&self) -> (supported: bool)
        default_ensures
            !supported,
    {
        false
    }

    /// Tells the stage the new size of the buffers. A stage that does not say
    /// otherwise ignores it.
    fn resize(&mut self, batch_size: usize, vector_dim: usize) -> (result: anyhow::Result<()>)
        ensures
            (&*final(self)) == (&*old(self)) || final(self).notices() == old(self).notices().push(
                (Notice::Resize { batch_size, vector_dim }, result is Ok),
            ),
        default_ensures
            result is Ok,
            (&*final(self)) == (&*old(self)),
    {
        Ok(())
    }
}

/// Whether `required` is what the stage answers when it is asked whether it
/// requires initialization.
pub open spec fn initialization_answer<S: PipelineStage + ?Sized>(stage: &S, required: bool) -> bool {
    call_ensures(S::requires_initialization, (stage,), required)
}

/// Whether `supported` is what the stage answers when it is asked whether it
/// wants to be told of new buffer sizes.
pub open spec fn resizing_answer<S: PipelineStage + ?Sized>(stage: &S, supported: bool) -> bool {
    call_ensures(S::supports_dynamic_resizing, (stage,), supported)
}

/// Whether `answer` is what the stage returns when it is initialized with
/// `context`.
pub open spec fn initialized<S: PipelineStage + ?Sized>(
    stage: &S,
    context: &ComputeContext,
    answer: anyhow::Result<()>,
) -> bool {
    exists|r: &mut S| (&*r) == stage && #[trigger] call_ensures(S::initialize, (r, context), answer)
}

/// Whether `answer` is what the stage returns when it is told `notice`: with
/// some context, where it is told to initialize.
pub open spec fn answers<S: PipelineStage + ?Sized>(
    stage: &S,
    notice: Notice,
    answer: anyhow::Result<()>,
) -> bool {
    match notice {
        Notice::Initialize => exists|context: &ComputeContext|
            #[trigger] initialized(stage, context, answer),
        Notice::TotalElements { elements } => exists|r: &mut S|
            (&*r) == stage && #[trigger] call_ensures(
                S::update_actual_total_elements,
                (r, elements),
                answer,
            ),
        Notice::N { n } => exists|r: &mut S|
            (&*r) == stage && #[trigger] call_ensures(S::update_n, (r, n), answer),
        Notice::Resize { batch_size, vector_dim } => exists|r: &mut S|
            (&*r) == stage && #[trigger] call_ensures(
                S::resize,
                (r, batch_size, vector_dim),
                answer,
            ),
    }
}

/// What a stage returned, where `result` is what is reported of it.
pub open spec fn answer_of(result: Result<(), PipelineError>) -> anyhow::Result<()> {
    match result {
        Ok(done) => Ok(done),
        Err(PipelineError::Stage(e)) => Err(e),
        Err(_) => arbitrary(),
    }
}

/// Reports what a stage returned: its error is a stage error.
fn reported(answer: anyhow::Result<()>) -> (result: Result<(), PipelineError>)
    ensures
        result matches Err(e) ==> e is Stage,
        answer == answer_of(result),
        (answer is Ok) == (result is Ok),
{
    match answer {
        Ok(done) => Ok(done),
        Err(e) => Err(PipelineError::Stage(e)),
    }
}

/// Initializes a custom stage.
fn initialize_stage<S: PipelineStage + ?Sized>(stage: &mut S, context: &ComputeContext) -> (answer:
    anyhow::Result<()>)
    ensures
        initialized(&*old(stage), context, answer),
        answers(&*old(stage), Notice::Initialize, answer),
        (&*final(stage)) == (&*old(stage)) || final(stage).notices() == old(stage).notices().push(
            (Notice::Initialize, answer is Ok),
        ),
{
    let answer = stage.initialize(context);
    assert(initialized(&*old(stage), context, answer));
    answer
}

/// Tells a custom stage something other than to initialize.
fn tell_stage<S: PipelineStage + ?Sized>(stage: &mut S, notice: Notice) -> (answer: anyhow::Result<
    (),
>)
    requires
        notice != Notice::Initialize,
    ensures
        answers(&*old(stage), notice, answer),
        (&*final(stage)) == (&*old(stage)) || final(stage).notices() == old(stage).notices().push(
            (notice, answer is Ok),
        ),
{
    match notice {
        Notice::Initialize => vstd::pervasive::unreached(),
        Notice::TotalElements { elements } => stage.update_actual_total_elements(elements),
        Notice::N { n } => stage.update_n(n),
        Notice::Resize { batch_size, vector_dim } => stage.resize(batch_size, vector_dim),
    }
}

/// Either a standard stage or a custom one, with the tag of the data that is
/// in it.
///
/// `C` is how custom stages are held, always a box; it is a parameter so that
/// the box goes in as it is.
#[allow(inconsistent_fields)]
pub enum StageConfig<T, C = Box<dyn PipelineStage>> {
    /// A standard stage with a single WGSL shader and optional tag
    Standard { stage: Stage, tag: Option<T> },
    /// A custom stage implementing PipelineStage trait with optional tag
    Custom { stage: C, tag: Option<T> },
}

/// The kind of a stage.
pub enum StageKind {
    /// A standard stage.
    Standard { stage: Stage },
    /// A custom stage.
    Custom,
}

impl<T> StageConfig<T> {
    /// The name of the stage.
    pub open spec fn spec_name(&self) -> Seq<char> {
        match self {
            StageConfig::Standard { stage, .. } => stage.name@,
            StageConfig::Custom { stage, .. } => stage.spec_name(),
        }
    }

    /// The vector dimension of the stage.
    pub open spec fn spec_vector_dim(&self) -> usize {
        match self {
            StageConfig::Standard { stage, .. } => stage.vector_dim,
            StageConfig::Custom { stage, .. } => stage.spec_vector_dim(),
        }
    }

    /// The batch size of the stage.
    pub open spec fn spec_batch_size(&self) -> usize {
        match self {
            StageConfig::Standard { stage, .. } => stage.batch_size,
            StageConfig::Custom { stage, .. } => stage.spec_batch_size(),
        }
    }

    /// The tag of the data in the stage.
    pub open spec fn spec_tag(&self) -> Option<T> {
        match self {
            StageConfig::Standard { tag, .. } => *tag,
            StageConfig::Custom { tag, .. } => *tag,
        }
    }

    /// The kind of the stage.
    pub open spec fn kind(&self) -> StageKind {
        match self {
            StageConfig::Standard { stage, .. } => StageKind::Standard { stage: *stage },
            StageConfig::Custom { .. } => StageKind::Custom,
        }
    }

    /// Whether the stage is a custom one.
    pub open spec fn spec_is_custom(&self) -> bool {
        self.kind() is Custom
    }

    /// Whether `supported` says if the stage wants to be told of new buffer
    /// sizes: a custom stage answers that itself, and a standard one never does.
    pub open spec fn asks_resizing(&self, supported: bool) -> bool {
        match self {
            StageConfig::Standard { .. } => !supported,
            StageConfig::Custom { stage, .. } => resizing_answer(&**stage, supported),
        }
    }

    /// Whether `required` says if the stage is to be initialized: a custom
    /// stage answers that itself, and a standard one never is.
    pub open spec fn asks_initialization(&self, required: bool) -> bool {
        match self {
            StageConfig::Standard { .. } => !required,
            StageConfig::Custom { stage, .. } => initialization_answer(&**stage, required),
        }
    }

    /// This stage with another tag.
    pub open spec fn with_tag(self, tag: Option<T>) -> Self {
        match self {
            StageConfig::Standard { stage, .. } => StageConfig::Standard { stage, tag },
            StageConfig::Custom { stage, .. } => {
                let config = StageConfig::Custom { stage, tag };
                config
            },
        }
    }

    /// Whether this is the stage `before` after it was told something once, and
    /// `result` is what came of it. A standard stage is the same as before. A
    /// custom stage keeps its tag, and what it returned is the result.
    pub open spec fn told(
        &self,
        before: &Self,
        notice: Notice,
        result: Result<(), PipelineError>,
    ) -> bool {
        match before {
            StageConfig::Standard { .. } => *self == *before && result is Ok,
            StageConfig::Custom { stage, tag } => {
                &&& self matches StageConfig::Custom { stage: after, tag: same_tag }
                &&& *same_tag == *tag
                &&& result matches Err(e) ==> e is Stage
                &&& answers(&**stage, notice, answer_of(result))
                &&& *after == *stage || after.notices() == stage.notices().push(
                    (notice, result is Ok),
                )
            },
        }
    }

    /// Whether this is the stage `before` after it was told something once,
    /// whatever came of it.
    pub open spec fn heard(&self, before: &Self, notice: Notice) -> bool {
        exists|result: Result<(), PipelineError>| #[trigger] self.told(before, notice, result)
    }

    /// Whether this is the stage `before` after it was told the sizes of the
    /// buffers, if it wants to know, whatever came of it.
    pub open spec fn told_size(
        &self,
        before: &Self,
        batch_size: usize,
        vector_dim: usize,
    ) -> bool {
        exists|supported: bool|
            #[trigger] before.asks_resizing(supported) && if supported {
                self.heard(before, Notice::Resize { batch_size, vector_dim })
            } else {
                *self == *before
            }
    }

    /// Whether this is the stage `before` after it was told what its data is:
    /// how many vectors, and if it took that, the transform size.
    pub open spec fn briefed(
        &self,
        before: &Self,
        elements: usize,
        n: usize,
        result: Result<(), PipelineError>,
    ) -> bool {
        ||| result is Err && self.told(before, Notice::TotalElements { elements }, result)
        ||| exists|between: Self|
            #[trigger] between.told(before, Notice::TotalElements { elements }, Ok(()))
                && self.told(&between, Notice::N { n }, result)
    }

    /// Whether the stage, a custom one, returns `result` when it is initialized
    /// with `context`.
    pub open spec fn initialized(
        &self,
        context: &ComputeContext,
        result: Result<(), PipelineError>,
    ) -> bool {
        self matches StageConfig::Custom { stage, .. } && initialized(
            &**stage,
            context,
            answer_of(result),
        )
    }

    /// Whether this is a copy of `other`, a standard stage: the same stage,
    /// with a copy of its tag.
    pub open spec fn copy_of(&self, other: &Self) -> bool where T: Clone {
        &&& !self.spec_is_custom() && !other.spec_is_custom()
        &&& self.spec_name() == other.spec_name()
        &&& self.spec_vector_dim() == other.spec_vector_dim()
        &&& self.spec_batch_size() == other.spec_batch_size()
        &&& self->Standard_stage.wgsl == other->Standard_stage.wgsl
        &&& self->Standard_stage.bind_group_entries is Some
            <==> other->Standard_stage.bind_group_entries is Some
        &&& other->Standard_stage.bind_group_entries is Some
            ==> self->Standard_stage.bind_group_entries->0@
            == other->Standard_stage.bind_group_entries->0@
        &&& self.spec_tag() is Some <==> other.spec_tag() is Some
        &&& other.spec_tag() is Some ==> cloned::<T>(other.spec_tag()->0, self.spec_tag()->0)
    }

    /// What a stage is told changes neither its kind nor its tag.
    pub proof fn lemma_told(&self, before: &Self, notice: Notice, result: Result<(), PipelineError>)
        requires
            self.told(before, notice, result),
        ensures
            self.kind() == before.kind(),
            self.spec_tag() == before.spec_tag(),
            result matches Err(e) ==> e is Stage && before.spec_is_custom(),
    {
    }

    /// What a stage is told of its data changes neither its kind nor its tag.
    pub proof fn lemma_briefed(
        &self,
        before: &Self,
        elements: usize,
        n: usize,
        result: Result<(), PipelineError>,
    )
        requires
            self.briefed(before, elements, n, result),
        ensures
            self.kind() == before.kind(),
            self.spec_tag() == before.spec_tag(),
            result matches Err(e) ==> e is Stage && before.spec_is_custom(),
            !before.spec_is_custom() ==> *self == *before,
    {
    }

    /// The name of the stage.
    pub fn name(&self) -> (name: &str)
        ensures
            name@ == self.spec_name(),
    {
        match self {
            StageConfig::Standard { stage, .. } => stage.name.as_str(),
            StageConfig::Custom { stage, .. } => stage.name(),
        }
    }

    /// Puts `new_tag` in the stage and returns the tag that was there.
    pub fn forward_tag(&mut self, new_tag: Option<T>) -> (old_tag: Option<T>)
        ensures
            old_tag == old(self).spec_tag(),
            *final(self) == old(self).with_tag(new_tag),
    {
        let mut moving: Option<T> = new_tag;
        match self {
            StageConfig::Standard { tag, .. } => {
                std::mem::swap(tag, &mut moving);
            },
            StageConfig::Custom { tag, .. } => {
                std::mem::swap(tag, &mut moving);
            },
        }
        moving
    }

    /// The vector dimension of the stage.
    pub fn vector_dim(&self) -> (dim: usize)
        ensures
            dim == self.spec_vector_dim(),
    {
        match self {
            StageConfig::Standard { stage, .. } => stage.vector_dim,
            StageConfig::Custom { stage, .. } => stage.vector_dim(),
        }
    }

    /// The batch size of the stage.
    pub fn batch_size(&self) -> (size: usize)
        ensures
            size == self.spec_batch_size(),
    {
        match self {
            StageConfig::Standard { stage, .. } => stage.batch_size,
            StageConfig::Custom { stage, .. } => stage.batch_size(),
        }
    }

    /// Element size in bytes.
    pub fn element_size(&self) -> (bytes: usize)
        requires
            size::vector_bytes(self.spec_vector_dim()) <= usize::MAX,
        ensures
            bytes == size::vector_bytes(self.spec_vector_dim()),
    {
        self.vector_dim() * F32_SIZE
    }

    /// Buffer size in bytes.
    pub fn buffer_size(&self) -> (bytes: u64)
        requires
            size::vector_bytes(self.spec_vector_dim()) <= usize::MAX,
            size::batch_bytes(self.spec_batch_size(), self.spec_vector_dim())
                <= u64::MAX,
        ensures
            bytes == size::batch_bytes(
                self.spec_batch_size(),
                self.spec_vector_dim(),
            ),
    {
        batch_byte_size(self.batch_size(), self.vector_dim())
    }

    /// Validates the stage configuration.
    pub fn validate(&self) -> (result: Result<(), PipelineError>)
        ensures
            match size::dimension_error(
                self.spec_vector_dim(),
                self.spec_batch_size(),
            ) {
                Some(e) => result == Err::<(), PipelineError>(e),
                None => result is Ok,
            },
    {
        match self {
            StageConfig::Standard { stage, .. } => stage.validate(),
            StageConfig::Custom { stage, .. } => check_dimensions(
                stage.vector_dim(),
                stage.batch_size(),
            ),
        }
    }

    /// Whether the stage is a custom one.
    pub fn is_custom(&self) -> (custom: bool)
        ensures
            custom == self.spec_is_custom(),
    {
        match self {
            StageConfig::Standard { .. } => false,
            StageConfig::Custom { .. } => true,
        }
    }

    /// The custom stage, if this is one.
    pub fn as_custom(&self) -> (custom: Option<&Box<dyn PipelineStage>>)
        ensures
            match self {
                StageConfig::Standard { .. } => custom is None,
                StageConfig::Custom { stage, .. } => custom == Some(stage),
            },
    {
        match self {
            StageConfig::Standard { .. } => None,
            StageConfig::Custom { stage, .. } => Some(stage),
        }
    }

    /// The custom stage, if this is one, for changes. Whatever is done to it,
    /// the tag stays.
    pub fn as_custom_mut(&mut self) -> (custom: Option<&mut Box<dyn PipelineStage>>)
        ensures
            match *old(self) {
                StageConfig::Standard { .. } => custom is None && *final(self) == *old(self),
                StageConfig::Custom { stage, tag } => {
                    &&& custom matches Some(c)
                    &&& *c == stage
                    &&& *final(self) == StageConfig::Custom { stage: *final(c), tag }
                },
            },
    {
        match self {
            StageConfig::Standard { .. } => None,
            StageConfig::Custom { stage, .. } => Some(stage),
        }
    }

    /// Returns a reference to the tag stored in this stage config
    pub fn tag(&self) -> (tag: &Option<T>)
        ensures
            *tag == self.spec_tag(),
    {
        match self {
            StageConfig::Standard { tag, .. } => tag,
            StageConfig::Custom { tag, .. } => tag,
        }
    }

    /// Whether there is no tagged data in the stage.
    pub fn is_empty(&self) -> (empty: bool)
        ensures
            empty == (self.spec_tag() is None),
    {
        self.tag().is_none()
    }

    /// Initializes a custom stage where its initialization is `required`.
    pub fn initialize_if(&mut self, required: bool, context: &ComputeContext) -> (result: Result<
        (),
        PipelineError,
    >)
        ensures
            required ==> final(self).told(old(self), Notice::Initialize, result),
            required && old(self).spec_is_custom() ==> old(self).initialized(context, result),
            !required ==> *final(self) == *old(self) && result is Ok,
    {
        if !required {
            return Ok(());
        }
        match self {
            StageConfig::Standard { .. } => Ok(()),
            StageConfig::Custom { stage, .. } => reported(initialize_stage(&mut **stage, context)),
        }
    }

    /// Initializes a custom stage that says that it requires initialization;
    /// the answer of the stage decides between the two outcomes.
    pub fn initialize(&mut self, context: &ComputeContext) -> (result: Result<(), PipelineError>)
        ensures
            exists|required: bool|
                #[trigger] old(self).asks_initialization(required) && if required {
                    &&& final(self).told(old(self), Notice::Initialize, result)
                    &&& old(self).initialized(context, result)
                } else {
                    *final(self) == *old(self) && result is Ok
                },
    {
        let required = match self {
            StageConfig::Standard { .. } => false,
            StageConfig::Custom { stage, .. } => stage.requires_initialization(),
        };
        assert(old(self).asks_initialization(required));
        self.initialize_if(required, context)
    }

    /// Tells a custom stage something other than to initialize.
    fn tell(&mut self, notice: Notice) -> (result: Result<(), PipelineError>)
        requires
            notice != Notice::Initialize,
        ensures
            final(self).told(old(self), notice, result),
    {
        match self {
            StageConfig::Standard { .. } => Ok(()),
            StageConfig::Custom { stage, .. } => reported(tell_stage(&mut **stage, notice)),
        }
    }

    /// Tells a custom stage of how many vectors its data consists.
    pub fn update_actual_total_elements(&mut self, elements: usize) -> (result: Result<
        (),
        PipelineError,
    >)
        ensures
            final(self).told(old(self), Notice::TotalElements { elements }, result),
    {
        self.tell(Notice::TotalElements { elements })
    }

    /// Tells a custom stage the transform size.
    pub fn update_n(&mut self, n: usize) -> (result: Result<(), PipelineError>)
        ensures
            final(self).told(old(self), Notice::N { n }, result),
    {
        self.tell(Notice::N { n })
    }

    /// Tells a custom stage what its data is: of how many vectors it consists,
    /// and if the stage takes that, the transform size.
    pub fn brief(&mut self, elements: usize, n: usize) -> (result: Result<(), PipelineError>)
        ensures
            final(self).briefed(old(self), elements, n, result),
    {
        let counted = self.update_actual_total_elements(elements);
        if let Err(e) = counted {
            return Err(e);
        }
        assert(counted == Ok::<(), PipelineError>(()));
        assert(self.told(old(self), Notice::TotalElements { elements }, Ok(())));
        self.update_n(n)
    }

    /// Whether the stage wants to be told of new buffer sizes.
    pub fn supports_dynamic_resizing(&self) -> (supported: bool)
        ensures
            self.asks_resizing(supported),
    {
        match self {
            StageConfig::Standard { .. } => false,
            StageConfig::Custom { stage, .. } => stage.supports_dynamic_resizing(),
        }
    }

    /// Tells a custom stage the new size of the buffers.
    pub fn resize(&mut self, batch_size: usize, vector_dim: usize) -> (result: Result<
        (),
        PipelineError,
    >)
        ensures
            final(self).told(old(self), Notice::Resize { batch_size, vector_dim }, result),
    {
        self.tell(Notice::Resize { batch_size, vector_dim })
    }

    /// Tells a custom stage that wants to know the new size of the buffers,
    /// whether or not it takes it.
    pub fn tell_size(&mut self, batch_size: usize, vector_dim: usize)
        ensures
            final(self).told_size(old(self), batch_size, vector_dim),
            final(self).kind() == old(self).kind(),
            final(self).spec_tag() == old(self).spec_tag(),
    {
        let supported = self.supports_dynamic_resizing();
        assert(old(self).asks_resizing(supported));
        if supported {
            let result = self.resize(batch_size, vector_dim);
            assert(self.told(old(self), Notice::Resize { batch_size, vector_dim }, result));
        }
    }

    /// A copy of a standard stage, with a copy of its tag. Custom stages
    /// cannot be copied: create a new one instead.
    pub fn clone(&self) -> (copy: Self) where T: Clone
        requires
            !self.spec_is_custom(),
        ensures
            copy.copy_of(self),
    {
        match self {
            StageConfig::Standard { stage, tag } => {
                let tag_copy = match tag {
                    Some(t) => Some(t.clone()),
                    None => None,
                };
                StageConfig::Standard { stage: stage.clone(), tag: tag_copy }
            },
            StageConfig::Custom { .. } => vstd::pervasive::unreached(),
        }
    }
}

/// Whether `after` are the stages `before` after those in `flags` were told
/// `notice` in turn up to stage `k`, which is the last one: all before it took
/// it, and `result` is what came of it at stage `k`. Where `k` is past the last
/// stage, all took it.
pub open spec fn told_until<T>(
    before: Seq<StageConfig<T>>,
    after: Seq<StageConfig<T>>,
    flags: Seq<bool>,
    k: int,
    notice: Notice,
    result: Result<(), PipelineError>,
) -> bool {
    &&& after.len() == before.len()
    &&& forall|j: int|
        0 <= j < before.len() ==> if j > k || !flags[j] {
            (#[trigger] after[j]) == before[j]
        } else if j < k {
            after[j].told(&before[j], notice, Ok(()))
        } else {
            after[j].told(&before[j], notice, result)
        }
    &&& if result is Ok {
        k == before.len()
    } else {
        0 <= k < before.len() && flags[k]
    }
}

/// Whether `after` are the stages `before` after those in `flags` were told
/// `notice` in turn until one did not take it; `result` is what came of it.
pub open spec fn told_in_turn<T>(
    before: Seq<StageConfig<T>>,
    after: Seq<StageConfig<T>>,
    flags: Seq<bool>,
    notice: Notice,
    result: Result<(), PipelineError>,
) -> bool {
    exists|k: int| #[trigger] told_until(before, after, flags, k, notice, result)
}

/// Whether `after` are the stages `before` after those that want to know were
/// told the sizes of the buffers, whether or not they took it.
pub open spec fn told_sizes<T>(
    before: Seq<StageConfig<T>>,
    after: Seq<StageConfig<T>>,
    batch_size: usize,
    vector_dim: usize,
) -> bool {
    &&& after.len() == before.len()
    &&& forall|j: int|
        0 <= j < before.len() ==> (#[trigger] after[j]).told_size(
            &before[j],
            batch_size,
            vector_dim,
        )
}

/// Whether `after` are the stages `before` after those that want to know were
/// told the sizes of the buffers in turn, until one did not take it; `result`
/// is what came of it.
pub open spec fn told_sizes_in_turn<T>(
    before: Seq<StageConfig<T>>,
    after: Seq<StageConfig<T>>,
    batch_size: usize,
    vector_dim: usize,
    result: Result<(), PipelineError>,
) -> bool {
    exists|flags: Seq<bool>, k: int|
        {
            &&& #[trigger] told_until(
                before,
                after,
                flags,
                k,
                Notice::Resize { batch_size, vector_dim },
                result,
            )
            &&& forall|j: int|
                0 <= j < before.len() && j <= k ==> before[j].asks_resizing(#[trigger] flags[j])
        }
}

/// Which of these stages are custom ones.
pub open spec fn custom<T>(stages: Seq<StageConfig<T>>) -> Seq<bool> {
    stages.map_values(|c: StageConfig<T>| c.spec_is_custom())
}

/// Whether `after` are the stages `before` after the custom ones were
/// initialized with `context` in turn, until one failed. Those that say that
/// they require it are, and no others; `result` is what came of it.
pub open spec fn initialized_in_turn<T>(
    before: Seq<StageConfig<T>>,
    after: Seq<StageConfig<T>>,
    context: &ComputeContext,
    result: Result<(), PipelineError>,
) -> bool {
    exists|required: Seq<bool>, k: int|
        {
            &&& #[trigger] told_until(before, after, required, k, Notice::Initialize, result)
            &&& forall|j: int|
                0 <= j < before.len() && j <= k ==> before[j].asks_initialization(
                    #[trigger] required[j],
                )
            &&& forall|j: int|
                0 <= j < before.len() && j <= k && #[trigger] required[j]
                    ==> before[j].initialized(
                    context,
                    if j < k {
                        Ok(())
                    } else {
                        result
                    },
                )
        }
}

} // verus!
