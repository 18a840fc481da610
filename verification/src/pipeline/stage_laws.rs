//! What holds of the calls on stages and builders, and of what stages are told,
//! said of their arguments and results.

use std::sync::Arc;

use vstd::prelude::*;

use crate::error;
use crate::error::PipelineError;
use crate::pipeline::builder;
use crate::pipeline::builder::{BuiltPipeline, PipelineBuilder, StageResources};
use crate::pipeline::ping_pong::Pipeline;
use crate::pipeline::pipeline_stage;
use crate::pipeline::pipeline_stage::{Notice, PipelineStage, StageConfig, StageKind};
use crate::pipeline::size;
use crate::pipeline::stage;
use crate::pipeline::stage::Stage;
use crate::plan;
use crate::plan::{BindingEntry, StagePass, StorageBinding};
use crate::wgpu_utils;
use crate::wgpu_utils::{BufferUsages, ComputeContext};

verus! {

// ---- stages ----

/// A stage of either kind answers with what its stage says.
pub proof fn law_stage_speaks_for_itself<T>(
    config: &StageConfig<T>,
    name: &str,
    vector_dim: usize,
    batch_size: usize,
    custom: bool,
    tag: &Option<T>,
    empty: bool,
)
    requires
        call_ensures(StageConfig::<T>::name, (config,), name),
        call_ensures(StageConfig::<T>::vector_dim, (config,), vector_dim),
        call_ensures(StageConfig::<T>::batch_size, (config,), batch_size),
        call_ensures(StageConfig::<T>::is_custom, (config,), custom),
        call_ensures(StageConfig::<T>::tag, (config,), tag),
        call_ensures(StageConfig::<T>::is_empty, (config,), empty),
    ensures
        match config {
            StageConfig::Standard { stage, tag: held } => {
                &&& name@ == stage.name@
                &&& vector_dim == stage.vector_dim
                &&& batch_size == stage.batch_size
                &&& !custom
                &&& *tag == *held
                &&& empty == (held is None)
            },
            StageConfig::Custom { stage, tag: held } => {
                &&& name@ == stage.spec_name()
                &&& vector_dim == stage.spec_vector_dim()
                &&& batch_size == stage.spec_batch_size()
                &&& custom
                &&& *tag == *held
                &&& empty == (held is None)
            },
        },
{
}

/// The sizes of a stage are those of four bytes per scalar, and a stage is
/// refused exactly where one of its dimensions is zero, the vector dimension
/// first.
pub proof fn law_stage_sizes(
    stage: &Stage,
    element_size: usize,
    buffer_size: u64,
    valid: Result<(), PipelineError>,
)
    requires
        call_ensures(Stage::element_size, (stage,), element_size),
        call_ensures(Stage::buffer_size, (stage,), buffer_size),
        call_ensures(Stage::validate, (stage,), valid),
    ensures
        element_size == stage.vector_dim * 4,
        buffer_size == stage.batch_size * stage.vector_dim * 4,
        valid is Ok <==> stage.vector_dim >= 1 && stage.batch_size >= 1,
        valid matches Err(e) ==> if stage.vector_dim == 0 {
            e is ZeroVectorDim
        } else {
            e is ZeroBatchSize
        },
{
    size::lemma_batch_scalars(stage.batch_size, stage.vector_dim);
}

/// The same of a stage of either kind.
pub proof fn law_stage_config_sizes<T>(
    config: &StageConfig<T>,
    vector_dim: usize,
    batch_size: usize,
    element_size: usize,
    buffer_size: u64,
    valid: Result<(), PipelineError>,
)
    requires
        call_ensures(StageConfig::<T>::vector_dim, (config,), vector_dim),
        call_ensures(StageConfig::<T>::batch_size, (config,), batch_size),
        call_ensures(StageConfig::<T>::element_size, (config,), element_size),
        call_ensures(StageConfig::<T>::buffer_size, (config,), buffer_size),
        call_ensures(StageConfig::<T>::validate, (config,), valid),
    ensures
        element_size == vector_dim * 4,
        buffer_size == batch_size * vector_dim * 4,
        valid is Ok <==> vector_dim >= 1 && batch_size >= 1,
        valid matches Err(e) ==> if vector_dim == 0 {
            e is ZeroVectorDim
        } else {
            e is ZeroBatchSize
        },
{
    size::lemma_batch_scalars(batch_size, vector_dim);
}

/// A tag that is put in a stage comes out with the next one, and the stage
/// itself stays as it is.
pub proof fn law_tags_pass_through_a_stage<T>(
    c: &mut StageConfig<T>,
    d: &mut StageConfig<T>,
    first: Option<T>,
    second: Option<T>,
    before: Option<T>,
    back: Option<T>,
)
    requires
        call_ensures(StageConfig::<T>::forward_tag, (c, first), before),
        call_ensures(StageConfig::<T>::forward_tag, (d, second), back),
        *old(d) == *final(c),
    ensures
        back == first,
        match *old(c) {
            StageConfig::Standard { stage, tag } => {
                &&& before == tag
                &&& *final(d) == StageConfig::<T>::Standard { stage, tag: second }
            },
            StageConfig::Custom { stage, tag } => {
                &&& before == tag
                &&& *final(d) matches StageConfig::Custom { stage: same, tag: held }
                &&& same == stage
                &&& held == second
            },
        },
{
}

/// Workgroups of 64 invocations cover all invocations, and one fewer would
/// not; of more invocations than the device can count, the low 32 bits count.
pub proof fn law_workgroups(invocations: usize, groups: u32, more: usize, groups_of_more: u32)
    requires
        call_ensures(plan::workgroup_count, (invocations,), groups),
        call_ensures(plan::workgroup_count, (more,), groups_of_more),
    ensures
        invocations < 0x1_0000_0000 ==> groups * 64 >= invocations && (groups - 1) * 64
            < invocations,
        more == invocations + 0x1_0000_0000 ==> groups_of_more == groups,
{
}

/// Of the entries of a bind group, those with the largest number are bound to
/// the output and all others to the input, in the order of the layout.
pub proof fn law_bind_entries(
    bindings: &Vec<u32>,
    input: usize,
    output: usize,
    entries: Vec<BindingEntry>,
    k: int,
)
    requires
        call_ensures(plan::bind_entries, (bindings, input, output), entries),
        0 <= k < bindings@.len(),
    ensures
        entries@.len() == bindings@.len(),
        entries@[k].binding == bindings@[k],
        (forall|m: int| 0 <= m < bindings@.len() ==> (#[trigger] bindings@[m]) <= bindings@[k])
            ==> entries@[k].buffer == output,
        (exists|m: int| 0 <= m < bindings@.len() && (#[trigger] bindings@[m]) > bindings@[k])
            ==> entries@[k].buffer == input,
{
}

/// The layout of stages that bring none has the bindings that their bind groups
/// have: the input, which may only be read, below the output.
pub proof fn law_default_layout(
    stage: &Stage,
    layout: Vec<StorageBinding>,
    default_bindings: Vec<u32>,
    bindings: Vec<u32>,
    k: int,
)
    requires
        call_ensures(plan::create_bind_group_layout, (), layout),
        call_ensures(plan::default_bindings, (), default_bindings),
        call_ensures(Stage::bindings, (stage,), bindings),
        0 <= k < bindings@.len(),
    ensures
        stage.bind_group_entries is None ==> {
            &&& layout@.len() == bindings@.len() == default_bindings@.len() == 2
            &&& layout@[k].binding == bindings@[k] == default_bindings@[k] == k
            &&& layout@[k].read_only == (k == 0)
        },
        stage.bind_group_entries matches Some(own) ==> {
            &&& bindings@.len() == own@.len()
            &&& bindings@[k] == wgpu_utils::entry_binding(own@[k])
        },
{
}

/// Sizes count four bytes per scalar. They can be counted on this machine exactly
/// where those of one vector and of the whole batch can be, and a zero dimension
/// is refused, the vector dimension first.
pub proof fn law_sizes(
    vector_dim: usize,
    batch_size: usize,
    checked: Result<(), PipelineError>,
    bytes: u64,
    fits: bool,
)
    requires
        call_ensures(size::check_dimensions, (vector_dim, batch_size), checked),
        call_ensures(size::batch_byte_size, (batch_size, vector_dim), bytes),
        call_ensures(size::batch_fits, (batch_size, vector_dim), fits),
    ensures
        checked is Ok <==> vector_dim >= 1 && batch_size >= 1,
        checked matches Err(e) ==> if vector_dim == 0 {
            e is ZeroVectorDim
        } else {
            e is ZeroBatchSize
        },
        bytes == batch_size * vector_dim * 4,
        fits <==> vector_dim * 4 <= usize::MAX && batch_size * vector_dim * 4 <= usize::MAX,
{
    size::lemma_batch_scalars(batch_size, vector_dim);
}

/// A stage has the name, the shader and the sizes that it was created with, and
/// no layout of its own. The shader of identity stages is the same for every
/// dimension.
pub proof fn law_stage_is_as_created<N: Into<String>, W: Into<String>>(
    name: N,
    wgsl: W,
    vector_dim: usize,
    batch_size: usize,
    created: Stage,
    passing: Stage,
    shader_dim: usize,
    shader: String,
)
    requires
        call_ensures(Stage::new::<N, W>, (name, wgsl, vector_dim, batch_size), created),
        call_ensures(Stage::identity::<N>, (name, vector_dim, batch_size), passing),
        call_ensures(stage::create_identity_shader, (shader_dim,), shader),
    ensures
        call_ensures(N::into, (name,), created.name),
        call_ensures(W::into, (wgsl,), created.wgsl),
        created.vector_dim == vector_dim,
        created.batch_size == batch_size,
        created.bind_group_entries is None,
        call_ensures(N::into, (name,), passing.name),
        passing.wgsl@ == shader@,
        passing.vector_dim == vector_dim,
        passing.batch_size == batch_size,
        passing.bind_group_entries is None,
{
}

/// Whether a text stands in another one at a place.
pub open spec fn stands_at(text: Seq<char>, piece: Seq<char>, k: int) -> bool {
    &&& 0 <= k
    &&& k + piece.len() <= text.len()
    &&& text.subrange(k, k + piece.len()) =~= piece
}

/// Whether a text holds another one.
pub open spec fn contains(text: Seq<char>, piece: Seq<char>) -> bool {
    exists|k: int| #[trigger] stands_at(text, piece, k)
}

/// The shader of identity stages reads what is bound at 0 and writes what is bound
/// at 1, in workgroups of 64 invocations, and copies each scalar of the input to its
/// own place in the output, for vectors of every dimension.
pub proof fn law_identity_shader_copies(vector_dim: usize, shader: String)
    requires
        call_ensures(stage::create_identity_shader, (vector_dim,), shader),
    ensures
        contains(shader@, "@group(0) @binding(0)\nvar<storage, read> input: array<f32>;"@),
        contains(shader@, "@group(0) @binding(1)\nvar<storage, read_write> output: array<f32>;"@),
        contains(shader@, "@compute @workgroup_size(64)\n"@),
        contains(shader@, "    let idx = id.x;\n    if (idx >= arrayLength(&input)) { return; }\n    output[idx] = input[idx];\n}"@),
{
    reveal_strlit("
@group(0) @binding(0)
var<storage, read> input: array<f32>;

@group(0) @binding(1)
var<storage, read_write> output: array<f32>;

@compute @workgroup_size(64)
fn main(@builtin(global_invocation_id) id: vec3<u32>) {
    let idx = id.x;
    if (idx >= arrayLength(&input)) { return; }
    output[idx] = input[idx];
}
");
    reveal_strlit("@group(0) @binding(0)\nvar<storage, read> input: array<f32>;");
    reveal_strlit("@group(0) @binding(1)\nvar<storage, read_write> output: array<f32>;");
    reveal_strlit("@compute @workgroup_size(64)\n");
    reveal_strlit("    let idx = id.x;\n    if (idx >= arrayLength(&input)) { return; }\n    output[idx] = input[idx];\n}");
    assert(stands_at(shader@, "@group(0) @binding(0)\nvar<storage, read> input: array<f32>;"@, 1));
    assert(stands_at(shader@, "@group(0) @binding(1)\nvar<storage, read_write> output: array<f32>;"@, 62));
    assert(stands_at(shader@, "@compute @workgroup_size(64)\n"@, 130));
    assert(stands_at(shader@, "    let idx = id.x;\n    if (idx >= arrayLength(&input)) { return; }\n    output[idx] = input[idx];\n}"@, 215));
}

/// A copy of a stage is the same stage, and a copy of a stage with its tag holds
/// a copy of the tag.
pub proof fn law_copies_are_the_same<T: Clone>(
    stage: &Stage,
    copy: Stage,
    config: &StageConfig<T>,
    config_copy: StageConfig<T>,
    tag: &Option<T>,
)
    requires
        call_ensures(Stage::clone, (stage,), copy),
        call_ensures(StageConfig::<T>::clone, (config,), config_copy),
        *config == (StageConfig::<T>::Standard { stage: *stage, tag: *tag }),
    ensures
        copied(*stage, copy),
        config_copy matches StageConfig::Standard { stage: same, tag: held } && {
            &&& same.name@ == stage.name@
            &&& copied(Stage { name: same.name, ..*stage }, same)
            &&& (match *tag {
                Some(t) => held matches Some(h) && cloned::<T>(t, h),
                None => held is None,
            })
        },
{
}

/// Two stages have the same name, shader, sizes and layout.
pub open spec fn copied(stage: Stage, copy: Stage) -> bool {
    &&& copy.name == stage.name
    &&& copy.wgsl == stage.wgsl
    &&& copy.vector_dim == stage.vector_dim
    &&& copy.batch_size == stage.batch_size
    &&& (match stage.bind_group_entries {
        Some(entries) => copy.bind_group_entries matches Some(same) && same@ == entries@,
        None => copy.bind_group_entries is None,
    })
}

/// A custom stage is handed out, for reading or for changes, by the configuration
/// that holds it, and by no other; changes go to the stage, and the tag stays.
pub proof fn law_custom_stage_is_handed_out<T>(
    config: &StageConfig<T>,
    custom: Option<&Box<dyn PipelineStage>>,
    changed: &mut StageConfig<T>,
    custom_mut: Option<&mut Box<dyn PipelineStage>>,
)
    requires
        call_ensures(StageConfig::<T>::as_custom, (config,), custom),
        call_ensures(StageConfig::<T>::as_custom_mut, (changed,), custom_mut),
    ensures
        custom is Some <==> *config is Custom,
        custom matches Some(c) ==> *c == config->Custom_stage,
        custom_mut is Some <==> *old(changed) is Custom,
        custom_mut is None ==> *final(changed) == *old(changed),
        custom_mut matches Some(c) ==> {
            &&& *c == old(changed)->Custom_stage
            &&& *final(changed) is Custom
            &&& final(changed)->Custom_stage == *final(c)
            &&& final(changed)->Custom_tag == old(changed)->Custom_tag
        },
{
}

/// A stage buffer can be used by shaders and copied from and to, a staging buffer
/// written by the host and copied from, a readback buffer copied to and read by the
/// host, and none of them in any other way.
pub proof fn law_buffer_usages(
    bit: u32,
    stage: BufferUsages,
    staging: BufferUsages,
    readback: BufferUsages,
)
    requires
        call_ensures(wgpu_utils::stage_buffer_usages, (), stage),
        call_ensures(wgpu_utils::staging_buffer_usages, (), staging),
        call_ensures(wgpu_utils::readback_buffer_usages, (), readback),
        bit < 32,
    ensures
        (stage.bits >> bit) & 1 == 1 <==> bit == 2 || bit == 3 || bit == 7,
        (staging.bits >> bit) & 1 == 1 <==> bit == 1 || bit == 2,
        (readback.bits >> bit) & 1 == 1 <==> bit == 0 || bit == 3,
{
    assert((0x8Cu32 >> bit) & 1 == 1 <==> bit == 2 || bit == 3 || bit == 7) by (bit_vector)
        requires
            bit < 32,
    ;
    assert((0x06u32 >> bit) & 1 == 1 <==> bit == 1 || bit == 2) by (bit_vector)
        requires
            bit < 32,
    ;
    assert((0x09u32 >> bit) & 1 == 1 <==> bit == 0 || bit == 3) by (bit_vector)
        requires
            bit < 32,
    ;
}

/// A standard stage needs a compute pipeline, with a layout of its own where it
/// brings one; a custom stage needs neither. The context that was set is used, and
/// a fresh one only where none was.
pub proof fn law_needs_of_the_device<T>(
    config: &StageConfig<T>,
    resources: StageResources,
    set: &Option<Arc<ComputeContext>>,
    fresh: Option<Arc<ComputeContext>>,
    context: Arc<ComputeContext>,
)
    requires
        call_ensures(builder::stage_resources::<T>, (config,), resources),
        call_ensures(builder::choose_context, (set, fresh), context),
        *set is None ==> fresh is Some,
    ensures
        resources.compute_pipeline == (*config is Standard),
        resources.custom_layout <==> (*config matches StageConfig::Standard { stage, .. }
            && stage.bind_group_entries is Some),
        Some(context) == if *set is Some {
            *set
        } else {
            fresh
        },
{
}

// ---- what custom stages are told ----

/// What a stage answers is what its own method returns, called on the stage
/// as it was with what it is told.
pub proof fn law_answers_are_calls<S: PipelineStage>(
    stage: &S,
    elements: usize,
    n: usize,
    batch_size: usize,
    vector_dim: usize,
    context: &ComputeContext,
    answer: anyhow::Result<()>,
    yes: bool,
)
    ensures
        pipeline_stage::answers(stage, Notice::TotalElements { elements }, answer) ==> (exists|
            r: &mut S,
        |
            (&*r) == stage && #[trigger] call_ensures(
                S::update_actual_total_elements,
                (r, elements),
                answer,
            )),
        pipeline_stage::answers(stage, Notice::N { n }, answer) ==> (exists|r: &mut S|
            (&*r) == stage && #[trigger] call_ensures(S::update_n, (r, n), answer)),
        pipeline_stage::answers(stage, Notice::Resize { batch_size, vector_dim }, answer) ==> (
        exists|r: &mut S|
            (&*r) == stage && #[trigger] call_ensures(
                S::resize,
                (r, batch_size, vector_dim),
                answer,
            )),
        pipeline_stage::initialized(stage, context, answer) ==> (exists|r: &mut S|
            (&*r) == stage && #[trigger] call_ensures(S::initialize, (r, context), answer)),
        pipeline_stage::initialization_answer(stage, yes) <==> call_ensures(
            S::requires_initialization,
            (stage,),
            yes,
        ),
        pipeline_stage::resizing_answer(stage, yes) <==> call_ensures(
            S::supports_dynamic_resizing,
            (stage,),
            yes,
        ),
{
    if pipeline_stage::answers(stage, Notice::TotalElements { elements }, answer) {
        let r = choose|r: &mut S|
            (&*r) == stage && #[trigger] call_ensures(
                S::update_actual_total_elements,
                (r, elements),
                answer,
            );
        assert((&*r) == stage && call_ensures(
            S::update_actual_total_elements,
            (r, elements),
            answer,
        ));
    }
    if pipeline_stage::answers(stage, Notice::N { n }, answer) {
        let r = choose|r: &mut S|
            (&*r) == stage && #[trigger] call_ensures(S::update_n, (r, n), answer);
        assert((&*r) == stage && call_ensures(S::update_n, (r, n), answer));
    }
    if pipeline_stage::answers(stage, Notice::Resize { batch_size, vector_dim }, answer) {
        let r = choose|r: &mut S|
            (&*r) == stage && #[trigger] call_ensures(
                S::resize,
                (r, batch_size, vector_dim),
                answer,
            );
        assert((&*r) == stage && call_ensures(S::resize, (r, batch_size, vector_dim), answer));
    }
}

/// A custom stage was told something once and returned `answer`: its tag is the
/// one that it had, and the stage is the same or has noted it.
pub open spec fn went<T>(
    before: StageConfig<T>,
    after: StageConfig<T>,
    notice: Notice,
    answer: anyhow::Result<()>,
) -> bool {
    before matches StageConfig::Custom { stage, tag } && (after matches StageConfig::Custom {
        stage: now,
        tag: kept,
    } && {
        &&& kept == tag
        &&& pipeline_stage::answers(&*stage, notice, answer)
        &&& now == stage || now.notices() == stage.notices().push((notice, answer is Ok))
    })
}

/// What a stage is told reaches a custom stage as it was said, and its own error
/// is the result; a standard stage takes everything and stays as it is.
pub proof fn law_stage_is_told<T>(
    counted: &mut StageConfig<T>,
    elements: usize,
    count_result: Result<(), PipelineError>,
    transformed: &mut StageConfig<T>,
    n: usize,
    n_result: Result<(), PipelineError>,
    resized: &mut StageConfig<T>,
    batch_size: usize,
    vector_dim: usize,
    size_result: Result<(), PipelineError>,
)
    requires
        call_ensures(
            StageConfig::<T>::update_actual_total_elements,
            (counted, elements),
            count_result,
        ),
        call_ensures(StageConfig::<T>::update_n, (transformed, n), n_result),
        call_ensures(StageConfig::<T>::resize, (resized, batch_size, vector_dim), size_result),
    ensures
        took(*old(counted), *final(counted), Notice::TotalElements { elements }, count_result),
        took(*old(transformed), *final(transformed), Notice::N { n }, n_result),
        took(
            *old(resized),
            *final(resized),
            Notice::Resize { batch_size, vector_dim },
            size_result,
        ),
{
}

/// A custom stage was told something once, and its own error is the result; a
/// standard stage is the same as before.
pub open spec fn took<T>(
    before: StageConfig<T>,
    after: StageConfig<T>,
    notice: Notice,
    result: Result<(), PipelineError>,
) -> bool {
    match before {
        StageConfig::Standard { .. } => after == before && result is Ok,
        StageConfig::Custom { .. } => match result {
            Ok(_) => went(before, after, notice, Ok(())),
            Err(e) => e matches PipelineError::Stage(own) && went(
                before,
                after,
                notice,
                Err(own),
            ),
        },
    }
}

/// A stage is initialized where that is required and the stage is a custom one,
/// with the context that is handed in, and nothing else is done to it.
pub proof fn law_stage_is_initialized<T>(
    decided: &mut StageConfig<T>,
    required: bool,
    asked: &mut StageConfig<T>,
    context: &ComputeContext,
    decided_result: Result<(), PipelineError>,
    asked_result: Result<(), PipelineError>,
)
    requires
        call_ensures(
            StageConfig::<T>::initialize_if,
            (decided, required, context),
            decided_result,
        ),
        call_ensures(StageConfig::<T>::initialize, (asked, context), asked_result),
    ensures
        if required {
            &&& took(*old(decided), *final(decided), Notice::Initialize, decided_result)
            &&& *old(decided) matches StageConfig::Custom { stage, .. }
                ==> pipeline_stage::initialized(
                &*stage,
                context,
                pipeline_stage::answer_of(decided_result),
            )
        } else {
            *final(decided) == *old(decided) && decided_result is Ok
        },
        match asked_result {
            Ok(_) => settled(*old(asked), *final(asked), context, Ok(())),
            Err(e) => {
                &&& e matches PipelineError::Stage(own)
                &&& *old(asked) is Custom
                &&& settled(*old(asked), *final(asked), context, Err(own))
                &&& went(*old(asked), *final(asked), Notice::Initialize, Err(own))
            },
        },
{
    let was = *old(asked);
    let answer = choose|answer: bool|
        #[trigger] was.asks_initialization(answer) && if answer {
            &&& final(asked).told(old(asked), Notice::Initialize, asked_result)
            &&& was.initialized(context, asked_result)
        } else {
            *final(asked) == was && asked_result is Ok
        };
    assert(was.asks_initialization(answer));
    if answer {
        assert(final(asked).told(old(asked), Notice::Initialize, asked_result));
    }
}

/// Whether a stage wants to know of new sizes is its own answer, and a standard
/// stage never does; one that does is told once, whatever it makes of it.
pub proof fn law_stage_is_told_sizes<T>(
    config: &StageConfig<T>,
    supported: bool,
    changed: &mut StageConfig<T>,
    batch_size: usize,
    vector_dim: usize,
)
    requires
        call_ensures(StageConfig::<T>::supports_dynamic_resizing, (config,), supported),
        call_ensures(StageConfig::<T>::tell_size, (changed, batch_size, vector_dim), ()),
    ensures
        match *config {
            StageConfig::Standard { .. } => !supported,
            StageConfig::Custom { stage, .. } => pipeline_stage::resizing_answer(
                &*stage,
                supported,
            ),
        },
        sized_up(*old(changed), *final(changed), batch_size, vector_dim),
{
    lemma_told_size(*old(changed), *final(changed), batch_size, vector_dim);
}

/// In a tick a custom stage is told how many vectors its data has, and then the
/// transform size, which are those of its pass; a failure is its own error. A
/// standard stage, and every other stage, stays as it is.
pub proof fn law_stage_is_told_of_its_data<T>(
    p: &mut Pipeline<T>,
    i: usize,
    result: Result<StagePass, PipelineError>,
    elements: usize,
    n: usize,
    j: int,
)
    requires
        call_ensures(Pipeline::<T>::stage_pass, (p, i), result),
        old(p).wf(),
        i < old(p)@.tags.len(),
        old(p).stages().len() == old(p)@.tags.len(),
        (elements, n) == match old(p)@.metadata[2 * i + old(p)@.current_set] {
            Some(known) => (known.elements, known.n),
            None => (old(p)@.batch_size, old(p)@.default_n),
        },
        0 <= j < old(p).stages().len(),
    ensures
        j != i ==> final(p).stages()[j] == old(p).stages()[j],
        old(p).stages()[i as int] is Standard ==> result is Ok && final(p).stages()[i as int]
            == old(p).stages()[i as int],
        old(p).stages()[i as int] is Custom ==> match result {
            Ok(pass) => exists|between: StageConfig<T>|
                #[trigger] went(
                    old(p).stages()[i as int],
                    between,
                    Notice::TotalElements { elements },
                    Ok(()),
                ) && went(
                    between,
                    final(p).stages()[i as int],
                    Notice::N { n },
                    Ok(()),
                ) && pass.elements == elements && pass.n == n,
            Err(e) => e matches PipelineError::Stage(own) && ({
                ||| went(
                    old(p).stages()[i as int],
                    final(p).stages()[i as int],
                    Notice::TotalElements { elements },
                    Err(own),
                )
                ||| exists|between: StageConfig<T>|
                    #[trigger] went(
                        old(p).stages()[i as int],
                        between,
                        Notice::TotalElements { elements },
                        Ok(()),
                    ) && went(
                        between,
                        final(p).stages()[i as int],
                        Notice::N { n },
                        Err(own),
                    )
            }),
        },
{
    let was = old(p).stages()[i as int];
    let now = final(p).stages()[i as int];
    let told = match result {
        Ok(_) => Ok::<(), PipelineError>(()),
        Err(e) => Err(e),
    };
    let pass = old(p)@.pass(i as int);
    assert(now.briefed(&was, pass.elements, pass.n, told));
    now.lemma_briefed(&was, pass.elements, pass.n, told);
    if was is Custom {
        if told is Err && now.told(&was, Notice::TotalElements { elements: pass.elements }, told) {
            assert(went(
                was,
                now,
                Notice::TotalElements { elements: pass.elements },
                pipeline_stage::answer_of(told),
            ));
        } else {
            let between = choose|between: StageConfig<T>|
                #[trigger] between.told(
                    &was,
                    Notice::TotalElements { elements: pass.elements },
                    Ok(()),
                ) && now.told(&between, Notice::N { n: pass.n }, told);
            assert(went(was, between, Notice::TotalElements { elements: pass.elements }, Ok(())));
            assert(went(
                between,
                now,
                Notice::N { n: pass.n },
                pipeline_stage::answer_of(told),
            ));
        }
    }
}

/// All custom stages are told a new transform size, in turn, until one does not
/// take it; its error is the result. Standard stages, and those after the one
/// that failed, stay as they are, and so does the pipeline.
pub proof fn law_new_n_is_told_in_turn<T>(
    p: &mut Pipeline<T>,
    n: usize,
    result: Result<(), PipelineError>,
)
    requires
        call_ensures(Pipeline::<T>::update_stage_n, (p, n), result),
        old(p).wf(),
    ensures
        final(p)@ == old(p)@,
        final(p).stages().len() == old(p).stages().len(),
        result is Ok ==> forall|j: int|
            0 <= j < old(p).stages().len() ==> if old(p).stages()[j] is Custom {
                went(old(p).stages()[j], #[trigger] final(p).stages()[j], Notice::N { n }, Ok(()))
            } else {
                final(p).stages()[j] == old(p).stages()[j]
            },
        result matches Err(e) ==> (e matches PipelineError::Stage(own) && exists|k: int|
            {
                &&& 0 <= k < old(p).stages().len()
                &&& went(
                    old(p).stages()[k],
                    #[trigger] final(p).stages()[k],
                    Notice::N { n },
                    Err(own),
                )
                &&& forall|j: int|
                    0 <= j < old(p).stages().len() && j != k ==> if j < k && old(
                        p,
                    ).stages()[j] is Custom {
                        went(
                            old(p).stages()[j],
                            #[trigger] final(p).stages()[j],
                            Notice::N { n },
                            Ok(()),
                        )
                    } else {
                        final(p).stages()[j] == old(p).stages()[j]
                    }
            }),
{
    let before = old(p).stages();
    let after = final(p).stages();
    let flags = pipeline_stage::custom(before);
    let k = choose|k: int|
        #[trigger] pipeline_stage::told_until(before, after, flags, k, Notice::N { n }, result);
    assert forall|j: int| 0 <= j < before.len() && j < k implies if before[j] is Custom {
        went(before[j], #[trigger] after[j], Notice::N { n }, Ok(()))
    } else {
        after[j] == before[j]
    } by {
        if before[j] is Custom {
            assert(after[j].told(&before[j], Notice::N { n }, Ok(())));
        }
    }
    assert forall|j: int| 0 <= j < before.len() && j > k implies (#[trigger] after[j])
        == before[j] by {}
    if let Err(e) = result {
        assert(after[k].told(&before[k], Notice::N { n }, result));
        assert(before[k] is Custom);
        assert(went(before[k], after[k], Notice::N { n }, pipeline_stage::answer_of(result)));
    }
}

/// The custom stages that say that they require it are initialized with the
/// context that is handed in, in turn, until one fails; its error is the result.
/// All others stay as they are, and so does the pipeline.
pub proof fn law_stages_are_initialized_in_turn<T>(
    p: &mut Pipeline<T>,
    context: &ComputeContext,
    result: Result<(), PipelineError>,
)
    requires
        call_ensures(Pipeline::<T>::initialize_stages, (p, context), result),
        old(p).wf(),
    ensures
        final(p)@ == old(p)@,
        final(p).stages().len() == old(p).stages().len(),
        result is Ok ==> forall|j: int|
            0 <= j < old(p).stages().len() ==> settled(
                old(p).stages()[j],
                #[trigger] final(p).stages()[j],
                context,
                Ok(()),
            ),
        result matches Err(e) ==> (e matches PipelineError::Stage(own) && exists|k: int|
            {
                &&& 0 <= k < old(p).stages().len()
                &&& old(p).stages()[k] is Custom
                &&& went(
                    old(p).stages()[k],
                    #[trigger] final(p).stages()[k],
                    Notice::Initialize,
                    Err(own),
                )
                &&& settled(old(p).stages()[k], final(p).stages()[k], context, Err(own))
                &&& forall|j: int|
                    0 <= j < k ==> settled(
                        old(p).stages()[j],
                        #[trigger] final(p).stages()[j],
                        context,
                        Ok(()),
                    )
                &&& forall|j: int|
                    k < j < old(p).stages().len() ==> (#[trigger] final(p).stages()[j]) == old(
                        p,
                    ).stages()[j]
            }),
{
    let before = old(p).stages();
    let after = final(p).stages();
    lemma_initialized_in_turn(before, after, context, result);
}

/// A custom stage that requires it was initialized once with `context` and
/// returned `answer`; any other stage is the same as before.
pub open spec fn settled<T>(
    before: StageConfig<T>,
    after: StageConfig<T>,
    context: &ComputeContext,
    answer: anyhow::Result<()>,
) -> bool {
    match before {
        StageConfig::Standard { .. } => after == before,
        StageConfig::Custom { stage, .. } => {
            ||| pipeline_stage::initialization_answer(&*stage, true)
                && pipeline_stage::initialized(&*stage, context, answer) && went(
                before,
                after,
                Notice::Initialize,
                answer,
            )
            ||| pipeline_stage::initialization_answer(&*stage, false) && after == before
        },
    }
}

/// Stages that were initialized in turn are settled one by one.
pub proof fn lemma_initialized_in_turn<T>(
    before: Seq<StageConfig<T>>,
    after: Seq<StageConfig<T>>,
    context: &ComputeContext,
    result: Result<(), PipelineError>,
)
    requires
        pipeline_stage::initialized_in_turn(before, after, context, result),
    ensures
        after.len() == before.len(),
        result is Ok ==> forall|j: int|
            0 <= j < before.len() ==> settled(before[j], #[trigger] after[j], context, Ok(())),
        result matches Err(e) ==> (e matches PipelineError::Stage(own) && exists|k: int|
            {
                &&& 0 <= k < before.len()
                &&& before[k] is Custom
                &&& went(before[k], #[trigger] after[k], Notice::Initialize, Err(own))
                &&& settled(before[k], after[k], context, Err(own))
                &&& forall|j: int|
                    0 <= j < k ==> settled(before[j], #[trigger] after[j], context, Ok(()))
                &&& forall|j: int| k < j < before.len() ==> (#[trigger] after[j]) == before[j]
            }),
{
    let (required, k) = choose|required: Seq<bool>, k: int|
        {
            &&& #[trigger] pipeline_stage::told_until(
                before,
                after,
                required,
                k,
                Notice::Initialize,
                result,
            )
            &&& forall|j: int|
                0 <= j < before.len() && j <= k ==> before[j].asks_initialization(
                    #[trigger] required[j],
                )
            &&& forall|j: int|
                0 <= j < before.len() && j <= k && #[trigger] required[j]
                    ==> before[j].initialized(
                    context,
                    if j < k {
                        Ok(())
                    } else {
                        result
                    },
                )
        };
    assert forall|j: int| 0 <= j < before.len() && j < k implies settled(
        before[j],
        #[trigger] after[j],
        context,
        Ok(()),
    ) by {
        assert(before[j].asks_initialization(required[j]));
        if required[j] {
            assert(after[j].told(&before[j], Notice::Initialize, Ok(())));
            assert(before[j].initialized(context, Ok(())));
        } else {
            assert(after[j] == before[j]);
        }
    }
    if let Err(e) = result {
        assert(before[k].asks_initialization(required[k]));
        assert(after[k].told(&before[k], Notice::Initialize, result));
        assert(before[k].initialized(context, result));
        assert(went(
            before[k],
            after[k],
            Notice::Initialize,
            pipeline_stage::answer_of(result),
        ));
    }
}

/// A stage that wants to know was told the sizes of the buffers once; any other
/// stage is the same as before.
pub open spec fn sized_up<T>(
    before: StageConfig<T>,
    after: StageConfig<T>,
    batch_size: usize,
    vector_dim: usize,
) -> bool {
    match before {
        StageConfig::Standard { .. } => after == before,
        StageConfig::Custom { stage, .. } => {
            ||| pipeline_stage::resizing_answer(&*stage, true) && exists|
                answer: anyhow::Result<()>,
            |
                #[trigger] went(before, after, Notice::Resize { batch_size, vector_dim }, answer)
            ||| pipeline_stage::resizing_answer(&*stage, false) && after == before
        },
    }
}

/// Every stage that wants to know is told the new sizes when a resize
/// completes, of the batch alone or of both, whether or not others take it.
pub proof fn law_resizes_are_told<T>(
    p: &mut Pipeline<T>,
    q: &mut Pipeline<T>,
    batch_size: usize,
    vector_dim: usize,
    j: int,
)
    requires
        call_ensures(Pipeline::<T>::complete_resize, (p, batch_size), ()),
        call_ensures(Pipeline::<T>::complete_resize_dynamic, (q, batch_size, vector_dim), ()),
        old(p).wf(),
        old(q).wf(),
        0 <= j,
    ensures
        final(p).stages().len() == old(p).stages().len(),
        final(q).stages().len() == old(q).stages().len(),
        j < old(p).stages().len() ==> sized_up(
            old(p).stages()[j],
            final(p).stages()[j],
            batch_size,
            old(p)@.vector_dim,
        ),
        j < old(q).stages().len() ==> sized_up(
            old(q).stages()[j],
            final(q).stages()[j],
            batch_size,
            vector_dim,
        ),
{
    if j < old(p).stages().len() {
        lemma_told_size(
            old(p).stages()[j],
            final(p).stages()[j],
            batch_size,
            old(p)@.vector_dim,
        );
    }
    if j < old(q).stages().len() {
        lemma_told_size(old(q).stages()[j], final(q).stages()[j], batch_size, vector_dim);
    }
}

proof fn lemma_told_size<T>(
    before: StageConfig<T>,
    after: StageConfig<T>,
    batch_size: usize,
    vector_dim: usize,
)
    requires
        after.told_size(&before, batch_size, vector_dim),
    ensures
        sized_up(before, after, batch_size, vector_dim),
{
    let notice = Notice::Resize { batch_size, vector_dim };
    let supported = choose|supported: bool|
        #[trigger] before.asks_resizing(supported) && if supported {
            after.heard(&before, notice)
        } else {
            after == before
        };
    if supported && before is Custom {
        let result = choose|result: Result<(), PipelineError>|
            #[trigger] after.told(&before, notice, result);
        assert(went(before, after, notice, pipeline_stage::answer_of(result)));
    }
}

/// A resize for the sake of the stages tells those that want to know a new
/// batch size first, whether or not they take it, and then both sizes in turn,
/// until one does not take them; its error is the result.
pub proof fn law_resize_with_stages_is_told<T>(
    p: &mut Pipeline<T>,
    batch_size: usize,
    vector_dim: usize,
    result: Result<(), PipelineError>,
)
    requires
        call_ensures(
            Pipeline::<T>::complete_resize_with_stages,
            (p, batch_size, vector_dim),
            result,
        ),
        old(p).wf(),
    ensures
        exists|between: Seq<StageConfig<T>>|
            {
                &&& between.len() == old(p).stages().len()
                &&& forall|j: int|
                    0 <= j < between.len() ==> if batch_size == old(p)@.batch_size {
                        (#[trigger] between[j]) == old(p).stages()[j]
                    } else {
                        sized_up(
                            old(p).stages()[j],
                            between[j],
                            batch_size,
                            old(p)@.vector_dim,
                        )
                    }
                &&& #[trigger] sized_up_in_turn(
                    between,
                    final(p).stages(),
                    batch_size,
                    vector_dim,
                    result,
                )
            },
{
    let before = old(p).stages();
    let after = final(p).stages();
    let between = choose|between: Seq<StageConfig<T>>|
        (if batch_size == old(p)@.batch_size {
            between == before
        } else {
            pipeline_stage::told_sizes(before, between, batch_size, old(p)@.vector_dim)
        }) && #[trigger] pipeline_stage::told_sizes_in_turn(
            between,
            after,
            batch_size,
            vector_dim,
            result,
        );
    assert forall|j: int| 0 <= j < between.len() implies if batch_size == old(p)@.batch_size {
        (#[trigger] between[j]) == before[j]
    } else {
        sized_up(before[j], between[j], batch_size, old(p)@.vector_dim)
    } by {
        if batch_size != old(p)@.batch_size {
            lemma_told_size(before[j], between[j], batch_size, old(p)@.vector_dim);
        }
    }
    lemma_sized_up_in_turn(between, after, batch_size, vector_dim, result);
}

/// Stages that want to know were told the sizes in turn: all of them took it, or
/// one did not, with the error that is the result, and those after it were not
/// told.
pub open spec fn sized_up_in_turn<T>(
    before: Seq<StageConfig<T>>,
    after: Seq<StageConfig<T>>,
    batch_size: usize,
    vector_dim: usize,
    result: Result<(), PipelineError>,
) -> bool {
    let notice = Notice::Resize { batch_size, vector_dim };
    &&& after.len() == before.len()
    &&& result is Ok ==> forall|j: int|
        0 <= j < before.len() ==> sized_up_well(before[j], #[trigger] after[j], notice)
    &&& result matches Err(e) ==> (e matches PipelineError::Stage(own) && exists|k: int|
        {
            &&& 0 <= k < before.len()
            &&& went(before[k], #[trigger] after[k], notice, Err(own))
            &&& forall|j: int| 0 <= j < k ==> sized_up_well(before[j], #[trigger] after[j], notice)
            &&& forall|j: int| k < j < before.len() ==> (#[trigger] after[j]) == before[j]
        })
}

/// A stage that wants to know was told the sizes and took them; any other stage
/// is the same as before.
pub open spec fn sized_up_well<T>(
    before: StageConfig<T>,
    after: StageConfig<T>,
    notice: Notice,
) -> bool {
    match before {
        StageConfig::Standard { .. } => after == before,
        StageConfig::Custom { stage, .. } => {
            ||| pipeline_stage::resizing_answer(&*stage, true) && went(
                before,
                after,
                notice,
                Ok(()),
            )
            ||| pipeline_stage::resizing_answer(&*stage, false) && after == before
        },
    }
}

proof fn lemma_sized_up_in_turn<T>(
    before: Seq<StageConfig<T>>,
    after: Seq<StageConfig<T>>,
    batch_size: usize,
    vector_dim: usize,
    result: Result<(), PipelineError>,
)
    requires
        pipeline_stage::told_sizes_in_turn(before, after, batch_size, vector_dim, result),
    ensures
        sized_up_in_turn(before, after, batch_size, vector_dim, result),
{
    let notice = Notice::Resize { batch_size, vector_dim };
    let (flags, k) = choose|flags: Seq<bool>, k: int|
        {
            &&& #[trigger] pipeline_stage::told_until(before, after, flags, k, notice, result)
            &&& forall|j: int|
                0 <= j < before.len() && j <= k ==> before[j].asks_resizing(#[trigger] flags[j])
        };
    assert forall|j: int| 0 <= j < before.len() && j < k implies sized_up_well(
        before[j],
        #[trigger] after[j],
        notice,
    ) by {
        assert(before[j].asks_resizing(flags[j]));
        if flags[j] {
            assert(after[j].told(&before[j], notice, Ok(())));
        } else {
            assert(after[j] == before[j]);
        }
    }
    if let Err(e) = result {
        assert(before[k].asks_resizing(flags[k]));
        assert(after[k].told(&before[k], notice, result));
        assert(went(before[k], after[k], notice, pipeline_stage::answer_of(result)));
    }
}

// ---- builders ----

/// Stages are built in the order in which they were piped, and a context that
/// was set stays set.
pub proof fn law_pipes_append<T>(
    empty: PipelineBuilder<T>,
    builder: PipelineBuilder<T>,
    stage: Stage,
    piped: PipelineBuilder<T>,
    config: StageConfig<T>,
    configured: PipelineBuilder<T>,
    context: Arc<ComputeContext>,
    shared: PipelineBuilder<T>,
    j: int,
)
    requires
        call_ensures(PipelineBuilder::<T>::new, (), empty) || call_ensures(
            PipelineBuilder::<T>::default,
            (),
            empty,
        ) || call_ensures(Pipeline::<T>::new, (), empty),
        call_ensures(PipelineBuilder::<T>::pipe, (builder, stage), piped),
        call_ensures(PipelineBuilder::<T>::pipe_config, (builder, config), configured),
        call_ensures(PipelineBuilder::<T>::with_context, (builder, context), shared),
        0 <= j < builder.stages().len(),
    ensures
        empty.stages().len() == 0,
        empty.context() is None,
        piped.stages().len() == builder.stages().len() + 1,
        piped.stages()[j] == builder.stages()[j],
        piped.stages()[builder.stages().len() as int] == (StageConfig::<T>::Standard {
            stage,
            tag: None,
        }),
        piped.context() == builder.context(),
        configured.stages().len() == builder.stages().len() + 1,
        configured.stages()[j] == builder.stages()[j],
        configured.stages()[builder.stages().len() as int] == config,
        configured.context() == builder.context(),
        shared.stages() == builder.stages(),
        shared.context() == Some(context),
{
    assert(configured.stages().drop_last()[j] == builder.stages()[j]);
}

/// Custom stages and identity stages are piped in turn with the others, as they
/// were given and without a tag.
pub proof fn law_pipes_append_other_stages<T, N: Into<String>>(
    builder: PipelineBuilder<T>,
    given: (PipelineBuilder<T>, Box<dyn PipelineStage>),
    piped: PipelineBuilder<T>,
    name: N,
    vector_dim: usize,
    batch_size: usize,
    passing: PipelineBuilder<T>,
    shader: String,
    stages: &Vec<StageConfig<T>>,
    j: int,
)
    requires
        call_ensures(PipelineBuilder::<T>::pipe_custom, given, piped),
        given.0 == builder,
        call_ensures(
            PipelineBuilder::<T>::identity::<N>,
            (builder, name, vector_dim, batch_size),
            passing,
        ),
        call_ensures(stage::create_identity_shader, (vector_dim,), shader),
        call_ensures(PipelineBuilder::<T>::stage_configs, (&builder,), stages),
        0 <= j < builder.stages().len(),
    ensures
        stages@ == builder.stages(),
        piped.stages().len() == builder.stages().len() + 1,
        piped.stages()[j] == builder.stages()[j],
        piped.stages()[builder.stages().len() as int] matches StageConfig::Custom {
            stage: same,
            tag,
        } && same == given.1 && tag is None,
        piped.context() == builder.context(),
        passing.stages().len() == builder.stages().len() + 1,
        passing.stages()[j] == builder.stages()[j],
        passing.stages()[builder.stages().len() as int] matches StageConfig::Standard {
            stage: made,
            tag: held,
        } && {
            &&& call_ensures(N::into, (name,), made.name)
            &&& made.wgsl@ == shader@
            &&& made.vector_dim == vector_dim
            &&& made.batch_size == batch_size
            &&& made.bind_group_entries is None
            &&& held is None
        },
        passing.context() == builder.context(),
{
    assert(piped.stages().drop_last()[j] == builder.stages()[j]);
    assert(passing.stages().drop_last()[j] == builder.stages()[j]);
}

/// A build succeeds exactly where there is a stage and any two stages have the
/// same vector dimension and the same batch size, both at least one. The pipeline
/// then has these sizes and these stages, and runs on the context that was set.
pub proof fn law_build_demands_uniform_stages<T>(
    builder: PipelineBuilder<T>,
    result: Result<BuiltPipeline<T>, PipelineError>,
)
    requires
        call_ensures(PipelineBuilder::<T>::build, (builder,), result),
    ensures
        result is Ok <==> builder.stages().len() >= 1 && forall|i: int, j: int|
            0 <= i < builder.stages().len() && 0 <= j < builder.stages().len() ==> {
                let a = #[trigger] builder.stages()[i];
                let b = #[trigger] builder.stages()[j];
                &&& a.spec_vector_dim() == b.spec_vector_dim() >= 1
                &&& a.spec_batch_size() == b.spec_batch_size() >= 1
            },
        result matches Ok(built) ==> {
            &&& built.pipeline.stages() == builder.stages()
            &&& built.context == builder.context()
            &&& forall|i: int|
                0 <= i < builder.stages().len() ==> {
                    let stage = #[trigger] builder.stages()[i];
                    &&& stage.spec_vector_dim() == built.pipeline@.vector_dim
                    &&& stage.spec_batch_size() == built.pipeline@.batch_size
                }
        },
{
    let stages = builder.stages();
    if result is Ok {
        assert forall|i: int, j: int| 0 <= i < stages.len() && 0 <= j < stages.len() implies {
            let a = #[trigger] stages[i];
            let b = #[trigger] stages[j];
            &&& a.spec_vector_dim() == b.spec_vector_dim() >= 1
            &&& a.spec_batch_size() == b.spec_batch_size() >= 1
        } by {
            assert(builder::stage_accepted(stages, i));
            assert(builder::stage_accepted(stages, j));
        }
        assert forall|i: int| 0 <= i < stages.len() implies {
            let stage = #[trigger] stages[i];
            &&& stage.spec_vector_dim() == result->Ok_0.pipeline@.vector_dim
            &&& stage.spec_batch_size() == result->Ok_0.pipeline@.batch_size
        } by {
            assert(builder::stage_accepted(stages, i));
        }
    } else if stages.len() >= 1 && forall|i: int, j: int|
        0 <= i < stages.len() && 0 <= j < stages.len() ==> {
            let a = #[trigger] stages[i];
            let b = #[trigger] stages[j];
            &&& a.spec_vector_dim() == b.spec_vector_dim() >= 1
            &&& a.spec_batch_size() == b.spec_batch_size() >= 1
        } {
        assert forall|i: int| 0 <= i < stages.len() implies #[trigger]
        builder::stage_accepted(stages, i) by {
            let a = stages[i];
            let b = stages[0];
        }
    }
}

/// A build that fails names the first stage that is at fault: one with a zero
/// dimension, or one whose vector dimension, or else whose batch size, is not
/// that of the first stage. Without stages it says so.
pub proof fn law_build_names_the_fault<T>(
    builder: PipelineBuilder<T>,
    result: Result<BuiltPipeline<T>, PipelineError>,
)
    requires
        call_ensures(PipelineBuilder::<T>::build, (builder,), result),
        result is Err,
    ensures
        builder.stages().len() == 0 ==> result->Err_0 is NoStages,
        builder.stages().len() > 0 ==> exists|k: int|
            {
                let first = builder.stages()[0];
                let stage = #[trigger] builder.stages()[k];
                &&& 0 <= k < builder.stages().len()
                &&& forall|j: int|
                    0 <= j < k ==> {
                        let before = #[trigger] builder.stages()[j];
                        &&& before.spec_vector_dim() == first.spec_vector_dim() >= 1
                        &&& before.spec_batch_size() == first.spec_batch_size() >= 1
                    }
                &&& if stage.spec_vector_dim() == 0 {
                    result->Err_0 is ZeroVectorDim
                } else if stage.spec_batch_size() == 0 {
                    result->Err_0 is ZeroBatchSize
                } else if stage.spec_vector_dim() != first.spec_vector_dim() {
                    &&& result->Err_0 matches PipelineError::VectorDimMismatch {
                        stage: name,
                        found,
                        expected,
                    }
                    &&& name@ == stage.spec_name()
                    &&& found == stage.spec_vector_dim()
                    &&& expected == first.spec_vector_dim()
                } else {
                    &&& stage.spec_batch_size() != first.spec_batch_size()
                    &&& result->Err_0 matches PipelineError::BatchSizeMismatch {
                        stage: name,
                        found,
                        expected,
                    }
                    &&& name@ == stage.spec_name()
                    &&& found == stage.spec_batch_size()
                    &&& expected == first.spec_batch_size()
                }
            },
{
    let stages = builder.stages();
    let error = result->Err_0;
    if stages.len() > 0 {
        let k = choose|i: int|
            0 <= i < stages.len() && !builder::stage_accepted(stages, i)
                && #[trigger] builder::stage_refusal(stages, i, error)
                && forall|j: int|
                0 <= j < i ==> #[trigger] builder::stage_accepted(stages, j);
        assert forall|j: int| 0 <= j < k implies {
            let before = #[trigger] stages[j];
            &&& before.spec_vector_dim() == stages[0].spec_vector_dim() >= 1
            &&& before.spec_batch_size() == stages[0].spec_batch_size() >= 1
        } by {
            assert(builder::stage_accepted(stages, j));
        }
        let stage = stages[k];
    }
}

/// A pipeline that was built has not ticked, takes its first input in the first
/// buffer, holds no data but what its stages came with, and knows nothing of its
/// buffers: two for the input and two for each stage, each of which holds one
/// batch. Compute pipelines are needed for standard stages, with the layouts that
/// these bring.
pub proof fn law_build_begins_anew<T>(
    builder: PipelineBuilder<T>,
    result: Result<BuiltPipeline<T>, PipelineError>,
    i: int,
    b: int,
)
    requires
        call_ensures(PipelineBuilder::<T>::build, (builder,), result),
        0 <= i < builder.stages().len(),
        0 <= b < 2 + 2 * builder.stages().len(),
    ensures
        result matches Ok(built) ==> {
            let p = built.pipeline@;
            &&& built.pipeline.wf()
            &&& p.tick_count == 0
            &&& p.current_set == 0
            &&& p.default_n == p.batch_size
            &&& p.tags.len() == p.kinds.len() == p.bind_groups.len() == builder.stages().len()
            &&& p.tags[i] == (match builder.stages()[i] {
                StageConfig::Standard { tag, .. } => tag,
                StageConfig::Custom { tag, .. } => tag,
            })
            &&& (match builder.stages()[i] {
                StageConfig::Standard { stage, .. } => p.kinds[i] == (StageKind::Standard {
                    stage,
                }),
                StageConfig::Custom { .. } => p.kinds[i] is Custom,
            })
            &&& !p.bind_groups[i]
            &&& p.metadata.len() == 2 + 2 * builder.stages().len()
            &&& p.metadata[b] is None
            &&& p.side_inputs.len() == 0
            &&& built.buffer_sizes@.len() == 2 + 2 * builder.stages().len()
            &&& built.buffer_sizes@[b] == p.batch_size * p.vector_dim * 4
            &&& built.resources@.len() == builder.stages().len()
            &&& built.resources@[i] == (match builder.stages()[i] {
                StageConfig::Standard { stage, .. } => StageResources {
                    compute_pipeline: true,
                    custom_layout: stage.bind_group_entries is Some,
                },
                StageConfig::Custom { .. } => StageResources {
                    compute_pipeline: false,
                    custom_layout: false,
                },
            })
        },
{
    if let Ok(built) = result {
        size::lemma_batch_scalars(built.pipeline@.batch_size, built.pipeline@.vector_dim);
    }
}

/// A pipeline is initialized with the context that was set for it, and with a
/// fresh one only where none was; it runs on that context from then on.
pub proof fn law_pipeline_runs_on_its_context<T>(
    built: &mut BuiltPipeline<T>,
    asked: &BuiltPipeline<T>,
    needed: bool,
    fresh: Option<Arc<ComputeContext>>,
    result: Result<(), PipelineError>,
    j: int,
)
    requires
        call_ensures(BuiltPipeline::<T>::needs_context, (asked,), needed),
        call_ensures(BuiltPipeline::<T>::initialize, (built, fresh), result),
        *asked == *old(built),
        old(built).pipeline.wf(),
        needed ==> fresh is Some,
        0 <= j < old(built).pipeline.stages().len(),
    ensures
        needed <==> old(built).context is None,
        final(built).context == if needed {
            fresh
        } else {
            old(built).context
        },
        result is Ok ==> settled(
            old(built).pipeline.stages()[j],
            final(built).pipeline.stages()[j],
            &*final(built).context->0,
            Ok(()),
        ),
        result matches Err(e) ==> (e matches PipelineError::Stage(own) && exists|k: int|
            {
                &&& 0 <= k < old(built).pipeline.stages().len()
                &&& old(built).pipeline.stages()[k] is Custom
                &&& settled(
                    old(built).pipeline.stages()[k],
                    #[trigger] final(built).pipeline.stages()[k],
                    &*final(built).context->0,
                    Err(own),
                )
            }),
        final(built).pipeline@ == old(built).pipeline@,
        final(built).buffer_sizes == old(built).buffer_sizes,
        final(built).resources == old(built).resources,
{
    lemma_initialized_in_turn(
        old(built).pipeline.stages(),
        final(built).pipeline.stages(),
        &*final(built).context->0,
        result,
    );
}

// ---- messages ----

/// The number that a sequence of decimal digits denotes.
pub open spec fn denoted(text: Seq<char>) -> nat
    decreases text.len(),
{
    if text.len() == 0 {
        0
    } else {
        denoted(text.drop_last()) * 10 + (text.last() as u32 - '0' as u32) as nat
    }
}

/// Numbers in messages are decimal: digits that denote the number, the first
/// of which is no zero but in zero itself.
pub proof fn law_numbers_are_decimal(n: nat)
    ensures
        error::decimal(n).len() > 0,
        denoted(error::decimal(n)) == n,
        forall|k: int|
            0 <= k < error::decimal(n).len() ==> '0' <= (#[trigger] error::decimal(n)[k]) <= '9',
        n > 0 ==> error::decimal(n)[0] != '0',
    decreases n,
{
    if n < 10 {
        let text = error::decimal(n);
        assert(text.drop_last() =~= Seq::<char>::empty());
        assert(denoted(text.drop_last()) == 0);
    } else {
        law_numbers_are_decimal(n / 10);
        let text = error::decimal(n);
        assert(text.drop_last() =~= error::decimal(n / 10));
        assert forall|k: int| 0 <= k < text.len() implies '0' <= (#[trigger] text[k]) <= '9' by {
            if k < text.len() - 1 {
                assert(text[k] == error::decimal(n / 10)[k]);
            }
        }
        assert(text[0] == error::decimal(n / 10)[0]);
    }
}

/// What each error says.
pub proof fn law_errors_say_what_is_wrong(
    error: &PipelineError,
    message: Option<String>,
)
    requires
        call_ensures(PipelineError::message, (error,), message),
    ensures
        message is None <==> error is Stage,
        message matches Some(m) ==> m@ == match error {
            PipelineError::ZeroVectorDim => "Vector dimension must be at least 1"@,
            PipelineError::ZeroBatchSize => "Batch size must be at least 1"@,
            PipelineError::NoStages => "Pipeline must have at least one stage"@,
            PipelineError::VectorDimMismatch { stage, found, expected } => {
                "All stages must have the same vector dimension. Stage '"@ + stage@ + "' has "@
                    + error::decimal(*found as nat) + ", expected "@ + error::decimal(
                    *expected as nat,
                ) + ""@
            },
            PipelineError::BatchSizeMismatch { stage, found, expected } => {
                "All stages must have the same batch size. Stage '"@ + stage@ + "' has "@
                    + error::decimal(*found as nat) + ", expected "@ + error::decimal(
                    *expected as nat,
                ) + ""@
            },
            PipelineError::EmptyInput => "Input data cannot be empty"@,
            PipelineError::PartialVector { bytes, element_size, vector_dim } => {
                "Input byte size "@ + error::decimal(*bytes as nat)
                    + " is not a multiple of element size "@ + error::decimal(
                    *element_size as nat,
                ) + " (vector_dim "@ + error::decimal(*vector_dim as nat) + " * F32_SIZE 4)"@
            },
            PipelineError::InputTooLarge { bytes, capacity } => {
                "Input size "@ + error::decimal(*bytes as nat)
                    + " bytes exceeds stage 0 buffer size "@ + error::decimal(*capacity as nat)
                    + " bytes"@
            },
            PipelineError::StageOutOfBounds { index, max } => {
                "Stage index "@ + error::decimal(*index as nat) + " out of bounds (max "@
                    + error::decimal(*max as nat) + ")"@
            },
            PipelineError::Stage(_) => m@,
        },
{
}

} // verus!
