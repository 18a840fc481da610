//! What holds of the calls on pipelines with one size per stage, said of their
//! arguments and results.

use std::sync::Arc;

use vstd::prelude::*;

use crate::error::PipelineError;
use crate::memory;
use crate::pipeline::builder::StageResources;
use crate::pipeline::ping_pong::TickEvent;
use crate::pipeline::pipeline_stage;
use crate::pipeline::pipeline_stage::{Notice, PipelineStage, StageConfig, StageKind};
use crate::pipeline::size;
use crate::pipeline::stage::Stage;
use crate::pipeline::stage_laws;
use crate::pipeline::variable_size;
use crate::pipeline::variable_size::{
    BuiltVariablePipeline, StageSizeConfig, VariableSizePipeline, VariableSizePipelineBuilder,
};
use crate::plan::{BindingEntry, BufferResize, InputWrite, Readback, StagePass, StageWork};
use crate::side_inputs::SideInputs;
use crate::wgpu_utils;
use crate::wgpu_utils::ComputeContext;

verus! {

// ---- what a stage does in a tick ----

/// The first stage reads the input that was written last, every other one the
/// member of the pair before its own that is not written in this tick; a stage
/// writes to its own pair. It is told of the data that it reads: as many vectors
/// as are known of that buffer, or else as many as its own buffers are to hold,
/// and the transform size that is known of it, or else the default one. Asking
/// changes nothing.
pub proof fn law_pass_of_a_stage<T>(
    p: &mut VariableSizePipeline<T>,
    i: usize,
    result: Result<StagePass, PipelineError>,
)
    requires
        call_ensures(VariableSizePipeline::<T>::stage_pass, (p, i), result),
        old(p).wf(),
        i < old(p)@.tags.len(),
    ensures
        final(p)@ == old(p)@,
        result matches Ok(pass) ==> {
            &&& pass.stage == i
            &&& pass.input == if i == 0 {
                1 - old(p)@.input_write_index
            } else {
                2 * i + (1 - old(p)@.output_index)
            }
            &&& pass.output == 2 * (i + 1) + old(p)@.output_index
            &&& (match old(p)@.metadata[pass.input as int] {
                Some(known) => pass.elements == known.elements && pass.n == known.n,
                None => pass.elements == old(p)@.output_batch_sizes[i as int] && pass.n == old(
                    p,
                )@.default_n,
            })
            &&& pass.work is Encode <==> old(p)@.kinds[i as int] is Custom
            &&& pass.work matches StageWork::Dispatch { create_bind_groups, .. }
                ==> create_bind_groups == !old(p)@.bind_groups[i as int]
        },
{
}

/// The workgroups that a stage dispatches cover all scalars that its output
/// buffers are to hold, and one workgroup fewer would not. Of more scalars than the
/// device can count, the low 32 bits count.
pub proof fn law_workgroups_cover_the_output<T>(
    p: &mut VariableSizePipeline<T>,
    i: usize,
    result: Result<StagePass, PipelineError>,
)
    requires
        call_ensures(VariableSizePipeline::<T>::stage_pass, (p, i), result),
        old(p).wf(),
        i < old(p)@.tags.len(),
    ensures
        result matches Ok(pass) ==> (pass.work matches StageWork::Dispatch { groups, .. } ==> ({
            let scalars = old(p)@.output_batch_sizes[i as int] * old(p)@.vector_dim;
            let counted = scalars % 0x1_0000_0000;
            groups * 64 >= counted && (groups - 1) * 64 < counted
        })),
{
    size::lemma_batch_scalars(old(p)@.output_batch_sizes[i as int], old(p)@.vector_dim);
}

/// What a stage writes, the next stage reads when the roles of the buffers were
/// exchanged.
pub proof fn law_passes_hand_on<T>(
    p: &mut VariableSizePipeline<T>,
    q: &mut VariableSizePipeline<T>,
    i: usize,
    first: Result<StagePass, PipelineError>,
    second: Result<StagePass, PipelineError>,
)
    requires
        call_ensures(VariableSizePipeline::<T>::stage_pass, (p, i), first),
        call_ensures(VariableSizePipeline::<T>::stage_pass, (q, (i + 1) as usize), second),
        old(p).wf(),
        old(q).wf(),
        old(q)@.tags.len() == old(p)@.tags.len(),
        old(q)@.output_index != old(p)@.output_index,
        i + 1 < old(p)@.tags.len(),
    ensures
        first matches Ok(a) ==> (second matches Ok(b) ==> b.input == a.output),
{
}

/// In one tick no stage writes what a stage reads, no two stages write the
/// same buffer, and all buffers are those of the pipeline.
pub proof fn law_passes_are_isolated<T>(
    p: &mut VariableSizePipeline<T>,
    q: &mut VariableSizePipeline<T>,
    i: usize,
    j: usize,
    first: Result<StagePass, PipelineError>,
    second: Result<StagePass, PipelineError>,
)
    requires
        call_ensures(VariableSizePipeline::<T>::stage_pass, (p, i), first),
        call_ensures(VariableSizePipeline::<T>::stage_pass, (q, j), second),
        old(p).wf(),
        old(q).wf(),
        old(q)@.tags.len() == old(p)@.tags.len(),
        old(q)@.output_index == old(p)@.output_index,
        old(q)@.input_write_index == old(p)@.input_write_index,
        i < old(p)@.tags.len(),
        j < old(p)@.tags.len(),
    ensures
        first matches Ok(a) ==> (second matches Ok(b) ==> {
            &&& a.output != b.input
            &&& i != j ==> a.output != b.output && a.input != b.input
            &&& a.input < old(p)@.buffer_sizes.len()
            &&& a.output < old(p)@.buffer_sizes.len()
        }),
{
}

/// A stage has two buffers of its own: in the next tick it writes the other
/// one, and neither is ever written by another stage.
pub proof fn law_stages_own_their_buffers<T>(
    p: &mut VariableSizePipeline<T>,
    q: &mut VariableSizePipeline<T>,
    i: usize,
    j: usize,
    first: Result<StagePass, PipelineError>,
    second: Result<StagePass, PipelineError>,
)
    requires
        call_ensures(VariableSizePipeline::<T>::stage_pass, (p, i), first),
        call_ensures(VariableSizePipeline::<T>::stage_pass, (q, j), second),
        old(p).wf(),
        old(q).wf(),
        old(q)@.tags.len() == old(p)@.tags.len(),
        i < old(p)@.tags.len(),
        j < old(p)@.tags.len(),
    ensures
        first matches Ok(a) ==> (second matches Ok(b) ==> {
            &&& i != j ==> a.output != b.output
            &&& i == j ==> (a.output == b.output <==> old(p)@.output_index == old(
                q,
            )@.output_index)
        }),
{
}

/// What is read after a tick is what the last stage wrote in it: all of that
/// buffer, with a copy of the tag of the tick that began last. Nothing can be
/// read before the first tick.
pub proof fn law_finished_output_is_read<T: Clone>(
    p: &mut VariableSizePipeline<T>,
    q: &VariableSizePipeline<T>,
    last: usize,
    result: Result<StagePass, PipelineError>,
    output: Option<(Option<T>, Readback)>,
)
    requires
        call_ensures(VariableSizePipeline::<T>::stage_pass, (p, last), result),
        call_ensures(VariableSizePipeline::<T>::read_output, (q,), output),
        old(p).wf(),
        q.wf(),
        last + 1 == old(p)@.tags.len(),
        q@.tags.len() == old(p)@.tags.len(),
        q@.output_index != old(p)@.output_index,
    ensures
        output is Some <==> q@.last_output_tag is Some,
        output matches Some((tag, readback)) ==> {
            &&& tag matches Some(copy) && cloned::<T>(q@.last_output_tag->0, copy)
            &&& readback.bytes == q@.buffer_sizes[readback.buffer as int]
            &&& readback.scalars == readback.bytes / 4
            &&& result matches Ok(pass) ==> readback.buffer == pass.output
        },
{
    let b = q@.finished_output();
    assert(q@.buffer_sizes[b] <= usize::MAX);
}

// ---- bind groups ----

/// The bind group that a stage dispatches with has the bindings that the
/// stage's layout lists, the one with the largest number bound to the buffer
/// that the stage writes in this tick, and every other one to the buffer that it
/// reads. A stage without a layout of its own has the bindings 0 and 1.
pub proof fn law_bind_group_of_a_pass<T>(
    p: &mut VariableSizePipeline<T>,
    q: &VariableSizePipeline<T>,
    i: usize,
    input_variant: usize,
    output_state: usize,
    result: Result<StagePass, PipelineError>,
    entries: Vec<BindingEntry>,
)
    requires
        call_ensures(VariableSizePipeline::<T>::stage_pass, (p, i), result),
        call_ensures(
            VariableSizePipeline::<T>::create_bind_group_for_stage,
            (q, i, input_variant, output_state),
            entries,
        ),
        old(p).wf(),
        i < old(p)@.tags.len(),
        q@ == old(p)@,
        result matches Ok(pass) && (pass.work matches StageWork::Dispatch {
            input_variant: v,
            output_state: s,
            ..
        } && v == input_variant && s == output_state),
    ensures
        input_variant <= 1 && output_state <= 1,
        old(p)@.kinds[i as int] matches StageKind::Standard { stage } && {
            &&& stage.bind_group_entries matches Some(layout) ==> {
                &&& entries@.len() == layout@.len()
                &&& forall|k: int|
                    0 <= k < layout@.len() ==> (#[trigger] entries@[k]).binding
                        == wgpu_utils::entry_binding(layout@[k])
            }
            &&& stage.bind_group_entries is None ==> {
                &&& entries@.len() == 2
                &&& entries@[0].binding == 0
                &&& entries@[1].binding == 1
            }
        },
        forall|k: int|
            0 <= k < entries@.len() && (forall|m: int|
                0 <= m < entries@.len() ==> (#[trigger] entries@[m]).binding
                    <= entries@[k].binding) ==> (#[trigger] entries@[k]).buffer
                == result->Ok_0.output,
        forall|k: int, m: int|
            0 <= k < entries@.len() && 0 <= m < entries@.len() && (
            #[trigger] entries@[k]).binding < (#[trigger] entries@[m]).binding
                ==> entries@[k].buffer == result->Ok_0.input,
{
    let bindings = match old(p)@.kinds[i as int] {
        StageKind::Standard { stage } => stage.spec_bindings(),
        StageKind::Custom => seq![0u32, 1u32],
    };
    assert(entries@.len() == bindings.len());
    assert forall|k: int| 0 <= k < entries@.len() implies (#[trigger] entries@[k]).binding
        == bindings[k] by {}
    assert forall|k: int|
        0 <= k < entries@.len() && (forall|m: int|
            0 <= m < entries@.len() ==> (#[trigger] entries@[m]).binding
                <= entries@[k].binding) implies (#[trigger] entries@[k]).buffer
        == result->Ok_0.output by {
        assert forall|j: int| 0 <= j < bindings.len() implies !(bindings[k]
            < #[trigger] bindings[j]) by {
            assert(entries@[j].binding <= entries@[k].binding);
        }
    }
    assert forall|k: int, m: int|
        0 <= k < entries@.len() && 0 <= m < entries@.len() && (#[trigger] entries@[k]).binding < (
        #[trigger] entries@[m]).binding implies entries@[k].buffer == result->Ok_0.input by {
        assert(bindings[k] < bindings[m]);
    }
}

/// Any bind group of a stage binds the member of the pair before the stage's own
/// pair that was asked for, but for the largest number, which is the member of its
/// own pair that was asked for. The bindings are those of the layout of a standard
/// stage, or else 0 and 1.
pub proof fn law_bind_group_members<T>(
    p: &VariableSizePipeline<T>,
    i: usize,
    variant: usize,
    state: usize,
    entries: Vec<BindingEntry>,
    k: int,
)
    requires
        call_ensures(
            VariableSizePipeline::<T>::create_bind_group_for_stage,
            (p, i, variant, state),
            entries,
        ),
        p.wf(),
        i < p@.tags.len(),
        variant <= 1,
        state <= 1,
        0 <= k < entries@.len(),
    ensures
        match p@.kinds[i as int] {
            StageKind::Standard { stage } if stage.bind_group_entries is Some => {
                &&& entries@.len() == stage.bind_group_entries->0@.len()
                &&& entries@[k].binding == wgpu_utils::entry_binding(
                    stage.bind_group_entries->0@[k],
                )
            },
            _ => entries@.len() == 2 && entries@[k].binding == k,
        },
        entries@[k].buffer == 2 * i + variant || entries@[k].buffer == 2 * (i + 1) + state,
        entries@[k].buffer == 2 * (i + 1) + state <==> forall|m: int|
            0 <= m < entries@.len() ==> (#[trigger] entries@[m]).binding <= entries@[k].binding,
{
    let bindings = match p@.kinds[i as int] {
        StageKind::Standard { stage } => stage.spec_bindings(),
        StageKind::Custom => seq![0u32, 1u32],
    };
    assert(entries@.len() == bindings.len());
    assert forall|m: int| 0 <= m < entries@.len() implies (#[trigger] entries@[m]).binding
        == bindings[m] by {}
    if forall|m: int|
        0 <= m < entries@.len() ==> (#[trigger] entries@[m]).binding <= entries@[k].binding {
        assert forall|j: int| 0 <= j < bindings.len() implies !(bindings[k]
            < #[trigger] bindings[j]) by {
            assert(entries@[j].binding <= entries@[k].binding);
        }
    } else {
        let m = choose|m: int|
            0 <= m < entries@.len() && !((#[trigger] entries@[m]).binding <= entries@[k].binding);
        assert(bindings[k] < bindings[m]);
    }
}

// ---- input ----

/// Input is refused where the first stage, or the buffer that is written next,
/// has no room for it, or where it does not consist of whole vectors, and
/// nowhere else; what is refused changes nothing. Other input is written, all of
/// it, to one input buffer after the other, and the first stage reads it from
/// then on.
pub proof fn law_input_is_validated_and_read<T, D>(
    p: &mut VariableSizePipeline<T>,
    q: &mut VariableSizePipeline<T>,
    data: &[D],
    result: Result<InputWrite, PipelineError>,
    told: Result<StagePass, PipelineError>,
)
    requires
        call_ensures(VariableSizePipeline::<T>::write_input::<D>, (p, data), result),
        call_ensures(VariableSizePipeline::<T>::stage_pass, (q, 0usize), told),
        old(p).wf(),
        old(q).wf(),
        old(q)@ == final(p)@,
        data@.len() * vstd::layout::size_of::<D>() <= usize::MAX,
    ensures
        ({
            let bytes = data@.len() * vstd::layout::size_of::<D>();
            let room = old(p)@.output_batch_sizes[0] * old(p)@.vector_dim * 4;
            let buffer = old(p)@.buffer_sizes[old(p)@.input_write_index as int];
            let element_size = old(p)@.vector_dim * 4;
            let whole = element_size == 0 || bytes as int % element_size == 0;
            &&& result is Ok <==> bytes <= room && bytes <= buffer && whole
            &&& result matches Err(e) ==> final(p)@ == old(p)@ && if bytes > room || bytes
                > buffer {
                &&& e matches PipelineError::InputTooLarge { bytes: asked, capacity }
                &&& asked == bytes
                &&& capacity == if bytes > room {
                    room
                } else {
                    buffer as int
                }
            } else {
                &&& e matches PipelineError::PartialVector {
                    bytes: asked,
                    element_size: vector,
                    vector_dim,
                }
                &&& asked == bytes
                &&& vector == element_size
                &&& vector_dim == old(p)@.vector_dim
            }
            &&& result matches Ok(write) ==> {
                &&& write.buffer == old(p)@.input_write_index
                &&& write.bytes == bytes
                &&& final(p)@.input_write_index != old(p)@.input_write_index
                &&& told matches Ok(pass) ==> pass.input == write.buffer
            }
        }),
        final(p)@.output_batch_sizes == old(p)@.output_batch_sizes,
        final(p)@.buffer_sizes == old(p)@.buffer_sizes,
        final(p)@.tick_count == old(p)@.tick_count,
        final(p)@.output_index == old(p)@.output_index,
        final(p)@.default_n == old(p)@.default_n,
        final(p)@.tags == old(p)@.tags,
        final(p)@.last_output_tag == old(p)@.last_output_tag,
        final(p)@.kinds == old(p)@.kinds,
        final(p)@.bind_groups == old(p)@.bind_groups,
        final(p)@.metadata == old(p)@.metadata,
        final(p)@.vector_dim == old(p)@.vector_dim,
        final(p).stages() == old(p).stages(),
{
    size::lemma_batch_scalars(old(p)@.output_batch_sizes[0], old(p)@.vector_dim);
    assert(old(p)@.buffer_sizes[old(p)@.input_write_index as int] <= usize::MAX);
    assert(size::batch_bytes(old(p)@.output_batch_sizes[0], old(p)@.vector_dim) <= usize::MAX);
}

// ---- a tick ----

/// When a tick begins, every tag moves on by one stage, a copy of the new one
/// enters at the first, the output has the tag itself, and nothing else changes.
pub proof fn law_tick_moves_tags_on<T: Clone>(p: &mut VariableSizePipeline<T>, tag: T, i: int)
    requires
        call_ensures(VariableSizePipeline::<T>::tick, (p, tag), ()),
        old(p).wf(),
        0 <= i < old(p)@.tags.len(),
    ensures
        final(p)@.tags.len() == old(p)@.tags.len(),
        i > 0 ==> final(p)@.tags[i] == old(p)@.tags[i - 1],
        final(p)@.tags[0] matches Some(copy) && cloned::<T>(tag, copy),
        final(p)@.last_output_tag == Some(tag),
        final(p)@.output_batch_sizes == old(p)@.output_batch_sizes,
        final(p)@.buffer_sizes == old(p)@.buffer_sizes,
        final(p)@.tick_count == old(p)@.tick_count,
        final(p)@.output_index == old(p)@.output_index,
        final(p)@.input_write_index == old(p)@.input_write_index,
        final(p)@.default_n == old(p)@.default_n,
        final(p)@.kinds == old(p)@.kinds,
        final(p)@.bind_groups == old(p)@.bind_groups,
        final(p)@.metadata == old(p)@.metadata,
        final(p)@.vector_dim == old(p)@.vector_dim,
{
}

/// What is known of the data that a stage reads is known of what it writes,
/// and of no other buffer anything new. A standard stage has its bind groups
/// from then on.
pub proof fn law_knowledge_goes_with_the_data<T>(
    p: &mut VariableSizePipeline<T>,
    q: &mut VariableSizePipeline<T>,
    i: usize,
    result: Result<StagePass, PipelineError>,
    b: int,
)
    requires
        call_ensures(VariableSizePipeline::<T>::stage_pass, (p, i), result),
        call_ensures(VariableSizePipeline::<T>::stage_encoded, (q, i), ()),
        old(p).wf(),
        old(q)@ == old(p)@,
        i < old(p)@.tags.len(),
        0 <= b < old(p)@.metadata.len(),
    ensures
        final(q)@.metadata.len() == old(p)@.metadata.len(),
        result matches Ok(pass) ==> final(q)@.metadata[b] == if b == pass.output {
            old(p)@.metadata[pass.input as int]
        } else {
            old(p)@.metadata[b]
        },
        forall|j: int|
            0 <= j < old(p)@.tags.len() ==> (#[trigger] final(q)@.bind_groups[j]) == (
            old(p)@.bind_groups[j] || j == i && !(old(p)@.kinds[j] is Custom)),
        final(q)@.bind_groups.len() == old(p)@.bind_groups.len(),
        final(q)@.output_batch_sizes == old(p)@.output_batch_sizes,
        final(q)@.buffer_sizes == old(p)@.buffer_sizes,
        final(q)@.tick_count == old(p)@.tick_count,
        final(q)@.output_index == old(p)@.output_index,
        final(q)@.input_write_index == old(p)@.input_write_index,
        final(q)@.default_n == old(p)@.default_n,
        final(q)@.tags == old(p)@.tags,
        final(q)@.last_output_tag == old(p)@.last_output_tag,
        final(q)@.kinds == old(p)@.kinds,
        final(q)@.vector_dim == old(p)@.vector_dim,
        final(q).stages() == old(q).stages(),
{
    assert(old(p)@.kinds[i as int] is Standard || old(p)@.kinds[i as int] is Custom);
}

/// When a tick ends, the roles of the output buffers are exchanged, and the tick
/// is counted unless the device could not be waited for. Nothing else changes.
pub proof fn law_tick_ends<T>(p: &mut VariableSizePipeline<T>, event: TickEvent)
    requires
        call_ensures(VariableSizePipeline::<T>::finish_tick, (p, event), ()),
        old(p).wf(),
        old(p)@.tick_count < u64::MAX,
    ensures
        final(p)@.output_index + old(p)@.output_index == 1,
        final(p)@.tick_count == old(p)@.tick_count + if event is PollFailed {
            0int
        } else {
            1
        },
        final(p)@.output_batch_sizes == old(p)@.output_batch_sizes,
        final(p)@.buffer_sizes == old(p)@.buffer_sizes,
        final(p)@.input_write_index == old(p)@.input_write_index,
        final(p)@.default_n == old(p)@.default_n,
        final(p)@.tags == old(p)@.tags,
        final(p)@.last_output_tag == old(p)@.last_output_tag,
        final(p)@.kinds == old(p)@.kinds,
        final(p)@.bind_groups == old(p)@.bind_groups,
        final(p)@.metadata == old(p)@.metadata,
        final(p)@.vector_dim == old(p)@.vector_dim,
        final(p).stages() == old(p).stages(),
{
}

/// In a tick a custom stage is told how many vectors its data has, and then the
/// transform size, which are those of its pass. A standard stage, and every
/// other stage, stays as it is, and no stage changes its size.
pub proof fn law_stage_is_told_of_its_data<T>(
    p: &mut VariableSizePipeline<T>,
    i: usize,
    result: Result<StagePass, PipelineError>,
    elements: usize,
    n: usize,
    j: int,
)
    requires
        call_ensures(VariableSizePipeline::<T>::stage_pass, (p, i), result),
        old(p).wf(),
        i < old(p)@.tags.len(),
        old(p).stages().len() == old(p)@.tags.len(),
        (elements, n) == match old(p)@.metadata[if i == 0 {
            1 - old(p)@.input_write_index
        } else {
            2 * i + (1 - old(p)@.output_index)
        }] {
            Some(known) => (known.elements, known.n),
            None => (old(p)@.output_batch_sizes[i as int], old(p)@.default_n),
        },
        0 <= j < old(p).stages().len(),
    ensures
        j != i ==> final(p).stages()[j] == old(p).stages()[j],
        final(p).stages()[j].output_batch_size == old(p).stages()[j].output_batch_size,
        final(p).stages()[j].vector_dim == old(p).stages()[j].vector_dim,
        old(p).stages()[i as int].config is Standard ==> result is Ok
            && final(p).stages()[i as int] == old(p).stages()[i as int],
        old(p).stages()[i as int].config is Custom ==> match result {
            Ok(pass) => exists|between: StageConfig<T>|
                #[trigger] stage_laws::went(
                    old(p).stages()[i as int].config,
                    between,
                    Notice::TotalElements { elements },
                    Ok(()),
                ) && stage_laws::went(
                    between,
                    final(p).stages()[i as int].config,
                    Notice::N { n },
                    Ok(()),
                ) && pass.elements == elements && pass.n == n,
            Err(e) => e matches PipelineError::Stage(own) && ({
                ||| stage_laws::went(
                    old(p).stages()[i as int].config,
                    final(p).stages()[i as int].config,
                    Notice::TotalElements { elements },
                    Err(own),
                )
                ||| exists|between: StageConfig<T>|
                    #[trigger] stage_laws::went(
                        old(p).stages()[i as int].config,
                        between,
                        Notice::TotalElements { elements },
                        Ok(()),
                    ) && stage_laws::went(
                        between,
                        final(p).stages()[i as int].config,
                        Notice::N { n },
                        Err(own),
                    )
            }),
        },
{
    let was = old(p).stages()[i as int].config;
    let now = final(p).stages()[i as int].config;
    let told = match result {
        Ok(_) => Ok::<(), PipelineError>(()),
        Err(e) => Err(e),
    };
    let pass = old(p)@.pass(i as int);
    assert(now.briefed(&was, pass.elements, pass.n, told));
    now.lemma_briefed(&was, pass.elements, pass.n, told);
    if was is Custom {
        if told is Err && now.told(&was, Notice::TotalElements { elements: pass.elements }, told) {
            assert(stage_laws::went(
                was,
                now,
                Notice::TotalElements { elements: pass.elements },
                pipeline_stage::answer_of(told),
            ));
        } else {
            let between = choose|between: StageConfig<T>|
                #[trigger] between.told(
                    &was,
                    Notice::TotalElements { elements: pass.elements },
                    Ok(()),
                ) && now.told(&between, Notice::N { n: pass.n }, told);
            assert(stage_laws::went(
                was,
                between,
                Notice::TotalElements { elements: pass.elements },
                Ok(()),
            ));
            assert(stage_laws::went(
                between,
                now,
                Notice::N { n: pass.n },
                pipeline_stage::answer_of(told),
            ));
        }
    }
}

/// Ticks move tags and nothing else of the stages: after a tick began, every stage
/// is the one that it was, with the tag that the pipeline has for it, and has the
/// size that it had.
pub proof fn law_ticks_keep_the_stages<T: Clone>(p: &mut VariableSizePipeline<T>, tag: T, j: int)
    requires
        call_ensures(VariableSizePipeline::<T>::tick, (p, tag), ()),
        old(p).wf(),
        0 <= j < old(p).stages().len(),
    ensures
        final(p).stages().len() == old(p).stages().len(),
        final(p).stages()[j].output_batch_size == old(p).stages()[j].output_batch_size,
        final(p).stages()[j].vector_dim == old(p).stages()[j].vector_dim,
        match old(p).stages()[j].config {
            StageConfig::Standard { stage, .. } => final(p).stages()[j].config == (
            StageConfig::<T>::Standard { stage, tag: final(p)@.tags[j] }),
            StageConfig::Custom { stage, .. } => {
                &&& final(p).stages()[j].config matches StageConfig::Custom {
                    stage: same,
                    tag: held,
                }
                &&& same == stage
                &&& held == final(p)@.tags[j]
            },
        },
{
}

/// What a pipeline reports is what it is: how many stages it has, its completed
/// ticks, whether a tick began, no side inputs, and each stage with its sizes and
/// the tag that is in it.
pub proof fn law_reports<T>(
    p: &VariableSizePipeline<T>,
    count: usize,
    ticks: u64,
    has: bool,
    i: usize,
    sized: &StageSizeConfig<T>,
    inputs: &SideInputs<Arc<wgpu::Buffer>>,
)
    requires
        call_ensures(VariableSizePipeline::<T>::num_stages, (p,), count),
        call_ensures(VariableSizePipeline::<T>::tick_count, (p,), ticks),
        call_ensures(VariableSizePipeline::<T>::has_output, (p,), has),
        call_ensures(VariableSizePipeline::<T>::stage_config, (p, i), sized),
        call_ensures(VariableSizePipeline::<T>::side_inputs, (p,), inputs),
        p.wf(),
        i < p@.tags.len(),
    ensures
        count == p@.tags.len(),
        ticks == p@.tick_count,
        has <==> p@.last_output_tag is Some,
        inputs@.len() == 0,
        *sized == p.stages()[i as int],
        sized.output_batch_size == p@.output_batch_sizes[i as int],
        sized.vector_dim == p@.vector_dim,
        match sized.config {
            StageConfig::Standard { stage, tag } => {
                &&& p@.tags[i as int] == tag
                &&& p@.kinds[i as int] == (StageKind::Standard { stage })
            },
            StageConfig::Custom { tag, .. } => {
                &&& p@.tags[i as int] == tag
                &&& p@.kinds[i as int] is Custom
            },
        },
{
}

/// A stage with its size is what it was made of, has the name of its stage, and
/// counts four bytes per scalar; a copy is the same stage with the same sizes.
pub proof fn law_sized_stage<T: Clone>(
    config: StageConfig<T>,
    output_batch_size: usize,
    vector_dim: usize,
    sized: StageSizeConfig<T>,
    name: &str,
    element_size: usize,
    buffer_size: u64,
    copy: StageSizeConfig<T>,
)
    requires
        call_ensures(
            StageSizeConfig::<T>::new,
            (config, output_batch_size, vector_dim),
            sized,
        ),
        call_ensures(StageSizeConfig::<T>::name, (&sized,), name),
        call_ensures(StageSizeConfig::<T>::element_size, (&sized,), element_size),
        call_ensures(StageSizeConfig::<T>::buffer_size, (&sized,), buffer_size),
        call_ensures(StageSizeConfig::<T>::clone, (&sized,), copy),
        config is Standard,
    ensures
        sized.config == config,
        sized.output_batch_size == output_batch_size,
        sized.vector_dim == vector_dim,
        name@ == config->Standard_stage.name@,
        element_size == vector_dim * 4,
        buffer_size == output_batch_size * vector_dim * 4,
        copy.output_batch_size == output_batch_size,
        copy.vector_dim == vector_dim,
        copy.config matches StageConfig::Standard { stage: same, tag: held } && {
            let stage = config->Standard_stage;
            let tag = config->Standard_tag;
            &&& same.name@ == stage.name@
            &&& stage_laws::copied(Stage { name: same.name, ..stage }, same)
            &&& (match tag {
                Some(t) => held matches Some(h) && cloned::<T>(t, h),
                None => held is None,
            })
        },
{
    size::lemma_batch_scalars(output_batch_size, vector_dim);
}

// ---- sizes ----

/// A resize of one buffer of a pair is refused past the last pair. Otherwise it
/// names the buffer of that pair that is not written next, the new size, and a
/// copy of as many bytes as both the old and the new buffer have.
pub proof fn law_resize_spares_what_is_written_next<T>(
    p: &VariableSizePipeline<T>,
    pair: usize,
    batch_size: usize,
    result: Result<BufferResize, PipelineError>,
)
    requires
        call_ensures(VariableSizePipeline::<T>::resize_stage, (p, pair, batch_size), result),
        p.wf(),
        batch_size * p@.vector_dim * 4 <= usize::MAX,
    ensures
        result is Err <==> pair > p@.tags.len(),
        result matches Err(e) ==> (e matches PipelineError::StageOutOfBounds { index, max }
            && index == pair && max == p@.tags.len()),
        result matches Ok(resize) ==> {
            let next = if pair == 0 {
                p@.input_write_index as int
            } else {
                2 * pair + p@.output_index
            };
            let old_size = p@.buffer_sizes[resize.index as int];
            &&& 2 * pair <= resize.index <= 2 * pair + 1
            &&& resize.index != next
            &&& resize.new_size == batch_size * p@.vector_dim * 4
            &&& resize.copy_size <= old_size
            &&& resize.copy_size <= resize.new_size
            &&& resize.copy_size == old_size || resize.copy_size == resize.new_size
        },
{
    size::lemma_batch_scalars(batch_size, p@.vector_dim);
    if pair <= p@.tags.len() {
        assert(p@.buffer_sizes[p@.resting_buffer(pair as int)] <= usize::MAX);
    }
}

/// A resize of both buffers of a pair is refused past the last pair. Otherwise
/// it names both, the new size, and for each a copy of as many bytes as both the
/// old and the new buffer have.
pub proof fn law_resize_of_both_migrates<T>(
    p: &VariableSizePipeline<T>,
    pair: usize,
    batch_size: usize,
    result: Result<Vec<BufferResize>, PipelineError>,
    k: int,
)
    requires
        call_ensures(VariableSizePipeline::<T>::resize_stage_both, (p, pair, batch_size), result),
        p.wf(),
        batch_size * p@.vector_dim * 4 <= usize::MAX,
        0 <= k < 2,
    ensures
        result is Err <==> pair > p@.tags.len(),
        result matches Err(e) ==> (e matches PipelineError::StageOutOfBounds { index, max }
            && index == pair && max == p@.tags.len()),
        result matches Ok(resizes) ==> {
            let resize = resizes@[k];
            let old_size = p@.buffer_sizes[2 * pair + k];
            &&& resizes@.len() == 2
            &&& resize.index == 2 * pair + k
            &&& resize.new_size == batch_size * p@.vector_dim * 4
            &&& resize.copy_size <= old_size
            &&& resize.copy_size <= resize.new_size
            &&& resize.copy_size == old_size || resize.copy_size == resize.new_size
        },
{
    size::lemma_batch_scalars(batch_size, p@.vector_dim);
    if pair <= p@.tags.len() {
        assert(p@.buffer_sizes[2 * pair + k] <= usize::MAX);
    }
}

/// Replacing a buffer as a resize says keeps all data that fits: it has the new
/// size, and holds its old scalars as far as it reaches, then zeros.
pub proof fn law_migration_keeps_what_fits<E>(
    contents: Seq<E>,
    resize: BufferResize,
    batch_size: usize,
    vector_dim: usize,
    zero: E,
)
    requires
        resize.new_size == batch_size * vector_dim * 4,
        resize.copy_size <= contents.len() * 4,
        resize.copy_size <= resize.new_size,
        resize.copy_size == contents.len() * 4 || resize.copy_size == resize.new_size,
    ensures
        ({
            let after = memory::replaced(contents, resize, zero);
            &&& after.len() == batch_size * vector_dim
            &&& forall|k: int|
                0 <= k < after.len() ==> (#[trigger] after[k]) == if k < contents.len() {
                    contents[k]
                } else {
                    zero
                }
        }),
{
    let after = memory::replaced(contents, resize, zero);
    let copied = (resize.copy_size / 4) as int;
    assert(copied == contents.len() || copied == batch_size * vector_dim);
}

/// Once a buffer of a pair is replaced, or both are, the stage that the pair
/// belongs to has the new size, and every other stage exactly the one that it
/// had: the input pair belongs to the first stage, every other pair to the stage
/// that writes it. Only replaced buffers have another size, and nothing is known
/// of the data in them.
pub proof fn law_resize_of_one_stage<T>(
    p: &mut VariableSizePipeline<T>,
    q: &mut VariableSizePipeline<T>,
    planned: &VariableSizePipeline<T>,
    pair: usize,
    batch_size: usize,
    resize: Result<BufferResize, PipelineError>,
    j: int,
    b: int,
)
    requires
        call_ensures(VariableSizePipeline::<T>::resize_stage, (planned, pair, batch_size), resize),
        call_ensures(VariableSizePipeline::<T>::complete_resize_stage, (p, pair, batch_size), ()),
        call_ensures(
            VariableSizePipeline::<T>::complete_resize_stage_both,
            (q, pair, batch_size),
            (),
        ),
        old(p).wf(),
        *old(q) == *old(p),
        *planned == *old(p),
        pair <= old(p)@.tags.len(),
        batch_size * old(p)@.vector_dim * 4 <= usize::MAX,
        0 <= j < old(p)@.tags.len(),
        0 <= b < old(p)@.buffer_sizes.len(),
    ensures
        ({
            let belongs = if pair == 0 {
                j == 0
            } else {
                j == pair - 1
            };
            let size = if belongs {
                batch_size
            } else {
                old(p)@.output_batch_sizes[j]
            };
            &&& final(p)@.output_batch_sizes.len() == old(p)@.output_batch_sizes.len()
            &&& final(q)@.output_batch_sizes.len() == old(p)@.output_batch_sizes.len()
            &&& final(p)@.output_batch_sizes[j] == size
            &&& final(q)@.output_batch_sizes[j] == size
        }),
        resize matches Ok(r) ==> {
            let one = b == r.index;
            let both = b == 2 * pair || b == 2 * pair + 1;
            let bytes = batch_size * old(p)@.vector_dim * 4;
            &&& final(p)@.buffer_sizes.len() == old(p)@.buffer_sizes.len()
            &&& final(q)@.buffer_sizes.len() == old(p)@.buffer_sizes.len()
            &&& final(p)@.buffer_sizes[b] == if one {
                bytes
            } else {
                old(p)@.buffer_sizes[b] as int
            }
            &&& final(q)@.buffer_sizes[b] == if both {
                bytes
            } else {
                old(p)@.buffer_sizes[b] as int
            }
            &&& final(p)@.metadata[b] == if one {
                None
            } else {
                old(p)@.metadata[b]
            }
            &&& final(q)@.metadata[b] == if both {
                None
            } else {
                old(p)@.metadata[b]
            }
        },
{
    size::lemma_batch_scalars(batch_size, old(p)@.vector_dim);
}

/// A resize of one stage changes nothing but sizes, what is known of replaced
/// buffers, and bind groups: those of the stage that the pair belongs to, and of
/// all later stages, have to be created anew, and those of earlier stages stay.
pub proof fn law_resize_of_one_stage_keeps_the_rest<T>(
    p: &mut VariableSizePipeline<T>,
    pair: usize,
    batch_size: usize,
    j: int,
)
    requires
        call_ensures(VariableSizePipeline::<T>::complete_resize_stage, (p, pair, batch_size), ())
            || call_ensures(
            VariableSizePipeline::<T>::complete_resize_stage_both,
            (p, pair, batch_size),
            (),
        ),
        old(p).wf(),
        pair <= old(p)@.tags.len(),
        0 <= j < old(p)@.tags.len(),
        old(p).stages().len() == old(p)@.tags.len(),
    ensures
        final(p)@.bind_groups[j] == (j + 1 < pair && old(p)@.bind_groups[j]),
        final(p)@.bind_groups.len() == old(p)@.bind_groups.len(),
        final(p)@.tick_count == old(p)@.tick_count,
        final(p)@.output_index == old(p)@.output_index,
        final(p)@.input_write_index == old(p)@.input_write_index,
        final(p)@.default_n == old(p)@.default_n,
        final(p)@.tags == old(p)@.tags,
        final(p)@.last_output_tag == old(p)@.last_output_tag,
        final(p)@.kinds == old(p)@.kinds,
        final(p)@.vector_dim == old(p)@.vector_dim,
        final(p).stages().len() == old(p).stages().len(),
        final(p).stages()[j].config == old(p).stages()[j].config,
        final(p).stages()[j].vector_dim == old(p).stages()[j].vector_dim,
        final(p).stages()[j].output_batch_size == if j + 1 == pair || j == 0 && pair == 0 {
            batch_size
        } else {
            old(p).stages()[j].output_batch_size
        },
{
}

/// Sizes that a pipeline reports are those of its stages and buffers: the size
/// that the output of a stage is to have, that of the first stage for input, and
/// the vectors that both buffers of a pair hold.
pub proof fn law_reported_sizes<T>(
    p: &VariableSizePipeline<T>,
    i: usize,
    bytes: u64,
    input_bytes: u64,
    pair: usize,
    sizes: (usize, usize),
    write_bytes: u64,
    output_bytes: u64,
)
    requires
        call_ensures(VariableSizePipeline::<T>::stage_output_buffer_size, (p, i), bytes),
        call_ensures(VariableSizePipeline::<T>::input_buffer_size, (p,), input_bytes),
        call_ensures(VariableSizePipeline::<T>::get_stage_buffer_sizes, (p, pair), sizes),
        call_ensures(VariableSizePipeline::<T>::write_buffer_size, (p,), write_bytes),
        call_ensures(VariableSizePipeline::<T>::output_buffer_size, (p,), output_bytes),
        p.wf(),
        i < p@.tags.len(),
        pair <= p@.tags.len(),
        p@.vector_dim > 0,
    ensures
        bytes == p@.output_batch_sizes[i as int] * p@.vector_dim * 4,
        input_bytes == p@.output_batch_sizes[0] * p@.vector_dim * 4,
        sizes.0 == p@.buffer_sizes[2 * pair] as int / (p@.vector_dim * 4),
        sizes.1 == p@.buffer_sizes[2 * pair + 1] as int / (p@.vector_dim * 4),
        write_bytes == p@.buffer_sizes[p@.input_write_index as int],
        output_bytes == p@.buffer_sizes[2 * p@.tags.len() + (1 - p@.output_index)],
{
    size::lemma_batch_scalars(p@.output_batch_sizes[i as int], p@.vector_dim);
    size::lemma_batch_scalars(p@.output_batch_sizes[0], p@.vector_dim);
}

// ---- building ----

/// Stages are built in the order in which they were piped, with the sizes that
/// they were piped with, and a context that was set stays set.
pub proof fn law_pipes_append<T>(
    empty: VariableSizePipelineBuilder<T>,
    builder: VariableSizePipelineBuilder<T>,
    stage: Stage,
    output_batch_size: usize,
    piped: VariableSizePipelineBuilder<T>,
    context: Arc<ComputeContext>,
    shared: VariableSizePipelineBuilder<T>,
    j: int,
)
    requires
        call_ensures(VariableSizePipelineBuilder::<T>::new, (), empty) || call_ensures(
            VariableSizePipelineBuilder::<T>::default,
            (),
            empty,
        ) || call_ensures(VariableSizePipeline::<T>::builder, (), empty),
        call_ensures(
            VariableSizePipelineBuilder::<T>::pipe_with_size,
            (builder, stage, output_batch_size),
            piped,
        ),
        call_ensures(VariableSizePipelineBuilder::<T>::with_context, (builder, context), shared),
        0 <= j < builder.stage_configs@.len(),
    ensures
        empty.stage_configs@.len() == 0,
        empty.context is None,
        piped.stage_configs@.len() == builder.stage_configs@.len() + 1,
        piped.stage_configs@[j] == builder.stage_configs@[j],
        piped.stage_configs@[builder.stage_configs@.len() as int] == (StageSizeConfig {
            config: StageConfig::<T>::Standard { stage, tag: None },
            output_batch_size,
            vector_dim: stage.vector_dim,
        }),
        piped.context == builder.context,
        shared.stage_configs == builder.stage_configs,
        shared.context == Some(context),
{
}

/// Custom stages are piped in turn with the others, as they were given, without a
/// tag and with the vector dimension that they say.
pub proof fn law_pipes_append_custom_stages<T>(
    given: (VariableSizePipelineBuilder<T>, Box<dyn PipelineStage>, usize),
    piped: VariableSizePipelineBuilder<T>,
    j: int,
)
    requires
        call_ensures(VariableSizePipelineBuilder::<T>::pipe_custom_with_size, given, piped),
        0 <= j < given.0.stage_configs@.len(),
    ensures
        ({
            let builder = given.0;
            let last = piped.stage_configs@[builder.stage_configs@.len() as int];
            &&& piped.stage_configs@.len() == builder.stage_configs@.len() + 1
            &&& piped.stage_configs@[j] == builder.stage_configs@[j]
            &&& last.config matches StageConfig::Custom { stage, tag }
            &&& stage == given.1
            &&& tag is None
            &&& last.output_batch_size == given.2
            &&& last.vector_dim == given.1.spec_vector_dim()
            &&& piped.context == builder.context
        }),
{
    assert(piped.stage_configs@.drop_last()[j] == given.0.stage_configs@[j]);
}

/// A build succeeds exactly where there is a stage and any two stages have the
/// same vector dimension; one that fails names the first stage of another
/// dimension than the first.
pub proof fn law_build_demands_one_dimension<T>(
    builder: VariableSizePipelineBuilder<T>,
    result: Result<BuiltVariablePipeline<T>, PipelineError>,
)
    requires
        call_ensures(VariableSizePipelineBuilder::<T>::build, (builder,), result),
    ensures
        result is Ok <==> builder.stage_configs@.len() >= 1 && forall|i: int, j: int|
            0 <= i < builder.stage_configs@.len() && 0 <= j < builder.stage_configs@.len() ==> (
            #[trigger] builder.stage_configs@[i]).vector_dim == (
            #[trigger] builder.stage_configs@[j]).vector_dim,
        builder.stage_configs@.len() == 0 ==> (result matches Err(e) && e is NoStages),
        result is Err && builder.stage_configs@.len() > 0 ==> exists|k: int|
            {
                let stage = #[trigger] builder.stage_configs@[k];
                &&& 0 <= k < builder.stage_configs@.len()
                &&& stage.vector_dim != builder.stage_configs@[0].vector_dim
                &&& forall|j: int|
                    0 <= j < k ==> (#[trigger] builder.stage_configs@[j]).vector_dim
                        == builder.stage_configs@[0].vector_dim
                &&& result->Err_0 matches PipelineError::VectorDimMismatch {
                    stage: name,
                    found,
                    expected,
                }
                &&& name@ == stage.config.spec_name()
                &&& found == stage.vector_dim
                &&& expected == builder.stage_configs@[0].vector_dim
            },
{
    let stages = builder.stage_configs@;
    if stages.len() > 0 {
        if result is Ok {
            assert forall|i: int, j: int| 0 <= i < stages.len() && 0 <= j < stages.len() implies (
            #[trigger] stages[i]).vector_dim == (#[trigger] stages[j]).vector_dim by {
                assert(stages[i].vector_dim == stages[0].vector_dim);
                assert(stages[j].vector_dim == stages[0].vector_dim);
            }
        } else if forall|i: int, j: int|
            0 <= i < stages.len() && 0 <= j < stages.len() ==> (#[trigger] stages[i]).vector_dim
                == (#[trigger] stages[j]).vector_dim {
            assert forall|i: int| 0 <= i < stages.len() implies (#[trigger] stages[i]).vector_dim
                == stages[0].vector_dim by {}
            assert(variable_size::sizes_accepted(stages));
        }
    }
}

/// A pipeline that was built has not ticked, has the stages and sizes that were
/// piped, holds no data but what its stages came with, and knows nothing of its
/// buffers: two for the input, as large as those of the first stage, and two for
/// each stage. Compute pipelines are needed for standard stages, with the
/// layouts that these bring.
pub proof fn law_build_begins_anew<T>(
    builder: VariableSizePipelineBuilder<T>,
    result: Result<BuiltVariablePipeline<T>, PipelineError>,
    i: int,
    b: int,
)
    requires
        call_ensures(VariableSizePipelineBuilder::<T>::build, (builder,), result),
        0 <= i < builder.stage_configs@.len(),
        0 <= b < 2 + 2 * builder.stage_configs@.len(),
        forall|j: int|
            0 <= j < builder.stage_configs@.len() ==> (
            #[trigger] builder.stage_configs@[j]).output_batch_size
                * builder.stage_configs@[0].vector_dim * 4 <= usize::MAX,
    ensures
        result matches Ok(built) ==> {
            let p = built.pipeline@;
            let stages = builder.stage_configs@;
            let owner = if b < 2 {
                0
            } else {
                b / 2 - 1
            };
            &&& built.pipeline.wf()
            &&& built.pipeline.stages() == stages
            &&& built.context == builder.context
            &&& p.vector_dim == stages[i].vector_dim
            &&& p.output_batch_sizes[i] == stages[i].output_batch_size
            &&& p.tick_count == 0
            &&& p.output_index == 0
            &&& p.input_write_index == 0
            &&& p.default_n == stages[0].output_batch_size
            &&& p.last_output_tag is None
            &&& p.tags.len() == p.kinds.len() == p.bind_groups.len() == stages.len()
            &&& p.tags[i] == (match stages[i].config {
                StageConfig::Standard { tag, .. } => tag,
                StageConfig::Custom { tag, .. } => tag,
            })
            &&& (match stages[i].config {
                StageConfig::Standard { stage, .. } => p.kinds[i] == (StageKind::Standard {
                    stage,
                }),
                StageConfig::Custom { .. } => p.kinds[i] is Custom,
            })
            &&& !p.bind_groups[i]
            &&& p.metadata.len() == p.buffer_sizes.len() == 2 + 2 * stages.len()
            &&& p.metadata[b] is None
            &&& p.side_inputs.len() == 0
            &&& p.buffer_sizes[b] == stages[owner].output_batch_size * p.vector_dim * 4
            &&& built.buffer_sizes@ == p.buffer_sizes
            &&& built.resources@.len() == stages.len()
            &&& built.resources@[i] == (match stages[i].config {
                StageConfig::Standard { stage, .. } => StageResources {
                    compute_pipeline: true,
                    custom_layout: stage.bind_group_entries is Some,
                },
                StageConfig::Custom { .. } => StageResources {
                    compute_pipeline: false,
                    custom_layout: false,
                },
            })
        },
{
    let stages = builder.stage_configs@;
    if let Ok(built) = result {
        let owner = if b < 2 {
            0
        } else {
            b / 2 - 1
        };
        size::lemma_batch_scalars(stages[owner].output_batch_size, stages[0].vector_dim);
        assert(stages[owner].output_batch_size * stages[0].vector_dim * 4 <= usize::MAX);
        assert(stages[i].vector_dim == stages[0].vector_dim);
    }
}

/// A pipeline is initialized with the context that was set for it, and with a
/// fresh one only where none was; it runs on that context from then on.
pub proof fn law_pipeline_runs_on_its_context<T>(
    built: &mut BuiltVariablePipeline<T>,
    asked: &BuiltVariablePipeline<T>,
    needed: bool,
    fresh: Option<Arc<ComputeContext>>,
    result: Result<(), PipelineError>,
    j: int,
)
    requires
        call_ensures(BuiltVariablePipeline::<T>::needs_context, (asked,), needed),
        call_ensures(BuiltVariablePipeline::<T>::initialize, (built, fresh), result),
        *asked == *old(built),
        old(built).pipeline.wf(),
        needed ==> fresh is Some,
        0 <= j < old(built).pipeline.stages().len(),
    ensures
        needed <==> old(built).context is None,
        final(built).context == if needed {
            fresh
        } else {
            old(built).context
        },
        result is Ok ==> stage_laws::settled(
            old(built).pipeline.stages()[j].config,
            final(built).pipeline.stages()[j].config,
            &*final(built).context->0,
            Ok(()),
        ),
        result matches Err(e) ==> (e matches PipelineError::Stage(own) && exists|k: int|
            {
                &&& 0 <= k < old(built).pipeline.stages().len()
                &&& old(built).pipeline.stages()[k].config is Custom
                &&& #[trigger] stage_laws::settled(
                    old(built).pipeline.stages()[k].config,
                    final(built).pipeline.stages()[k].config,
                    &*final(built).context->0,
                    Err(own),
                )
            }),
        final(built).pipeline@ == old(built).pipeline@,
        final(built).buffer_sizes == old(built).buffer_sizes,
        final(built).resources == old(built).resources,
{
    let before = variable_size::configs(old(built).pipeline.stages());
    let after = variable_size::configs(final(built).pipeline.stages());
    stage_laws::lemma_initialized_in_turn(
        before,
        after,
        &*final(built).context->0,
        result,
    );
    assert(before[j] == old(built).pipeline.stages()[j].config);
    assert(after[j] == final(built).pipeline.stages()[j].config);
    if let Err(PipelineError::Stage(own)) = result {
        let k = choose|k: int|
            {
                &&& 0 <= k < before.len()
                &&& before[k] is Custom
                &&& stage_laws::went(before[k], #[trigger] after[k], Notice::Initialize, Err(own))
                &&& stage_laws::settled(
                    before[k],
                    after[k],
                    &*final(built).context->0,
                    Err(own),
                )
            };
        assert(before[k] == old(built).pipeline.stages()[k].config);
        assert(after[k] == final(built).pipeline.stages()[k].config);
        assert(stage_laws::settled(
            old(built).pipeline.stages()[k].config,
            final(built).pipeline.stages()[k].config,
            &*final(built).context->0,
            Err(own),
        ));
    }
}

/// The custom stages that say that they require it are initialized with the
/// context that is handed in, in turn, until one fails; its error is the result.
/// All others stay as they are, and so do the pipeline and all sizes.
pub proof fn law_stages_are_initialized_in_turn<T>(
    p: &mut VariableSizePipeline<T>,
    context: &ComputeContext,
    result: Result<(), PipelineError>,
    j: int,
)
    requires
        call_ensures(VariableSizePipeline::<T>::initialize_stages, (p, context), result),
        old(p).wf(),
        0 <= j < old(p).stages().len(),
    ensures
        final(p)@ == old(p)@,
        final(p).stages().len() == old(p).stages().len(),
        final(p).stages()[j].output_batch_size == old(p).stages()[j].output_batch_size,
        final(p).stages()[j].vector_dim == old(p).stages()[j].vector_dim,
        result is Ok ==> stage_laws::settled(
            old(p).stages()[j].config,
            final(p).stages()[j].config,
            context,
            Ok(()),
        ),
        result matches Err(e) ==> (e matches PipelineError::Stage(own) && exists|k: int|
            {
                &&& 0 <= k < old(p).stages().len()
                &&& #[trigger] stage_laws::settled(
                    old(p).stages()[k].config,
                    final(p).stages()[k].config,
                    context,
                    Err(own),
                )
                &&& old(p).stages()[k].config is Custom
                &&& j < k ==> stage_laws::settled(
                    old(p).stages()[j].config,
                    final(p).stages()[j].config,
                    context,
                    Ok(()),
                )
                &&& j > k ==> final(p).stages()[j] == old(p).stages()[j]
            }),
{
    let before = variable_size::configs(old(p).stages());
    let after = variable_size::configs(final(p).stages());
    stage_laws::lemma_initialized_in_turn(before, after, context, result);
    assert(before[j] == old(p).stages()[j].config);
    assert(after[j] == final(p).stages()[j].config);
    if let Err(e) = result {
        let own = e->Stage_0;
        let k = choose|k: int|
            {
                &&& 0 <= k < before.len()
                &&& before[k] is Custom
                &&& stage_laws::went(before[k], #[trigger] after[k], Notice::Initialize, Err(own))
                &&& stage_laws::settled(before[k], after[k], context, Err(own))
                &&& forall|j: int|
                    0 <= j < k ==> stage_laws::settled(
                        before[j],
                        #[trigger] after[j],
                        context,
                        Ok(()),
                    )
                &&& forall|j: int| k < j < before.len() ==> (#[trigger] after[j]) == before[j]
            };
        assert(before[k] == old(p).stages()[k].config);
        assert(after[k] == final(p).stages()[k].config);
        assert(stage_laws::settled(
            old(p).stages()[k].config,
            final(p).stages()[k].config,
            context,
            Err(own),
        ));
    }
}

} // verus!
