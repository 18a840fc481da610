//! What holds of the calls on pipelines whose stages share one size, said of
//! their arguments and results.

use std::sync::Arc;

use vstd::prelude::*;

use crate::error::PipelineError;
use crate::memory;
use crate::pipeline::ping_pong::{InputAction, Pipeline, ProcessAction, ResizePlan, TickEvent};
use crate::pipeline::pipeline_stage::{StageConfig, StageKind};
use crate::pipeline::size;
use crate::plan::{BindingEntry, BufferResize, Readback, StagePass, StageWork, Submission};
use crate::side_inputs::SideInputs;
use crate::wgpu_utils;

verus! {

// ---- what a stage does in a tick ----

/// A stage reads from the pair of buffers before its own pair and writes to
/// its own pair, the other member of it, and is told of the data that it reads:
/// as many vectors as are known of that buffer, or else a whole batch, and the
/// transform size that is known of it, or else the default one. Asking changes
/// nothing.
pub proof fn law_pass_of_a_stage<T>(
    p: &mut Pipeline<T>,
    i: usize,
    result: Result<StagePass, PipelineError>,
)
    requires
        call_ensures(Pipeline::<T>::stage_pass, (p, i), result),
        old(p).wf(),
        i < old(p)@.tags.len(),
    ensures
        final(p)@ == old(p)@,
        result matches Ok(pass) ==> {
            &&& pass.stage == i
            &&& pass.input == 2 * i + old(p)@.current_set
            &&& pass.output == 2 * (i + 1) + (1 - old(p)@.current_set)
            &&& (match old(p)@.metadata[pass.input as int] {
                Some(known) => pass.elements == known.elements && pass.n == known.n,
                None => pass.elements == old(p)@.batch_size && pass.n == old(p)@.default_n,
            })
            &&& pass.work is Encode <==> old(p)@.kinds[i as int] is Custom
            &&& pass.work matches StageWork::Dispatch { create_bind_groups, .. }
                ==> create_bind_groups == !old(p)@.bind_groups[i as int]
        },
{
}

/// The workgroups that a stage dispatches cover all scalars of its data, and
/// one workgroup fewer would not. Of more scalars than the device can count, the
/// low 32 bits count.
pub proof fn law_workgroups_cover_the_data<T>(
    p: &mut Pipeline<T>,
    i: usize,
    result: Result<StagePass, PipelineError>,
)
    requires
        call_ensures(Pipeline::<T>::stage_pass, (p, i), result),
        old(p).wf(),
        i < old(p)@.tags.len(),
    ensures
        result matches Ok(pass) ==> (pass.work matches StageWork::Dispatch { groups, .. } ==> ({
            let scalars = pass.elements * old(p)@.vector_dim;
            let counted = scalars % 0x1_0000_0000;
            groups * 64 >= counted && (groups - 1) * 64 < counted
        })),
{
    if let Ok(pass) = result {
        size::lemma_batch_scalars(pass.elements, old(p)@.vector_dim);
    }
}

/// What a stage writes, the next stage reads when the roles of the buffers
/// were exchanged, and what the last stage writes is what is read back, in the
/// tick itself and after it.
pub proof fn law_passes_hand_on<T>(
    p: &mut Pipeline<T>,
    q: &mut Pipeline<T>,
    i: usize,
    first: Result<StagePass, PipelineError>,
    second: Result<StagePass, PipelineError>,
)
    requires
        call_ensures(Pipeline::<T>::stage_pass, (p, i), first),
        call_ensures(Pipeline::<T>::stage_pass, (q, (i + 1) as usize), second),
        old(p).wf(),
        old(q).wf(),
        old(q)@.tags.len() == old(p)@.tags.len(),
        old(q)@.current_set != old(p)@.current_set,
        i + 1 < old(p)@.tags.len(),
    ensures
        first matches Ok(a) ==> (second matches Ok(b) ==> b.input == a.output),
{
}

/// What is read back, with the commands of a tick, is what the last stage
/// writes in it.
pub proof fn law_last_output_is_read_back<T>(
    p: &mut Pipeline<T>,
    q: &Pipeline<T>,
    last: usize,
    result: Result<StagePass, PipelineError>,
    readback: Option<Readback>,
)
    requires
        call_ensures(Pipeline::<T>::stage_pass, (p, last), result),
        call_ensures(Pipeline::<T>::readback, (q,), readback),
        old(p).wf(),
        q.wf(),
        last + 1 == old(p)@.tags.len(),
        q@.tags.len() == old(p)@.tags.len(),
        q@.current_set == old(p)@.current_set,
    ensures
        result matches Ok(pass) ==> (readback matches Some(r) ==> r.buffer == pass.output),
{
}

/// What is read after a tick is what the last stage wrote in it.
pub proof fn law_finished_output_is_read<T>(
    p: &mut Pipeline<T>,
    q: &Pipeline<T>,
    last: usize,
    result: Result<StagePass, PipelineError>,
    readback: Option<Readback>,
)
    requires
        call_ensures(Pipeline::<T>::stage_pass, (p, last), result),
        call_ensures(Pipeline::<T>::read_output, (q,), readback),
        old(p).wf(),
        q.wf(),
        last + 1 == old(p)@.tags.len(),
        q@.tags.len() == old(p)@.tags.len(),
        q@.current_set != old(p)@.current_set,
    ensures
        result matches Ok(pass) ==> (readback matches Some(r) ==> r.buffer == pass.output),
{
}

/// In one tick no stage writes what a stage reads, no two stages write the
/// same buffer, and all buffers are those of the pipeline.
pub proof fn law_passes_are_isolated<T>(
    p: &mut Pipeline<T>,
    q: &mut Pipeline<T>,
    i: usize,
    j: usize,
    first: Result<StagePass, PipelineError>,
    second: Result<StagePass, PipelineError>,
)
    requires
        call_ensures(Pipeline::<T>::stage_pass, (p, i), first),
        call_ensures(Pipeline::<T>::stage_pass, (q, j), second),
        old(p).wf(),
        old(q).wf(),
        old(q)@.tags.len() == old(p)@.tags.len(),
        old(q)@.current_set == old(p)@.current_set,
        i < old(p)@.tags.len(),
        j < old(p)@.tags.len(),
    ensures
        first matches Ok(a) ==> (second matches Ok(b) ==> {
            &&& a.output != b.input
            &&& i != j ==> a.output != b.output && a.input != b.input
            &&& a.input < 2 + 2 * old(p)@.tags.len()
            &&& a.output < 2 + 2 * old(p)@.tags.len()
        }),
{
}

/// A stage has two buffers of its own: in the next tick it writes the other
/// one, and neither is ever written by another stage.
pub proof fn law_stages_own_their_buffers<T>(
    p: &mut Pipeline<T>,
    q: &mut Pipeline<T>,
    i: usize,
    j: usize,
    first: Result<StagePass, PipelineError>,
    second: Result<StagePass, PipelineError>,
)
    requires
        call_ensures(Pipeline::<T>::stage_pass, (p, i), first),
        call_ensures(Pipeline::<T>::stage_pass, (q, j), second),
        old(p).wf(),
        old(q).wf(),
        old(q)@.tags.len() == old(p)@.tags.len(),
        i < old(p)@.tags.len(),
        j < old(p)@.tags.len(),
    ensures
        first matches Ok(a) ==> (second matches Ok(b) ==> {
            &&& i != j ==> a.output != b.output
            &&& i == j ==> (a.output == b.output <==> old(p)@.current_set == old(
                q,
            )@.current_set)
        }),
{
}

// ---- bind groups ----

/// The bind group that a stage dispatches with has the bindings that the
/// stage's layout lists, the one with the largest number bound to the buffer
/// that the stage writes in this tick, and every other one to the buffer that it
/// reads. A stage without a layout of its own has the bindings 0 and 1.
pub proof fn law_bind_group_of_a_pass<T>(
    p: &mut Pipeline<T>,
    q: &Pipeline<T>,
    i: usize,
    input_variant: usize,
    output_state: usize,
    result: Result<StagePass, PipelineError>,
    entries: Vec<BindingEntry>,
)
    requires
        call_ensures(Pipeline::<T>::stage_pass, (p, i), result),
        call_ensures(
            Pipeline::<T>::create_bind_group_for_stage,
            (q, i, input_variant, output_state),
            entries,
        ),
        old(p).wf(),
        i < old(p)@.tags.len(),
        q@ == old(p)@,
        result matches Ok(pass) && (pass.work matches StageWork::Dispatch {
            input_variant: v,
            output_state: s,
            ..
        } && v == input_variant && s == output_state),
    ensures
        old(p)@.kinds[i as int] matches StageKind::Standard { stage } && {
            &&& stage.bind_group_entries matches Some(layout) ==> {
                &&& entries@.len() == layout@.len()
                &&& forall|k: int|
                    0 <= k < layout@.len() ==> (#[trigger] entries@[k]).binding
                        == wgpu_utils::entry_binding(layout@[k])
            }
            &&& stage.bind_group_entries is None ==> {
                &&& entries@.len() == 2
                &&& entries@[0].binding == 0
                &&& entries@[1].binding == 1
            }
        },
        forall|k: int|
            0 <= k < entries@.len() && (forall|m: int|
                0 <= m < entries@.len() ==> (#[trigger] entries@[m]).binding
                    <= entries@[k].binding) ==> (#[trigger] entries@[k]).buffer
                == result->Ok_0.output,
        forall|k: int, m: int|
            0 <= k < entries@.len() && 0 <= m < entries@.len() && (
            #[trigger] entries@[k]).binding < (#[trigger] entries@[m]).binding
                ==> entries@[k].buffer == result->Ok_0.input,
{
    let bindings = match old(p)@.kinds[i as int] {
        StageKind::Standard { stage } => stage.spec_bindings(),
        StageKind::Custom => seq![0u32, 1u32],
    };
    assert(entries@.len() == bindings.len());
    assert forall|k: int| 0 <= k < entries@.len() implies (#[trigger] entries@[k]).binding
        == bindings[k] by {}
    assert forall|k: int|
        0 <= k < entries@.len() && (forall|m: int|
            0 <= m < entries@.len() ==> (#[trigger] entries@[m]).binding
                <= entries@[k].binding) implies (#[trigger] entries@[k]).buffer
        == result->Ok_0.output by {
        assert forall|j: int| 0 <= j < bindings.len() implies !(bindings[k]
            < #[trigger] bindings[j]) by {
            assert(entries@[j].binding <= entries@[k].binding);
        }
    }
    assert forall|k: int, m: int|
        0 <= k < entries@.len() && 0 <= m < entries@.len() && (#[trigger] entries@[k]).binding < (
        #[trigger] entries@[m]).binding implies entries@[k].buffer == result->Ok_0.input by {
        assert(bindings[k] < bindings[m]);
    }
}

/// Any bind group of a stage binds the member of the pair before the stage's own
/// pair that was asked for, but for the largest number, which is the member of its
/// own pair that was asked for. The bindings are those of the layout of a standard
/// stage, or else 0 and 1.
pub proof fn law_bind_group_members<T>(
    p: &Pipeline<T>,
    i: usize,
    variant: usize,
    state: usize,
    entries: Vec<BindingEntry>,
    k: int,
)
    requires
        call_ensures(
            Pipeline::<T>::create_bind_group_for_stage,
            (p, i, variant, state),
            entries,
        ),
        p.wf(),
        i < p@.tags.len(),
        variant <= 1,
        state <= 1,
        0 <= k < entries@.len(),
    ensures
        match p@.kinds[i as int] {
            StageKind::Standard { stage } if stage.bind_group_entries is Some => {
                &&& entries@.len() == stage.bind_group_entries->0@.len()
                &&& entries@[k].binding == wgpu_utils::entry_binding(
                    stage.bind_group_entries->0@[k],
                )
            },
            _ => entries@.len() == 2 && entries@[k].binding == k,
        },
        entries@[k].buffer == 2 * i + variant || entries@[k].buffer == 2 * (i + 1) + state,
        entries@[k].buffer == 2 * (i + 1) + state <==> forall|m: int|
            0 <= m < entries@.len() ==> (#[trigger] entries@[m]).binding <= entries@[k].binding,
{
    let bindings = match p@.kinds[i as int] {
        StageKind::Standard { stage } => stage.spec_bindings(),
        StageKind::Custom => seq![0u32, 1u32],
    };
    assert(entries@.len() == bindings.len());
    assert forall|m: int| 0 <= m < entries@.len() implies (#[trigger] entries@[m]).binding
        == bindings[m] by {}
    if forall|m: int|
        0 <= m < entries@.len() ==> (#[trigger] entries@[m]).binding <= entries@[k].binding {
        assert forall|j: int| 0 <= j < bindings.len() implies !(bindings[k]
            < #[trigger] bindings[j]) by {
            assert(entries@[j].binding <= entries@[k].binding);
        }
    } else {
        let m = choose|m: int|
            0 <= m < entries@.len() && !((#[trigger] entries@[m]).binding <= entries@[k].binding);
        assert(bindings[k] < bindings[m]);
    }
}

/// A bind group that writes a member of a stage's pair writes what the bind
/// groups of the next stage that read this member read.
pub proof fn law_bind_groups_meet<T>(
    p: &Pipeline<T>,
    i: usize,
    variant: usize,
    shared: usize,
    state: usize,
    writer: Vec<BindingEntry>,
    reader: Vec<BindingEntry>,
    k: int,
    low: int,
    high: int,
)
    requires
        call_ensures(
            Pipeline::<T>::create_bind_group_for_stage,
            (p, i, variant, shared),
            writer,
        ),
        call_ensures(
            Pipeline::<T>::create_bind_group_for_stage,
            (p, (i + 1) as usize, shared, state),
            reader,
        ),
        p.wf(),
        i + 1 < p@.tags.len(),
        variant <= 1,
        shared <= 1,
        state <= 1,
        0 <= k < writer@.len(),
        forall|m: int|
            0 <= m < writer@.len() ==> (#[trigger] writer@[m]).binding <= writer@[k].binding,
        0 <= low < reader@.len(),
        0 <= high < reader@.len(),
        reader@[low].binding < reader@[high].binding,
    ensures
        writer@[k].buffer == reader@[low].buffer,
{
    let written = match p@.kinds[i as int] {
        StageKind::Standard { stage } => stage.spec_bindings(),
        StageKind::Custom => seq![0u32, 1u32],
    };
    let read = match p@.kinds[i + 1] {
        StageKind::Standard { stage } => stage.spec_bindings(),
        StageKind::Custom => seq![0u32, 1u32],
    };
    assert forall|j: int| 0 <= j < written.len() implies !(written[k] < #[trigger] written[j]) by {
        assert(writer@[j].binding <= writer@[k].binding);
    }
    assert(read[low] < read[high]);
}

// ---- input ----

/// Input is refused where there is none, or where it does not consist of whole
/// vectors, and nowhere else; what is refused changes nothing.
pub proof fn law_input_is_validated<T, E>(
    p: &mut Pipeline<T>,
    data: &[E],
    result: Result<InputAction, PipelineError>,
)
    requires
        call_ensures(Pipeline::<T>::write_input::<E>, (p, data), result),
        old(p).wf(),
        data@.len() * 4 <= usize::MAX,
    ensures
        result is Err <==> data@.len() == 0 || data@.len() % old(p)@.vector_dim as nat != 0,
        result matches Err(e) ==> final(p)@ == old(p)@ && if data@.len() == 0 {
            e is EmptyInput
        } else {
            &&& e matches PipelineError::PartialVector { bytes, element_size, vector_dim }
            &&& bytes == data@.len() * 4
            &&& element_size == old(p)@.vector_dim * 4
            &&& vector_dim == old(p)@.vector_dim
        },
{
    lemma_scalars_of_whole_vectors(data@.len(), old(p)@.vector_dim);
}

/// Bytes are whole vectors exactly where scalars are.
proof fn lemma_scalars_of_whole_vectors(len: nat, vector_dim: usize)
    requires
        vector_dim >= 1,
    ensures
        (len * 4) % size::vector_bytes(vector_dim) == 0 <==> len % vector_dim as nat == 0,
        (len * 4) / size::vector_bytes(vector_dim) == len / vector_dim as nat,
{
    let l = len as int;
    let d = vector_dim as int;
    vstd::arithmetic::div_mod::lemma_truncate_middle(l, 4, d);
    vstd::arithmetic::div_mod::lemma_fundamental_div_mod(l, d);
    vstd::arithmetic::div_mod::lemma_mod_bound(l, d);
    assert(4 * l == (l / d) * (4 * d) + 4 * (l % d)) by (nonlinear_arith)
        requires
            l == d * (l / d) + l % d,
    ;
    vstd::arithmetic::div_mod::lemma_fundamental_div_mod_converse(
        4 * l,
        4 * d,
        l / d,
        4 * (l % d),
    );
}

/// Input that is accepted is written where the first stage reads in this tick,
/// all of it, where the buffers have room for it; where they have not, they are
/// to be replaced first by buffers that hold exactly the input.
pub proof fn law_input_is_written_or_makes_room<T, E>(
    p: &mut Pipeline<T>,
    data: &[E],
    result: Result<InputAction, PipelineError>,
)
    requires
        call_ensures(Pipeline::<T>::write_input::<E>, (p, data), result),
        old(p).wf(),
        data@.len() * 4 <= usize::MAX,
        result is Ok,
    ensures
        match result->Ok_0 {
            InputAction::Write(write) => {
                &&& data@.len() <= old(p)@.batch_size * old(p)@.vector_dim
                &&& write.buffer == old(p)@.current_set
                &&& write.bytes == data@.len() * 4
            },
            InputAction::Resize(plan) => {
                &&& data@.len() > old(p)@.batch_size * old(p)@.vector_dim
                &&& plan.batch_size * old(p)@.vector_dim == data@.len()
                &&& plan.vector_dim == old(p)@.vector_dim
                &&& final(p)@ == old(p)@
            },
        },
{
    let s = old(p)@;
    lemma_scalars_of_whole_vectors(data@.len(), s.vector_dim);
    size::lemma_batch_scalars(s.batch_size, s.vector_dim);
    let l = data@.len() as int;
    let d = s.vector_dim as int;
    vstd::arithmetic::div_mod::lemma_fundamental_div_mod(l, d);
    assert((l / d) * d == d * (l / d)) by (nonlinear_arith);
    assert(0 <= l / d <= l) by (nonlinear_arith)
        requires
            l >= 0,
            d >= 1,
    ;
}

/// What is submitted reaches the first stage as it was submitted: the stage
/// reads the buffer that the data is written to, is told of as many vectors as
/// the data has, and of the transform size that was set for this submission,
/// or of the default one where none was.
pub proof fn law_submission_reaches_the_first_stage<T, E>(
    p: &mut Pipeline<T>,
    q: &mut Pipeline<T>,
    data: &[E],
    result: Result<InputAction, PipelineError>,
    told: Result<StagePass, PipelineError>,
)
    requires
        call_ensures(Pipeline::<T>::write_input::<E>, (p, data), result),
        call_ensures(Pipeline::<T>::stage_pass, (q, 0usize), told),
        old(p).wf(),
        old(q).wf(),
        old(q)@ == final(p)@,
        data@.len() * 4 <= usize::MAX,
    ensures
        result matches Ok(InputAction::Write(write)) ==> (told matches Ok(pass) ==> {
            &&& pass.input == write.buffer
            &&& pass.elements * old(p)@.vector_dim == data@.len()
            &&& pass.n == match old(p)@.metadata[old(p)@.current_set as int] {
                Some(set) => set.n,
                None => old(p)@.default_n,
            }
        }),
{
    let s = old(p)@;
    lemma_scalars_of_whole_vectors(data@.len(), s.vector_dim);
    let l = data@.len() as int;
    let d = s.vector_dim as int;
    vstd::arithmetic::div_mod::lemma_fundamental_div_mod(l, d);
    assert((l / d) * d == d * (l / d)) by (nonlinear_arith);
    assert(0 <= l / d <= l) by (nonlinear_arith)
        requires
            l >= 0,
            d >= 1,
    ;
}

/// Accepting input changes what is known of the buffer that is written, and
/// nothing else.
pub proof fn law_input_changes_its_buffer_only<T, E>(
    p: &mut Pipeline<T>,
    data: &[E],
    result: Result<InputAction, PipelineError>,
    b: int,
)
    requires
        call_ensures(Pipeline::<T>::write_input::<E>, (p, data), result),
        old(p).wf(),
        data@.len() * 4 <= usize::MAX,
        0 <= b < old(p)@.metadata.len(),
    ensures
        final(p)@.metadata.len() == old(p)@.metadata.len(),
        b != old(p)@.current_set ==> final(p)@.metadata[b] == old(p)@.metadata[b],
        result matches Ok(InputAction::Write(_)) ==> (
        final(p)@.metadata[old(p)@.current_set as int] matches Some(known) && known.batch_size
            == known.elements),
        final(p)@.tags == old(p)@.tags,
        final(p)@.tick_count == old(p)@.tick_count,
        final(p)@.current_set == old(p)@.current_set,
        final(p)@.default_n == old(p)@.default_n,
        final(p)@.batch_size == old(p)@.batch_size,
        final(p)@.vector_dim == old(p)@.vector_dim,
        final(p)@.bind_groups == old(p)@.bind_groups,
        final(p)@.kinds == old(p)@.kinds,
        final(p)@.side_inputs == old(p)@.side_inputs,
        final(p).stages() == old(p).stages(),
{
}

/// `process` takes its data as `write_input` does, and begins a tick as `tick`
/// does: the two together have the answers and the effect of the one.
pub proof fn law_process_is_write_then_tick<T, E>(
    p: &mut Pipeline<T>,
    w: &mut Pipeline<T>,
    t: &mut Pipeline<T>,
    data: &[E],
    tag: T,
    processed: Result<ProcessAction<T>, PipelineError>,
    written: Result<InputAction, PipelineError>,
    due: bool,
)
    requires
        call_ensures(Pipeline::<T>::process::<E>, (p, Some(data), tag), processed),
        call_ensures(Pipeline::<T>::write_input::<E>, (w, data), written),
        call_ensures(Pipeline::<T>::tick, (t, tag), due),
        old(p).wf(),
        old(w)@ == old(p)@,
        old(t)@ == final(w)@,
        data@.len() * 4 <= usize::MAX,
    ensures
        match written {
            Err(e) => processed matches Err(same) && same == e && final(p)@ == old(p)@,
            Ok(InputAction::Resize(plan)) => {
                &&& processed matches Ok(ProcessAction::Resize { plan: same, tag: kept })
                &&& kept == tag
                &&& same.batch_size == plan.batch_size
                &&& same.vector_dim == plan.vector_dim
                &&& same.buffers@ == plan.buffers@
                &&& final(p)@ == old(p)@
            },
            Ok(InputAction::Write(write)) => {
                &&& processed matches Ok(ProcessAction::Run { write: same, output_due })
                &&& same == Some(write)
                &&& output_due == due
                &&& final(p)@ == final(t)@
            },
        },
{
}

/// `process` without data is a tick, and changes nothing that is known of the
/// data.
pub proof fn law_process_of_nothing_is_a_tick<T, E>(
    p: &mut Pipeline<T>,
    t: &mut Pipeline<T>,
    tag: T,
    processed: Result<ProcessAction<T>, PipelineError>,
    due: bool,
)
    requires
        call_ensures(Pipeline::<T>::process::<E>, (p, None::<&[E]>, tag), processed),
        call_ensures(Pipeline::<T>::tick, (t, tag), due),
        old(p).wf(),
        old(t)@ == old(p)@,
    ensures
        processed matches Ok(ProcessAction::Run { write, output_due }) && write is None
            && output_due == due,
        final(p)@ == final(t)@,
        final(p)@.metadata == old(p)@.metadata,
{
}

// ---- a tick ----

/// When a tick begins, every tag moves on by one stage, the new one enters at
/// the first, and nothing else changes. Output is due where all stages but one
/// ticked before.
pub proof fn law_tick_moves_tags_on<T>(p: &mut Pipeline<T>, tag: T, due: bool, i: int)
    requires
        call_ensures(Pipeline::<T>::tick, (p, tag), due),
        old(p).wf(),
        0 <= i < old(p)@.tags.len(),
    ensures
        due <==> old(p)@.tick_count + 1 >= old(p)@.tags.len(),
        final(p)@.tags.len() == old(p)@.tags.len(),
        final(p)@.tags[i] == if i == 0 {
            Some(tag)
        } else {
            old(p)@.tags[i - 1]
        },
        final(p)@.tick_count == old(p)@.tick_count,
        final(p)@.current_set == old(p)@.current_set,
        final(p)@.default_n == old(p)@.default_n,
        final(p)@.batch_size == old(p)@.batch_size,
        final(p)@.vector_dim == old(p)@.vector_dim,
        final(p)@.metadata == old(p)@.metadata,
        final(p)@.bind_groups == old(p)@.bind_groups,
        final(p)@.kinds == old(p)@.kinds,
        final(p)@.side_inputs == old(p)@.side_inputs,
{
}

/// What is known of the data that a stage reads is known of what it writes,
/// and of no other buffer anything new. A standard stage has its bind groups
/// from then on.
pub proof fn law_knowledge_goes_with_the_data<T>(
    p: &mut Pipeline<T>,
    q: &mut Pipeline<T>,
    i: usize,
    result: Result<StagePass, PipelineError>,
    b: int,
)
    requires
        call_ensures(Pipeline::<T>::stage_pass, (p, i), result),
        call_ensures(Pipeline::<T>::stage_encoded, (q, i), ()),
        old(p).wf(),
        old(q)@ == old(p)@,
        i < old(p)@.tags.len(),
        0 <= b < old(p)@.metadata.len(),
    ensures
        final(q)@.metadata.len() == old(p)@.metadata.len(),
        result matches Ok(pass) ==> final(q)@.metadata[b] == if b == pass.output {
            old(p)@.metadata[pass.input as int]
        } else {
            old(p)@.metadata[b]
        },
        forall|j: int|
            0 <= j < old(p)@.tags.len() ==> (#[trigger] final(q)@.bind_groups[j]) == (
            old(p)@.bind_groups[j] || j == i && !(old(p)@.kinds[j] is Custom)),
        final(q)@.bind_groups.len() == old(p)@.bind_groups.len(),
        final(q)@.tags == old(p)@.tags,
        final(q)@.tick_count == old(p)@.tick_count,
        final(q)@.current_set == old(p)@.current_set,
        final(q)@.default_n == old(p)@.default_n,
        final(q)@.batch_size == old(p)@.batch_size,
        final(q)@.vector_dim == old(p)@.vector_dim,
        final(q)@.kinds == old(p)@.kinds,
        final(q)@.side_inputs == old(p)@.side_inputs,
        final(q).stages() == old(q).stages(),
{
    assert(old(p)@.kinds[i as int] is Standard || old(p)@.kinds[i as int] is Custom);
}

/// When a tick ends, the roles of the buffers are exchanged, and the tick is
/// counted unless the device could not be waited for. Nothing else changes.
pub proof fn law_tick_ends<T>(p: &mut Pipeline<T>, event: TickEvent)
    requires
        call_ensures(Pipeline::<T>::finish_tick, (p, event), ()),
        old(p).wf(),
        old(p)@.tick_count < u64::MAX,
    ensures
        final(p)@.current_set + old(p)@.current_set == 1,
        final(p)@.tick_count == old(p)@.tick_count + if event is PollFailed {
            0int
        } else {
            1
        },
        final(p)@.tags == old(p)@.tags,
        final(p)@.default_n == old(p)@.default_n,
        final(p)@.batch_size == old(p)@.batch_size,
        final(p)@.vector_dim == old(p)@.vector_dim,
        final(p)@.metadata == old(p)@.metadata,
        final(p)@.bind_groups == old(p)@.bind_groups,
        final(p)@.kinds == old(p)@.kinds,
        final(p)@.side_inputs == old(p)@.side_inputs,
        final(p).stages() == old(p).stages(),
{
}

/// `process` ends as a tick does. Where the tick completed, its output was due
/// and there was something to copy, the tag of the last stage is handed out and
/// gone, and in no other case.
pub proof fn law_process_ends<T>(
    p: &mut Pipeline<T>,
    q: &mut Pipeline<T>,
    due: bool,
    readback: &Option<Readback>,
    event: TickEvent,
    tag: Option<T>,
    i: int,
)
    requires
        call_ensures(Pipeline::<T>::finish_process, (p, due, readback, event), tag),
        call_ensures(Pipeline::<T>::finish_tick, (q, event), ()),
        old(p).wf(),
        old(q)@ == old(p)@,
        old(p)@.tick_count < u64::MAX,
        0 <= i < old(p)@.tags.len(),
    ensures
        ({
            let out = event is Completed && due && *readback is Some;
            let last = old(p)@.tags.len() - 1;
            &&& tag == if out {
                old(p)@.tags[last]
            } else {
                None
            }
            &&& final(p)@.tags.len() == old(p)@.tags.len()
            &&& final(p)@.tags[i] == if out && i == last {
                None
            } else {
                old(p)@.tags[i]
            }
        }),
        final(p)@.current_set == final(q)@.current_set,
        final(p)@.tick_count == final(q)@.tick_count,
        final(p)@.default_n == old(p)@.default_n,
        final(p)@.batch_size == old(p)@.batch_size,
        final(p)@.vector_dim == old(p)@.vector_dim,
        final(p)@.metadata == old(p)@.metadata,
        final(p)@.bind_groups == old(p)@.bind_groups,
        final(p)@.kinds == old(p)@.kinds,
        final(p)@.side_inputs == old(p)@.side_inputs,
{
}

/// Ticks move tags and nothing else of the stages: after a tick began, was begun
/// by `process` or ended by it, or its output was taken, every stage is the one
/// that it was, with the tag that the pipeline has for it.
pub proof fn law_ticks_keep_the_stages<T, E>(
    p: &mut Pipeline<T>,
    data: Option<&[E]>,
    tag: T,
    due: bool,
    processed: Result<ProcessAction<T>, PipelineError>,
    output_due: bool,
    readback: &Option<Readback>,
    event: TickEvent,
    taken: Option<T>,
    j: int,
)
    requires
        call_ensures(Pipeline::<T>::tick, (p, tag), due) || call_ensures(
            Pipeline::<T>::process::<E>,
            (p, data, tag),
            processed,
        ) || call_ensures(
            Pipeline::<T>::finish_process,
            (p, output_due, readback, event),
            taken,
        ) || call_ensures(Pipeline::<T>::take_output, (p,), taken),
        old(p).wf(),
        0 <= j < old(p).stages().len(),
    ensures
        final(p).stages().len() == old(p).stages().len(),
        match old(p).stages()[j] {
            StageConfig::Standard { stage, .. } => final(p).stages()[j] == (
            StageConfig::<T>::Standard { stage, tag: final(p)@.tags[j] }),
            StageConfig::Custom { stage, .. } => {
                &&& final(p).stages()[j] matches StageConfig::Custom { stage: same, tag: held }
                &&& same == stage
                &&& held == final(p)@.tags[j]
            },
        },
{
}

// ---- output ----

/// What is read back is the data and no more: as many vectors as are known of
/// the buffer, or else a whole batch, as far as the buffer reaches. Nothing is
/// read back exactly where the data is known to be empty.
pub proof fn law_readback_is_the_data<T>(p: &Pipeline<T>, readback: Option<Readback>)
    requires
        call_ensures(Pipeline::<T>::readback, (p,), readback),
        p.wf(),
    ensures
        ({
            let known = p@.metadata[2 * p@.tags.len() + (1 - p@.current_set)];
            let wanted = match known {
                Some(s) => s.elements as int,
                None => p@.batch_size as int,
            };
            let vectors = if wanted <= p@.batch_size {
                wanted
            } else {
                p@.batch_size as int
            };
            &&& readback is None <==> wanted == 0
            &&& readback matches Some(r) ==> r.scalars == vectors * p@.vector_dim && r.bytes
                == r.scalars * 4
        }),
{
    let b = 2 * p@.tags.len() + (1 - p@.current_set);
    lemma_readback(p@.elements_in(b), p@.batch_size, p@.vector_dim);
}

/// The smaller of two batches is the one of fewer vectors.
proof fn lemma_readback(elements: usize, batch_size: usize, vector_dim: usize)
    requires
        vector_dim >= 1,
        batch_size >= 1,
    ensures
        elements <= batch_size ==> size::batch_bytes(elements, vector_dim) <= size::batch_bytes(
            batch_size,
            vector_dim,
        ),
        elements > batch_size ==> size::batch_bytes(elements, vector_dim) > size::batch_bytes(
            batch_size,
            vector_dim,
        ),
        size::batch_bytes(elements, vector_dim) == elements * vector_dim * 4,
        size::batch_bytes(batch_size, vector_dim) == batch_size * vector_dim * 4,
        elements > 0 ==> elements * vector_dim > 0,
        batch_size * vector_dim > 0,
{
    size::lemma_batch_scalars(elements, vector_dim);
    size::lemma_batch_scalars(batch_size, vector_dim);
    let e = elements as int;
    let b = batch_size as int;
    let d = vector_dim as int;
    assert(e <= b ==> e * d <= b * d) by (nonlinear_arith)
        requires
            d >= 1,
    ;
    assert(e > b ==> e * d > b * d) by (nonlinear_arith)
        requires
            d >= 1,
    ;
    assert(e > 0 ==> e * d > 0) by (nonlinear_arith)
        requires
            d >= 1,
    ;
    assert(b * d > 0) by (nonlinear_arith)
        requires
            d >= 1,
            b >= 1,
    ;
}

/// Output can be read once all stages ticked, while its tag was not taken and
/// unless the data is known to be empty: the data and no more.
pub proof fn law_output_can_be_read<T>(p: &Pipeline<T>, readback: Option<Readback>)
    requires
        call_ensures(Pipeline::<T>::read_output, (p,), readback),
        p.wf(),
    ensures
        ({
            let n = p@.tags.len();
            let known = p@.metadata[2 * n + p@.current_set];
            let wanted = match known {
                Some(s) => s.elements as int,
                None => p@.batch_size as int,
            };
            let vectors = if wanted <= p@.batch_size {
                wanted
            } else {
                p@.batch_size as int
            };
            &&& readback is Some <==> p@.tick_count >= n && p@.tags[n - 1] is Some && wanted > 0
            &&& readback matches Some(r) ==> r.scalars == vectors * p@.vector_dim && r.bytes
                == r.scalars * 4
        }),
{
    let b = 2 * p@.tags.len() + p@.current_set;
    lemma_readback(p@.elements_in(b), p@.batch_size, p@.vector_dim);
}

/// Taking the output hands out the tag of the last stage, once, and changes no
/// other tag and nothing else.
pub proof fn law_output_is_taken_once<T>(
    p: &mut Pipeline<T>,
    q: &mut Pipeline<T>,
    first: Option<T>,
    second: Option<T>,
    i: int,
)
    requires
        call_ensures(Pipeline::<T>::take_output, (p,), first),
        call_ensures(Pipeline::<T>::take_output, (q,), second),
        old(p).wf(),
        old(q)@ == final(p)@,
        0 <= i < old(p)@.tags.len(),
    ensures
        first == old(p)@.tags[old(p)@.tags.len() - 1],
        second is None,
        i + 1 < old(p)@.tags.len() ==> final(p)@.tags[i] == old(p)@.tags[i],
        final(p)@.tags.len() == old(p)@.tags.len(),
        final(p)@.tick_count == old(p)@.tick_count,
        final(p)@.current_set == old(p)@.current_set,
        final(p)@.default_n == old(p)@.default_n,
        final(p)@.batch_size == old(p)@.batch_size,
        final(p)@.vector_dim == old(p)@.vector_dim,
        final(p)@.metadata == old(p)@.metadata,
        final(p)@.bind_groups == old(p)@.bind_groups,
        final(p)@.kinds == old(p)@.kinds,
        final(p)@.side_inputs == old(p)@.side_inputs,
{
}

/// A pipeline is empty exactly where no stage holds a tag; one that just ticked
/// never is.
pub proof fn law_emptiness<T>(p: &mut Pipeline<T>, q: &Pipeline<T>, tag: T, due: bool, empty: bool)
    requires
        call_ensures(Pipeline::<T>::tick, (p, tag), due),
        call_ensures(Pipeline::<T>::is_empty, (q,), empty),
        old(p).wf(),
    ensures
        empty <==> (forall|i: int| 0 <= i < q@.tags.len() ==> (#[trigger] q@.tags[i]) is None),
        q@ == final(p)@ ==> !empty,
{
    if q@ == final(p)@ {
        assert(q@.tags[0] is Some);
    }
}

/// What a pipeline reports is what it is: how many stages it has, its sizes, its
/// completed ticks, its side inputs, and each stage with the tag that is in it.
pub proof fn law_reports<T>(
    p: &Pipeline<T>,
    count: usize,
    vector_dim: usize,
    batch_size: usize,
    ticks: u64,
    i: usize,
    config: &StageConfig<T>,
    inputs: &SideInputs<Arc<wgpu::Buffer>>,
)
    requires
        call_ensures(Pipeline::<T>::num_stages, (p,), count),
        call_ensures(Pipeline::<T>::vector_dim, (p,), vector_dim),
        call_ensures(Pipeline::<T>::batch_size, (p,), batch_size),
        call_ensures(Pipeline::<T>::tick_count, (p,), ticks),
        call_ensures(Pipeline::<T>::stage_config, (p, i), config),
        call_ensures(Pipeline::<T>::side_inputs, (p,), inputs),
        p.wf(),
        i < p@.tags.len(),
    ensures
        count == p@.tags.len(),
        vector_dim == p@.vector_dim,
        batch_size == p@.batch_size,
        ticks == p@.tick_count,
        inputs@ == p@.side_inputs,
        *config == p.stages()[i as int],
        match *config {
            StageConfig::Standard { stage, tag } => {
                &&& p@.tags[i as int] == tag
                &&& p@.kinds[i as int] == (StageKind::Standard { stage })
            },
            StageConfig::Custom { tag, .. } => {
                &&& p@.tags[i as int] == tag
                &&& p@.kinds[i as int] is Custom
            },
        },
{
}

/// Data fits vectors of another dimension exactly where the bytes of all data
/// that is known can be counted.
pub proof fn law_metadata_fits<T>(p: &Pipeline<T>, vector_dim: usize, fits: bool)
    requires
        call_ensures(Pipeline::<T>::metadata_fits, (p, vector_dim), fits),
        p.wf(),
        vector_dim * 4 <= usize::MAX,
    ensures
        fits <==> forall|b: int|
            0 <= b < p@.metadata.len() ==> (#[trigger] p@.metadata[b] matches Some(known)
                ==> known.elements * vector_dim * 4 <= usize::MAX),
{
    assert forall|elements: usize| #[trigger] size::batch_bytes(elements, vector_dim) == elements
        * vector_dim * 4 by {
        size::lemma_batch_scalars(elements, vector_dim);
    }
    if fits {
        assert forall|b: int| 0 <= b < p@.metadata.len() implies (
        #[trigger] p@.metadata[b] matches Some(known) ==> known.elements * vector_dim * 4
            <= usize::MAX) by {
            if let Some(known) = p@.metadata[b] {
                assert(size::batch_bytes(known.elements, vector_dim) <= usize::MAX);
            }
        }
    } else {
        assert(!p@.metadata_fits(vector_dim));
    }
}

// ---- metadata ----

/// The default transform size is what it was set to, and nothing else changes.
pub proof fn law_default_n_is_set<T>(
    p: &mut Pipeline<T>,
    q: &mut Pipeline<T>,
    n: usize,
    i: usize,
    told: Result<StagePass, PipelineError>,
)
    requires
        call_ensures(Pipeline::<T>::set_default_n, (p, n), ()),
        call_ensures(Pipeline::<T>::stage_pass, (q, i), told),
        old(p).wf(),
        old(q)@ == final(p)@,
        i < old(p)@.tags.len(),
    ensures
        told matches Ok(pass) ==> pass.n == match old(p)@.metadata[pass.input as int] {
            Some(known) => known.n,
            None => n,
        },
        final(p)@.default_n == n,
        final(p)@.batch_size == old(p)@.batch_size,
        final(p)@.vector_dim == old(p)@.vector_dim,
        final(p)@.tags == old(p)@.tags,
        final(p)@.tick_count == old(p)@.tick_count,
        final(p)@.current_set == old(p)@.current_set,
        final(p)@.metadata == old(p)@.metadata,
        final(p)@.bind_groups == old(p)@.bind_groups,
        final(p)@.kinds == old(p)@.kinds,
        final(p)@.side_inputs == old(p)@.side_inputs,
        final(p).stages() == old(p).stages(),
{
}

/// What is set for a submission is what the first stage is told in this tick,
/// and nothing else changes.
pub proof fn law_metadata_reaches_the_first_stage<T>(
    p: &mut Pipeline<T>,
    q: &mut Pipeline<T>,
    elements: usize,
    n: usize,
    batch_size: usize,
    told: Result<StagePass, PipelineError>,
    b: int,
)
    requires
        call_ensures(
            Pipeline::<T>::set_input_submission_metadata,
            (p, elements, n, batch_size),
            (),
        ),
        call_ensures(Pipeline::<T>::stage_pass, (q, 0usize), told),
        old(p).wf(),
        old(q)@ == final(p)@,
        0 <= b < old(p)@.metadata.len(),
    ensures
        told matches Ok(pass) ==> {
            &&& pass.elements == elements
            &&& pass.n == n
            &&& b != pass.input ==> final(p)@.metadata[b] == old(p)@.metadata[b]
            &&& final(p)@.metadata[pass.input as int] == Some(
                Submission { elements, n, batch_size },
            )
        },
        final(p)@.metadata.len() == old(p)@.metadata.len(),
        final(p)@.default_n == old(p)@.default_n,
        final(p)@.batch_size == old(p)@.batch_size,
        final(p)@.vector_dim == old(p)@.vector_dim,
        final(p)@.tags == old(p)@.tags,
        final(p)@.tick_count == old(p)@.tick_count,
        final(p)@.current_set == old(p)@.current_set,
        final(p)@.bind_groups == old(p)@.bind_groups,
        final(p)@.kinds == old(p)@.kinds,
        final(p)@.side_inputs == old(p)@.side_inputs,
        final(p).stages() == old(p).stages(),
{
}

/// Once all metadata is cleared, every stage is told of a whole batch and of
/// the default transform size, and nothing else changes.
pub proof fn law_cleared_metadata_is_gone<T>(
    p: &mut Pipeline<T>,
    q: &mut Pipeline<T>,
    i: usize,
    told: Result<StagePass, PipelineError>,
    b: int,
)
    requires
        call_ensures(Pipeline::<T>::clear_all_buffer_metadata, (p,), ()),
        call_ensures(Pipeline::<T>::stage_pass, (q, i), told),
        old(p).wf(),
        old(q)@ == final(p)@,
        i < old(p)@.tags.len(),
        0 <= b < old(p)@.metadata.len(),
    ensures
        told matches Ok(pass) ==> pass.elements == old(p)@.batch_size && pass.n == old(
            p,
        )@.default_n,
        final(p)@.metadata.len() == old(p)@.metadata.len(),
        final(p)@.metadata[b] is None,
        final(p)@.default_n == old(p)@.default_n,
        final(p)@.batch_size == old(p)@.batch_size,
        final(p)@.vector_dim == old(p)@.vector_dim,
        final(p)@.tags == old(p)@.tags,
        final(p)@.tick_count == old(p)@.tick_count,
        final(p)@.current_set == old(p)@.current_set,
        final(p)@.bind_groups == old(p)@.bind_groups,
        final(p)@.kinds == old(p)@.kinds,
        final(p)@.side_inputs == old(p)@.side_inputs,
        final(p).stages() == old(p).stages(),
{
}

// ---- sizes ----

/// A plan replaces every buffer of the pipeline once, by one that holds the
/// new batch, and copies as many bytes as both the old and the new buffer have.
pub open spec fn migrates<T>(
    p: &Pipeline<T>,
    batch_size: usize,
    vector_dim: usize,
    buffers: Seq<BufferResize>,
) -> bool {
    &&& buffers.len() == 2 + 2 * p@.tags.len()
    &&& forall|b: int|
        0 <= b < buffers.len() ==> {
            let r = #[trigger] buffers[b];
            let old_size = p@.batch_size * p@.vector_dim * 4;
            &&& r.index == b
            &&& r.new_size == batch_size * vector_dim * 4
            &&& r.copy_size <= old_size
            &&& r.copy_size <= r.new_size
            &&& r.copy_size == old_size || r.copy_size == r.new_size
        }
}

/// A resize is refused to no vectors, has nothing to do where the size stays,
/// and otherwise migrates all buffers, with the vector dimension as it is.
pub proof fn law_resize_migrates<T>(
    p: &Pipeline<T>,
    batch_size: usize,
    result: Result<Option<ResizePlan>, PipelineError>,
)
    requires
        call_ensures(Pipeline::<T>::resize, (p, batch_size), result),
        p.wf(),
        batch_size * p@.vector_dim * 4 <= usize::MAX,
    ensures
        result matches Err(e) ==> e is ZeroBatchSize,
        result is Err <==> batch_size == 0,
        result matches Ok(None) <==> batch_size > 0 && batch_size == p@.batch_size,
        result matches Ok(Some(plan)) ==> {
            &&& plan.batch_size == batch_size
            &&& plan.vector_dim == p@.vector_dim
            &&& migrates(p, batch_size, p@.vector_dim, plan.buffers@)
        },
{
    size::lemma_batch_scalars(p@.batch_size, p@.vector_dim);
    size::lemma_batch_scalars(batch_size, p@.vector_dim);
}

/// A resize to another dimension is refused to no vectors or no scalars, has
/// nothing to do where both sizes stay, and otherwise migrates all buffers.
pub proof fn law_dynamic_resize_migrates<T>(
    p: &Pipeline<T>,
    batch_size: usize,
    vector_dim: usize,
    result: Result<Option<ResizePlan>, PipelineError>,
)
    requires
        call_ensures(Pipeline::<T>::resize_dynamic, (p, batch_size, vector_dim), result)
            || call_ensures(Pipeline::<T>::resize_with_stages, (p, batch_size, vector_dim), result),
        p.wf(),
        batch_size * vector_dim * 4 <= usize::MAX,
    ensures
        result is Err <==> batch_size == 0 || vector_dim == 0,
        result matches Err(e) ==> if batch_size == 0 {
            e is ZeroBatchSize
        } else {
            e is ZeroVectorDim
        },
        result matches Ok(None) <==> batch_size > 0 && vector_dim > 0 && batch_size
            == p@.batch_size && vector_dim == p@.vector_dim,
        result matches Ok(Some(plan)) ==> {
            &&& plan.batch_size == batch_size
            &&& plan.vector_dim == vector_dim
            &&& migrates(p, batch_size, vector_dim, plan.buffers@)
        },
{
    size::lemma_batch_scalars(p@.batch_size, p@.vector_dim);
    size::lemma_batch_scalars(batch_size, vector_dim);
}

/// The resize that larger data asks for migrates all buffers too.
pub proof fn law_input_resize_migrates<T, E>(
    p: &mut Pipeline<T>,
    data: &[E],
    result: Result<InputAction, PipelineError>,
)
    requires
        call_ensures(Pipeline::<T>::write_input::<E>, (p, data), result),
        old(p).wf(),
        data@.len() * 4 <= usize::MAX,
    ensures
        result matches Ok(InputAction::Resize(plan)) ==> migrates(
            old(p),
            plan.batch_size,
            old(p)@.vector_dim,
            plan.buffers@,
        ),
{
    if let Ok(InputAction::Resize(plan)) = result {
        law_input_is_written_or_makes_room(p, data, result);
        size::lemma_batch_scalars(old(p)@.batch_size, old(p)@.vector_dim);
        size::lemma_batch_scalars(plan.batch_size, old(p)@.vector_dim);
    }
}

/// Migrating keeps all data that fits: after it every buffer has the new size,
/// and holds its old scalars as far as it reaches, then zeros.
pub proof fn law_migration_keeps_what_fits<T, E>(
    p: &Pipeline<T>,
    batch_size: usize,
    vector_dim: usize,
    resizes: Seq<BufferResize>,
    buffers: Seq<Seq<E>>,
    zero: E,
    b: int,
)
    requires
        p.wf(),
        migrates(p, batch_size, vector_dim, resizes),
        buffers.len() == resizes.len(),
        0 <= b < buffers.len(),
        buffers[b].len() == p@.batch_size * p@.vector_dim,
    ensures
        ({
            let after = memory::replace_all(buffers, resizes, zero)[b];
            &&& after.len() == batch_size * vector_dim
            &&& forall|k: int|
                0 <= k < after.len() ==> (#[trigger] after[k]) == if k < buffers[b].len() {
                    buffers[b][k]
                } else {
                    zero
                }
        }),
{
    let r = resizes[b];
    let after = memory::replace_all(buffers, resizes, zero)[b];
    let copied = (r.copy_size / 4) as int;
    assert(copied <= buffers[b].len());
    assert(copied == buffers[b].len() || copied == batch_size * vector_dim);
    assert(after.len() == batch_size * vector_dim);
}

/// Once the buffers are replaced, they hold the new number of vectors, which
/// becomes the default transform size, and all bind groups have to be created
/// anew. Tags, ticks, roles and what is known of the data stay.
pub proof fn law_resize_completes<T>(p: &mut Pipeline<T>, batch_size: usize, i: int)
    requires
        call_ensures(Pipeline::<T>::complete_resize, (p, batch_size), ()),
        old(p).wf(),
        0 <= i < old(p)@.tags.len(),
    ensures
        final(p)@.batch_size == batch_size,
        final(p)@.default_n == batch_size,
        final(p)@.vector_dim == old(p)@.vector_dim,
        final(p)@.bind_groups.len() == old(p)@.tags.len(),
        !final(p)@.bind_groups[i],
        final(p)@.tags == old(p)@.tags,
        final(p)@.tick_count == old(p)@.tick_count,
        final(p)@.current_set == old(p)@.current_set,
        final(p)@.metadata == old(p)@.metadata,
        final(p)@.kinds == old(p)@.kinds,
        final(p)@.side_inputs == old(p)@.side_inputs,
{
}

/// Once the buffers are replaced for another dimension, they hold the new
/// number of vectors of it, nothing is known of their data, and all bind groups
/// have to be created anew. Tags, ticks and roles stay.
pub proof fn law_dynamic_resize_completes<T>(
    p: &mut Pipeline<T>,
    batch_size: usize,
    vector_dim: usize,
    i: int,
    b: int,
)
    requires
        call_ensures(Pipeline::<T>::complete_resize_dynamic, (p, batch_size, vector_dim), ()),
        old(p).wf(),
        0 <= i < old(p)@.tags.len(),
        0 <= b < old(p)@.metadata.len(),
    ensures
        final(p)@.batch_size == batch_size,
        final(p)@.default_n == batch_size,
        final(p)@.vector_dim == vector_dim,
        final(p)@.bind_groups.len() == old(p)@.tags.len(),
        !final(p)@.bind_groups[i],
        final(p)@.metadata.len() == old(p)@.metadata.len(),
        final(p)@.metadata[b] is None,
        final(p)@.tags == old(p)@.tags,
        final(p)@.tick_count == old(p)@.tick_count,
        final(p)@.current_set == old(p)@.current_set,
        final(p)@.kinds == old(p)@.kinds,
        final(p)@.side_inputs == old(p)@.side_inputs,
{
}

/// A resize for the sake of the stages ends with both sizes set, whether or not
/// a stage fails; where a size changed, the batch size becomes the default
/// transform size and all bind groups have to be created anew. Tags, ticks,
/// roles and what is known of the data stay.
pub proof fn law_resize_with_stages_completes<T>(
    p: &mut Pipeline<T>,
    batch_size: usize,
    vector_dim: usize,
    result: Result<(), PipelineError>,
    i: int,
)
    requires
        call_ensures(
            Pipeline::<T>::complete_resize_with_stages,
            (p, batch_size, vector_dim),
            result,
        ),
        old(p).wf(),
        0 <= i < old(p)@.tags.len(),
    ensures
        ({
            let same = batch_size == old(p)@.batch_size && vector_dim == old(p)@.vector_dim;
            &&& final(p)@.batch_size == batch_size
            &&& final(p)@.vector_dim == vector_dim
            &&& final(p)@.default_n == if same {
                old(p)@.default_n
            } else {
                batch_size
            }
            &&& final(p)@.bind_groups.len() == old(p)@.tags.len()
            &&& final(p)@.bind_groups[i] == (same && old(p)@.bind_groups[i])
        }),
        final(p)@.metadata == old(p)@.metadata,
        final(p)@.tags == old(p)@.tags,
        final(p)@.tick_count == old(p)@.tick_count,
        final(p)@.current_set == old(p)@.current_set,
        final(p)@.kinds == old(p)@.kinds,
        final(p)@.side_inputs == old(p)@.side_inputs,
{
}

// ---- side inputs ----

/// A side input is found under the name that it was added with, at the index
/// that adding it returned. A new name comes last, one in use keeps its place,
/// and every other side input is found as before. Nothing else changes.
pub proof fn law_added_side_input_is_found<T, N: Into<String>>(
    p: &mut Pipeline<T>,
    q: &Pipeline<T>,
    name: N,
    chars: Seq<char>,
    buffer: Arc<wgpu::Buffer>,
    index: usize,
    asked: &str,
    found: Option<&Arc<wgpu::Buffer>>,
    at: Option<usize>,
    found_before: Option<&Arc<wgpu::Buffer>>,
    at_before: Option<usize>,
    before: &Pipeline<T>,
)
    requires
        call_ensures(Pipeline::<T>::add_side_input::<N>, (p, name, buffer), index),
        forall|text: String| #[trigger] call_ensures(N::into, (name,), text) ==> text@ == chars,
        *before == *old(p),
        call_ensures(Pipeline::<T>::get_side_input, (before, asked), found_before),
        call_ensures(Pipeline::<T>::get_side_input_index, (before, asked), at_before),
        *q == *final(p),
        call_ensures(Pipeline::<T>::get_side_input, (q, asked), found),
        call_ensures(Pipeline::<T>::get_side_input_index, (q, asked), at),
        old(p).wf(),
        old(p)@.side_inputs.len() < usize::MAX,
    ensures
        asked@ == chars ==> found == Some(&buffer) && at == Some(index),
        asked@ == chars ==> match at_before {
            Some(i) => index == i,
            None => index == old(p)@.side_inputs.len(),
        },
        asked@ != chars ==> found == found_before && at == at_before,
        final(p)@.side_inputs.len() == old(p)@.side_inputs.len() + if exists|i: int|
            0 <= i < old(p)@.side_inputs.len() && (#[trigger] old(p)@.side_inputs[i]).0 == chars {
            0int
        } else {
            1
        },
        final(p)@.tags == old(p)@.tags,
        final(p)@.tick_count == old(p)@.tick_count,
        final(p)@.current_set == old(p)@.current_set,
        final(p)@.default_n == old(p)@.default_n,
        final(p)@.batch_size == old(p)@.batch_size,
        final(p)@.vector_dim == old(p)@.vector_dim,
        final(p)@.metadata == old(p)@.metadata,
        final(p)@.bind_groups == old(p)@.bind_groups,
        final(p)@.kinds == old(p)@.kinds,
        final(p).stages() == old(p).stages(),
{
    let entries = old(p)@.side_inputs;
    crate::pipeline::laws::law_side_input_is_found(entries, chars, buffer, asked@);
    assert(q@.side_inputs == final(p)@.side_inputs);
}

/// What is put under a name is found under it, at the index that putting it
/// there returned, and everything under another name is found as before: a new name
/// comes last, and one in use keeps its place. At first there is nothing.
pub proof fn law_inserted_is_found<B>(
    empty: SideInputs<B>,
    inputs: &mut SideInputs<B>,
    before: &SideInputs<B>,
    after: &SideInputs<B>,
    name: String,
    buffer: B,
    index: usize,
    asked: &str,
    found: Option<&B>,
    at: Option<usize>,
    found_before: Option<&B>,
    at_before: Option<usize>,
    len: usize,
    len_before: usize,
)
    requires
        call_ensures(SideInputs::<B>::new, (), empty),
        call_ensures(SideInputs::<B>::insert, (inputs, name, buffer), index),
        *before == *old(inputs),
        *after == *final(inputs),
        before.wf(),
        call_ensures(SideInputs::<B>::get, (before, asked), found_before),
        call_ensures(SideInputs::<B>::index_of, (before, asked), at_before),
        call_ensures(SideInputs::<B>::len, (before,), len_before),
        call_ensures(SideInputs::<B>::get, (after, asked), found),
        call_ensures(SideInputs::<B>::index_of, (after, asked), at),
        call_ensures(SideInputs::<B>::len, (after,), len),
    ensures
        empty@.len() == 0,
        asked@ == name@ ==> {
            &&& found == Some(&buffer)
            &&& at == Some(index)
            &&& index == match at_before {
                Some(i) => i,
                None => len_before,
            }
            &&& len == len_before + if at_before is Some {
                0int
            } else {
                1
            }
        },
        asked@ != name@ ==> found == found_before && at == at_before,
{
    let entries = before@;
    crate::pipeline::laws::law_side_input_is_found(entries, name@, buffer, asked@);
}

} // verus!
