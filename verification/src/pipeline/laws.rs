//! What holds of pipelines whose stages share one size, over several requests.

use std::sync::Arc;

use vstd::prelude::*;

use crate::memory;
use crate::memory::Kernel;
use crate::pipeline::builder;
use crate::pipeline::ping_pong::TickEvent;
use crate::pipeline::size;
use crate::pipeline::state::PipelineState;
use crate::plan;
use crate::plan::{BindingEntry, BufferResize, StagePass, StageWork, Submission};
use crate::side_inputs;
use crate::wgpu_utils::ComputeContext;

verus! {

// ---- one tick ----

/// What the first `k` stages did: the metadata of the buffers that they
/// wrote, the bind groups that they created, and nothing else.
proof fn lemma_stages_done<T>(s: PipelineState<T>, k: nat)
    requires
        s.wf(),
        k <= s.num_stages(),
    ensures
        s.stages_done(k) == (PipelineState {
            bind_groups: s.stages_done(k).bind_groups,
            metadata: s.stages_done(k).metadata,
            ..s
        }),
        s.stages_done(k).wf(),
        s.stages_done(k).metadata == Seq::new(
            s.metadata.len(),
            |b: int|
                if 2 <= b < 2 * k + 2 && b % 2 == 1 - s.current_set {
                    s.metadata[b - 3 + 2 * s.current_set]
                } else {
                    s.metadata[b]
                },
        ),
        s.stages_done(k).bind_groups == Seq::new(
            s.num_stages(),
            |i: int| s.bind_groups[i] || i < k && s.kinds[i] is Standard,
        ),
    decreases k,
{
    let expected_metadata = Seq::new(
        s.metadata.len(),
        |b: int|
            if 2 <= b < 2 * k + 2 && b % 2 == 1 - s.current_set {
                s.metadata[b - 3 + 2 * s.current_set]
            } else {
                s.metadata[b]
            },
    );
    let expected_bind_groups = Seq::new(
        s.num_stages(),
        |i: int| s.bind_groups[i] || i < k && s.kinds[i] is Standard,
    );
    if k > 0 {
        let p = (k - 1) as nat;
        lemma_stages_done(s, p);
        let before = s.stages_done(p);
        let input = before.input_of(k - 1);
        assert(before.metadata[input] == s.metadata[input]);
    }
    assert(s.stages_done(k).metadata =~= expected_metadata);
    assert(s.stages_done(k).bind_groups =~= expected_bind_groups);
}

/// All stages of a tick may work at the same time: what a stage has to do in
/// a tick does not depend on the stages that went before it in that tick.
pub proof fn law_stages_work_at_once<T>(s: PipelineState<T>, k: nat, i: int)
    requires
        s.wf(),
        k <= i < s.num_stages(),
    ensures
        s.stages_done(k).pass(i) == s.pass(i),
{
    lemma_stages_done(s, k);
}

/// No stage writes what a stage reads in the same tick, no two stages write
/// the same buffer, and every buffer of a stage exists.
pub proof fn law_stages_are_isolated<T>(s: PipelineState<T>, i: int, j: int)
    requires
        s.wf(),
        0 <= i < s.num_stages(),
        0 <= j < s.num_stages(),
    ensures
        s.output_of(i) != s.input_of(j),
        i != j ==> s.output_of(i) != s.output_of(j),
        0 <= s.input_of(i) < s.metadata.len(),
        0 <= s.output_of(i) < s.metadata.len(),
{
}

/// What a stage writes in a tick, the next stage reads in the tick after it.
pub proof fn law_hand_off<T>(s: PipelineState<T>, i: int)
    requires
        s.wf(),
    ensures
        s.complete().input_of(i + 1) == s.output_of(i),
        s.complete().finished_output() == s.last_output(),
{
}

/// Roles alternate: after two ticks, every stage reads and writes the buffers
/// that it read and wrote before.
pub proof fn law_roles_alternate<T>(s: PipelineState<T>, i: int)
    requires
        s.wf(),
    ensures
        s.flip().input_of(i) != s.input_of(i),
        s.flip().output_of(i) != s.output_of(i),
        s.flip().flip() == s,
{
}

// ---- whole calls of `process`, the device included ----

/// One call of `process`.
pub struct Step<T, E> {
    /// The data, where there is some.
    pub data: Option<Seq<E>>,
    /// The tag.
    pub tag: T,
}

/// Whether the data of a call is accepted and fits in the buffers.
pub open spec fn fits<T, E>(s: PipelineState<T>, step: Step<T, E>) -> bool {
    step.data matches Some(d) ==> s.input_error(d.len()) is None && d.len() * 4 <= s.buffer_bytes()
}

/// Whether the data of a call is accepted. It may be more than the buffers
/// hold.
pub open spec fn accepted<T, E>(s: PipelineState<T>, step: Step<T, E>) -> bool {
    step.data matches Some(d) ==> s.input_error(d.len()) is None && d.len() * 4 <= usize::MAX
}

/// The state in which a call begins: buffers that are too small for the data
/// were replaced.
pub open spec fn with_room<T, E>(s: PipelineState<T>, step: Step<T, E>) -> PipelineState<T> {
    match step.data {
        Some(d) if d.len() * 4 > s.buffer_bytes() => s.replaced(
            s.input_elements(d.len()),
            s.vector_dim,
        ),
        _ => s,
    }
}

/// The contents of the buffers in which a call begins.
pub open spec fn roomy<T, E>(
    s: PipelineState<T>,
    buffers: Seq<Seq<E>>,
    step: Step<T, E>,
    zero: E,
) -> Seq<Seq<E>> {
    match step.data {
        Some(d) if d.len() * 4 > s.buffer_bytes() => memory::replace_all(
            buffers,
            s.replacements(s.input_elements(d.len()), s.vector_dim),
            zero,
        ),
        _ => buffers,
    }
}

/// The state when the stages begin their work.
pub open spec fn begun<T, E>(s: PipelineState<T>, step: Step<T, E>) -> PipelineState<T> {
    match step.data {
        Some(d) => s.accept(s.input_elements(d.len())).forward(step.tag),
        None => s.forward(step.tag),
    }
}

/// The contents of the buffers when the stages begin their work.
pub open spec fn loaded<T, E>(
    s: PipelineState<T>,
    buffers: Seq<Seq<E>>,
    step: Step<T, E>,
) -> Seq<Seq<E>> {
    match step.data {
        Some(d) => buffers.update(
            s.current_set as int,
            memory::written(buffers[s.current_set as int], d),
        ),
        None => buffers,
    }
}

/// What all stages do in a tick.
pub open spec fn passes<T>(s: PipelineState<T>) -> Seq<StagePass> {
    Seq::new(s.num_stages(), |i: int| s.pass(i))
}

/// The state when the stages have done their work.
pub open spec fn worked<T, E>(s: PipelineState<T>, step: Step<T, E>) -> PipelineState<T> {
    begun(s, step).stages_done(s.num_stages())
}

/// The contents of the buffers after a call whose data fits.
pub open spec fn buffers_after<T, E>(
    s: PipelineState<T>,
    buffers: Seq<Seq<E>>,
    step: Step<T, E>,
    kernels: Seq<Kernel<E>>,
) -> Seq<Seq<E>> {
    memory::run_passes(loaded(s, buffers, step), passes(begun(s, step)), kernels)
}

/// The state after a call whose data fits.
pub open spec fn after<T, E>(s: PipelineState<T>, step: Step<T, E>) -> PipelineState<T> {
    let w = worked(s, step);
    if s.output_due() && w.readback(w.last_output()) is Some {
        w.complete().take_tag()
    } else {
        w.complete()
    }
}

/// What a call whose data fits returns: a tag and data, or nothing.
pub open spec fn returned<T, E>(
    s: PipelineState<T>,
    buffers: Seq<Seq<E>>,
    step: Step<T, E>,
    kernels: Seq<Kernel<E>>,
) -> Option<(Option<T>, Seq<E>)> {
    let w = worked(s, step);
    match w.readback(w.last_output()) {
        Some(r) => if s.output_due() {
            Some(
                (
                    w.tags.last(),
                    buffers_after(s, buffers, step, kernels)[r.buffer as int].take(
                        r.scalars as int,
                    ),
                ),
            )
        } else {
            None
        },
        None => None,
    }
}

/// The state after a call.
pub open spec fn called<T, E>(s: PipelineState<T>, step: Step<T, E>) -> PipelineState<T> {
    after(with_room(s, step), step)
}

/// The contents of the buffers after a call.
pub open spec fn buffers_called<T, E>(
    s: PipelineState<T>,
    buffers: Seq<Seq<E>>,
    step: Step<T, E>,
    kernels: Seq<Kernel<E>>,
    zero: E,
) -> Seq<Seq<E>> {
    buffers_after(with_room(s, step), roomy(s, buffers, step, zero), step, kernels)
}

/// What a call returns: a tag and data, or nothing.
pub open spec fn answered<T, E>(
    s: PipelineState<T>,
    buffers: Seq<Seq<E>>,
    step: Step<T, E>,
    kernels: Seq<Kernel<E>>,
    zero: E,
) -> Option<(Option<T>, Seq<E>)> {
    returned(with_room(s, step), roomy(s, buffers, step, zero), step, kernels)
}

/// The state after a number of calls.
pub open spec fn after_all<T, E>(s: PipelineState<T>, steps: Seq<Step<T, E>>) -> PipelineState<T>
    decreases steps.len(),
{
    if steps.len() == 0 {
        s
    } else {
        called(after_all(s, steps.drop_last()), steps.last())
    }
}

/// The contents of the buffers after a number of calls.
pub open spec fn buffers_after_all<T, E>(
    s: PipelineState<T>,
    buffers: Seq<Seq<E>>,
    steps: Seq<Step<T, E>>,
    kernels: Seq<Kernel<E>>,
    zero: E,
) -> Seq<Seq<E>>
    decreases steps.len(),
{
    if steps.len() == 0 {
        buffers
    } else {
        buffers_called(
            after_all(s, steps.drop_last()),
            buffers_after_all(s, buffers, steps.drop_last(), kernels, zero),
            steps.last(),
            kernels,
            zero,
        )
    }
}

/// What the last of a number of calls returns.
pub open spec fn last_answer<T, E>(
    s: PipelineState<T>,
    buffers: Seq<Seq<E>>,
    steps: Seq<Step<T, E>>,
    kernels: Seq<Kernel<E>>,
    zero: E,
) -> Option<(Option<T>, Seq<E>)> {
    answered(
        after_all(s, steps.drop_last()),
        buffers_after_all(s, buffers, steps.drop_last(), kernels, zero),
        steps.last(),
        kernels,
        zero,
    )
}

/// Whether the buffers and kernels are those of this pipeline.
pub open spec fn device_matches<T, E>(
    s: PipelineState<T>,
    buffers: Seq<Seq<E>>,
    kernels: Seq<Kernel<E>>,
) -> bool {
    &&& buffers.len() == s.metadata.len()
    &&& memory::sized(buffers, (s.batch_size * s.vector_dim) as nat)
    &&& kernels.len() == s.num_stages()
    &&& memory::keep_sizes(kernels)
}

/// Whether stage `j` is about to read `y`, `elements` vectors, and the tag
/// that came with it is in the stage before.
pub open spec fn in_flight<T, E>(
    s: PipelineState<T>,
    buffers: Seq<Seq<E>>,
    j: int,
    tag: T,
    y: Seq<E>,
    elements: usize,
) -> bool {
    let b = s.input_of(j);
    &&& y.len() == elements * s.vector_dim
    &&& s.metadata[b] matches Some(known) && known.elements == elements
    &&& y.len() <= buffers[b].len()
    &&& buffers[b].take(y.len() as int) == y
    &&& s.tags[j - 1] == Some(tag)
}

/// Each stage that worked left what its kernel made of its input, and no
/// other buffer changed.
proof fn lemma_run_passes<T, E>(
    s: PipelineState<T>,
    buffers: Seq<Seq<E>>,
    kernels: Seq<Kernel<E>>,
    k: nat,
)
    requires
        s.wf(),
        k <= s.num_stages(),
        buffers.len() == s.metadata.len(),
    ensures
        ({
            let after = memory::run_passes(buffers, passes(s).take(k as int), kernels);
            &&& after.len() == buffers.len()
            &&& forall|i: int|
                0 <= i < k ==> (#[trigger] after[s.output_of(i)]) == kernels[i](
                    s.pass(i),
                    buffers[s.input_of(i)],
                    buffers[s.output_of(i)],
                )
            &&& forall|b: int|
                0 <= b < buffers.len() && !(2 <= b < 2 * k + 2 && b % 2 == 1 - s.current_set)
                    ==> (#[trigger] after[b]) == buffers[b]
        }),
    decreases k,
{
    if k > 0 {
        let p = (k - 1) as nat;
        lemma_run_passes(s, buffers, kernels, p);
        let shorter = passes(s).take(p as int);
        let longer = passes(s).take(k as int);
        assert(longer.drop_last() =~= shorter);
        assert(longer.last() == s.pass(p as int));
        let before = memory::run_passes(buffers, shorter, kernels);
        let after = memory::run_passes(buffers, longer, kernels);
        assert(after == memory::run_pass(before, s.pass(p as int), kernels));
        assert(before[s.input_of(p as int)] == buffers[s.input_of(p as int)]);
        assert(before[s.output_of(p as int)] == buffers[s.output_of(p as int)]);
        assert forall|i: int| 0 <= i < k implies (#[trigger] after[s.output_of(i)]) == kernels[i](
            s.pass(i),
            buffers[s.input_of(i)],
            buffers[s.output_of(i)],
        ) by {
            if i == p {
                assert(s.pass(p as int).output == s.output_of(i));
            } else {
                assert(s.output_of(i) != s.output_of(p as int));
                assert(before[s.output_of(i)] == kernels[i](
                    s.pass(i),
                    buffers[s.input_of(i)],
                    buffers[s.output_of(i)],
                ));
            }
        }
    }
}

/// Accepted input consists of whole vectors.
proof fn lemma_whole_vectors<T>(s: PipelineState<T>, len: nat)
    requires
        s.wf(),
        s.input_error(len) is None,
        len * 4 <= usize::MAX,
    ensures
        s.input_elements(len) * s.vector_dim == len,
        size::batch_bytes(s.input_elements(len), s.vector_dim) == len * 4,
{
    let bytes = (len * 4) as int;
    let per_vector = size::vector_bytes(s.vector_dim) as int;
    let elements = bytes / per_vector;
    assert(0 <= elements <= bytes && elements * per_vector == bytes) by (nonlinear_arith)
        requires
            bytes >= 0,
            per_vector > 0,
            bytes % per_vector == 0,
            elements == bytes / per_vector,
    ;
    assert(s.input_elements(len) == elements);
    size::lemma_batch_scalars(s.input_elements(len), s.vector_dim);
}

/// The state in which the stages begin their work is a valid one, and so is
/// the one in which they have done it.
proof fn lemma_process_keeps_wf<T, E>(s: PipelineState<T>, step: Step<T, E>)
    requires
        s.wf(),
        fits(s, step),
        s.tick_count < u64::MAX,
    ensures
        begun(s, step).wf(),
        worked(s, step).wf(),
        after(s, step).wf(),
        s.output_due() ==> worked(s, step).tags.last() is Some,
        after(s, step).tick_count == s.tick_count + 1,
        after(s, step).current_set == 1 - s.current_set,
        after(s, step) == (PipelineState {
            current_set: after(s, step).current_set,
            tick_count: after(s, step).tick_count,
            tags: after(s, step).tags,
            bind_groups: after(s, step).bind_groups,
            metadata: after(s, step).metadata,
            ..s
        }),
        after(s, step).tags.len() == s.tags.len(),
        after(s, step).metadata.len() == s.metadata.len(),
{
    if let Some(d) = step.data {
        lemma_whole_vectors(s, d.len());
    }
    let b = begun(s, step);
    assert(b.wf());
    lemma_stages_done(b, s.num_stages());
    let w = worked(s, step);
    assert forall|i: int| 0 <= i < s.tick_count + 1 && i + 1 < s.tags.len() implies (
    #[trigger] w.tags[i]) is Some by {
        if i > 0 {
            assert(w.tags[i] == s.tags[i - 1]);
        }
    }
}

/// A call changes no sizes: the buffers and kernels stay those of the
/// pipeline.
proof fn lemma_device_kept<T, E>(
    s: PipelineState<T>,
    buffers: Seq<Seq<E>>,
    kernels: Seq<Kernel<E>>,
    step: Step<T, E>,
)
    requires
        s.wf(),
        fits(s, step),
        s.tick_count < u64::MAX,
        device_matches(s, buffers, kernels),
    ensures
        loaded(s, buffers, step).len() == buffers.len(),
        memory::sized(loaded(s, buffers, step), (s.batch_size * s.vector_dim) as nat),
        device_matches(after(s, step), buffers_after(s, buffers, step, kernels), kernels),
{
    lemma_process_keeps_wf(s, step);
    let n = s.num_stages();
    let b = begun(s, step);
    let start = loaded(s, buffers, step);
    let end = buffers_after(s, buffers, step, kernels);
    let capacity = s.batch_size * s.vector_dim;
    size::lemma_batch_scalars(s.batch_size, s.vector_dim);
    if let Some(d) = step.data {
        lemma_whole_vectors(s, d.len());
        assert(memory::written(buffers[s.current_set as int], d).len() == capacity);
    }
    assert(memory::sized(start, capacity as nat));
    lemma_run_passes(b, start, kernels, n);
    assert(passes(b).take(n as int) =~= passes(b));
    assert forall|c: int| 0 <= c < end.len() implies (#[trigger] end[c]).len() == capacity by {
        if 2 <= c && c % 2 == 1 - s.current_set {
            let i = (c - 2 - (1 - s.current_set)) / 2;
            assert(c == b.output_of(i));
            assert(end[b.output_of(i)].len() == start[b.output_of(i)].len());
        }
    }
}

/// Whether stage `j` reads `y`, `elements` vectors, in this call, and the tag
/// that came with it is there when it has.
pub open spec fn reads<T, E>(
    s: PipelineState<T>,
    buffers: Seq<Seq<E>>,
    step: Step<T, E>,
    j: int,
    tag: T,
    y: Seq<E>,
    elements: usize,
) -> bool {
    if j == 0 {
        step.data == Some(y) && step.tag == tag && elements == s.input_elements(y.len())
    } else {
        in_flight(s, buffers, j, tag, y, elements)
    }
}

/// What stage `j` reads is in its input buffer when the stages begin.
proof fn lemma_reads<T, E>(
    s: PipelineState<T>,
    buffers: Seq<Seq<E>>,
    kernels: Seq<Kernel<E>>,
    step: Step<T, E>,
    j: int,
    tag: T,
    y: Seq<E>,
    elements: usize,
)
    requires
        s.wf(),
        fits(s, step),
        device_matches(s, buffers, kernels),
        0 <= j < s.num_stages(),
        reads(s, buffers, step, j, tag, y, elements),
    ensures
        y.len() == elements * s.vector_dim,
        y.len() <= s.batch_size * s.vector_dim,
        loaded(s, buffers, step)[begun(s, step).input_of(j)].take(y.len() as int) == y,
        begun(s, step).metadata[begun(s, step).input_of(j)] matches Some(known) && known.elements
            == elements,
        begun(s, step).tags[j] == Some(tag),
{
    size::lemma_batch_scalars(s.batch_size, s.vector_dim);
    let b = begun(s, step);
    let input = b.input_of(j);
    assert(0 <= input < buffers.len());
    assert(buffers[input].len() == s.batch_size * s.vector_dim);
    if j == 0 {
        lemma_whole_vectors(s, y.len());
        assert(memory::written(buffers[input], y).take(y.len() as int) =~= y);
    }
}

/// Where stage `j` reads `y`, it leaves what it makes of it in its output
/// buffer, and what is known of it goes along.
proof fn lemma_stage_output<T, E>(
    s: PipelineState<T>,
    buffers: Seq<Seq<E>>,
    kernels: Seq<Kernel<E>>,
    step: Step<T, E>,
    j: int,
    tag: T,
    y: Seq<E>,
    elements: usize,
    f: spec_fn(Seq<E>) -> Seq<E>,
)
    requires
        s.wf(),
        fits(s, step),
        s.tick_count < u64::MAX,
        device_matches(s, buffers, kernels),
        0 <= j < s.num_stages(),
        memory::computes(kernels[j], f, elements, s.vector_dim),
        reads(s, buffers, step, j, tag, y, elements),
    ensures
        f(y).len() == y.len(),
        buffers_after(s, buffers, step, kernels)[s.output_of(j)].take(y.len() as int) == f(y),
        worked(s, step).metadata[s.output_of(j)] matches Some(known) && known.elements == elements,
        worked(s, step).tags[j] == Some(tag),
{
    lemma_process_keeps_wf(s, step);
    lemma_device_kept(s, buffers, kernels, step);
    lemma_reads(s, buffers, kernels, step, j, tag, y, elements);
    let n = s.num_stages();
    let b = begun(s, step);
    let start = loaded(s, buffers, step);
    lemma_stages_done(b, n);
    lemma_run_passes(b, start, kernels, n);
    assert(passes(b).take(n as int) =~= passes(b));
    let pass = b.pass(j);
    let input = b.input_of(j);
    let output = b.output_of(j);
    assert(memory::covers(pass, elements, s.vector_dim)) by {
        assert(plan::workgroups((elements * s.vector_dim) as nat) <= u32::MAX);
    }
    assert(start[input].len() >= y.len());
    assert(start[output].len() >= y.len());
    assert(buffers_after(s, buffers, step, kernels)[b.output_of(j)] == kernels[j](
        pass,
        start[input],
        start[output],
    ));
    assert(output - 3 + 2 * s.current_set == input);
}

/// Where stage `j` reads `y`, what it makes of it is on its way out after the
/// call, or comes out of it, and so does the tag.
proof fn lemma_step<T, E>(
    s: PipelineState<T>,
    buffers: Seq<Seq<E>>,
    kernels: Seq<Kernel<E>>,
    step: Step<T, E>,
    j: int,
    tag: T,
    y: Seq<E>,
    elements: usize,
    f: spec_fn(Seq<E>) -> Seq<E>,
)
    requires
        s.wf(),
        fits(s, step),
        s.tick_count < u64::MAX,
        device_matches(s, buffers, kernels),
        0 <= j < s.num_stages(),
        memory::computes(kernels[j], f, elements, s.vector_dim),
        reads(s, buffers, step, j, tag, y, elements),
    ensures
        device_matches(after(s, step), buffers_after(s, buffers, step, kernels), kernels),
        j + 1 < s.num_stages() ==> in_flight(
            after(s, step),
            buffers_after(s, buffers, step, kernels),
            j + 1,
            tag,
            f(y),
            elements,
        ),
        j + 1 == s.num_stages() && s.output_due() && y.len() > 0 ==> returned(
            s,
            buffers,
            step,
            kernels,
        ) == Some((Some(tag), f(y))),
{
    lemma_process_keeps_wf(s, step);
    lemma_device_kept(s, buffers, kernels, step);
    lemma_reads(s, buffers, kernels, step, j, tag, y, elements);
    lemma_stage_output(s, buffers, kernels, step, j, tag, y, elements, f);
    lemma_stages_done(begun(s, step), s.num_stages());
    let w = worked(s, step);
    let output = s.output_of(j);
    assert(after(s, step).input_of(j + 1) == output);
    assert(w.output_of(j) == output);
    if j + 1 == s.num_stages() && s.output_due() && y.len() > 0 {
        size::lemma_batch_scalars(elements, s.vector_dim);
        size::lemma_batch_scalars(s.batch_size, s.vector_dim);
        assert(w.last_output() == output);
        let r = w.readback(output);
        assert(r is Some && r->0.scalars == y.len());
    }
}

/// Where buffers that are too small are replaced, the data fits, and nothing
/// changes but the size.
proof fn lemma_room<T, E>(s: PipelineState<T>, step: Step<T, E>)
    requires
        s.wf(),
        accepted(s, step),
    ensures
        with_room(s, step).wf(),
        fits(with_room(s, step), step),
        with_room(s, step).vector_dim == s.vector_dim,
        with_room(s, step).tags == s.tags,
        with_room(s, step).tick_count == s.tick_count,
        with_room(s, step).current_set == s.current_set,
        with_room(s, step).metadata == s.metadata,
        with_room(s, step).kinds == s.kinds,
        with_room(s, step).batch_size >= s.batch_size,
{
    if let Some(d) = step.data {
        if d.len() * 4 > s.buffer_bytes() {
            law_resize_makes_room(s, step, d);
        }
    }
}

/// Where buffers that are too small are replaced, the device still matches.
proof fn lemma_roomy<T, E>(
    s: PipelineState<T>,
    buffers: Seq<Seq<E>>,
    kernels: Seq<Kernel<E>>,
    step: Step<T, E>,
    zero: E,
)
    requires
        s.wf(),
        accepted(s, step),
        device_matches(s, buffers, kernels),
    ensures
        device_matches(with_room(s, step), roomy(s, buffers, step, zero), kernels),
{
    lemma_room(s, step);
    if let Some(d) = step.data {
        if d.len() * 4 > s.buffer_bytes() {
            lemma_replaced_sizes(s, buffers, s.input_elements(d.len()), zero);
        }
    }
}

/// Where buffers that are too small are replaced, data on its way stays.
proof fn lemma_roomy_keeps<T, E>(
    s: PipelineState<T>,
    buffers: Seq<Seq<E>>,
    kernels: Seq<Kernel<E>>,
    step: Step<T, E>,
    zero: E,
    j: int,
    tag: T,
    y: Seq<E>,
    elements: usize,
)
    requires
        s.wf(),
        accepted(s, step),
        device_matches(s, buffers, kernels),
        1 <= j <= s.num_stages(),
        in_flight(s, buffers, j, tag, y, elements),
    ensures
        in_flight(with_room(s, step), roomy(s, buffers, step, zero), j, tag, y, elements),
{
    lemma_room(s, step);
    if let Some(d) = step.data {
        if d.len() * 4 > s.buffer_bytes() {
            let new_batch_size = s.input_elements(d.len());
            let b = s.input_of(j);
            assert(buffers[b].len() == s.batch_size * s.vector_dim);
            assert(elements <= s.batch_size) by (nonlinear_arith)
                requires
                    elements * s.vector_dim <= s.batch_size * s.vector_dim,
                    s.vector_dim >= 1,
            ;
            law_resize_keeps_data_in_flight(
                s,
                buffers,
                kernels,
                new_batch_size,
                zero,
                j,
                tag,
                y,
                elements,
            );
        }
    }
}

/// Where stage `j` reads `y`, what it makes of it is on its way out after the
/// call, or comes out of it, and so does the tag.
proof fn lemma_call<T, E>(
    s: PipelineState<T>,
    buffers: Seq<Seq<E>>,
    kernels: Seq<Kernel<E>>,
    step: Step<T, E>,
    zero: E,
    j: int,
    tag: T,
    y: Seq<E>,
    elements: usize,
    f: spec_fn(Seq<E>) -> Seq<E>,
)
    requires
        s.wf(),
        accepted(s, step),
        s.tick_count < u64::MAX,
        device_matches(s, buffers, kernels),
        0 <= j < s.num_stages(),
        memory::computes(kernels[j], f, elements, s.vector_dim),
        reads(s, buffers, step, j, tag, y, elements),
    ensures
        y.len() == elements * s.vector_dim,
        device_matches(called(s, step), buffers_called(s, buffers, step, kernels, zero), kernels),
        j + 1 < s.num_stages() ==> in_flight(
            called(s, step),
            buffers_called(s, buffers, step, kernels, zero),
            j + 1,
            tag,
            f(y),
            elements,
        ),
        j + 1 == s.num_stages() && s.output_due() && y.len() > 0 ==> answered(
            s,
            buffers,
            step,
            kernels,
            zero,
        ) == Some((Some(tag), f(y))),
{
    let r = with_room(s, step);
    let rooms = roomy(s, buffers, step, zero);
    lemma_room(s, step);
    lemma_roomy(s, buffers, kernels, step, zero);
    if j > 0 {
        lemma_roomy_keeps(s, buffers, kernels, step, zero, j, tag, y, elements);
    }
    lemma_reads(r, rooms, kernels, step, j, tag, y, elements);
    lemma_step(r, rooms, kernels, step, j, tag, y, elements, f);
}

/// Where the data of every call is accepted, it is of all calls but the last.
proof fn lemma_fewer_accepted<T, E>(s: PipelineState<T>, steps: Seq<Step<T, E>>)
    requires
        steps.len() > 0,
        forall|k: int| 0 <= k < steps.len() ==> accepted(s, #[trigger] steps[k]),
    ensures
        forall|k: int|
            0 <= k < steps.drop_last().len() ==> accepted(s, #[trigger] steps.drop_last()[k]),
        accepted(s, steps.last()),
{
    let shorter = steps.drop_last();
    assert forall|k: int| 0 <= k < shorter.len() implies accepted(s, #[trigger] shorter[k]) by {
        assert(shorter[k] == steps[k]);
    }
    assert(accepted(s, steps[steps.len() - 1]));
}

/// Calls change neither the vector dimension nor the number of stages, shrink
/// no buffer, and count ticks.
proof fn lemma_calls<T, E>(s: PipelineState<T>, steps: Seq<Step<T, E>>)
    requires
        s.wf(),
        s.tick_count + steps.len() <= u64::MAX,
        forall|k: int| 0 <= k < steps.len() ==> accepted(s, #[trigger] steps[k]),
    ensures
        after_all(s, steps).wf(),
        after_all(s, steps).tick_count == s.tick_count + steps.len(),
        after_all(s, steps).num_stages() == s.num_stages(),
        after_all(s, steps).vector_dim == s.vector_dim,
        after_all(s, steps).batch_size >= s.batch_size,
    decreases steps.len(),
{
    if steps.len() > 0 {
        let shorter = steps.drop_last();
        lemma_fewer_accepted(s, steps);
        lemma_calls(s, shorter);
        let before = after_all(s, shorter);
        lemma_room(before, steps.last());
        lemma_process_keeps_wf(with_room(before, steps.last()), steps.last());
    }
}

/// The tag of the first of a number of calls moves on by one stage per call.
proof fn lemma_tag_on_its_way<T, E>(s: PipelineState<T>, steps: Seq<Step<T, E>>)
    requires
        s.wf(),
        1 <= steps.len() <= s.num_stages(),
        s.tick_count + steps.len() <= u64::MAX,
        forall|k: int| 0 <= k < steps.len() ==> accepted(s, #[trigger] steps[k]),
    ensures
        worked(
            with_room(after_all(s, steps.drop_last()), steps.last()),
            steps.last(),
        ).tags[steps.len() - 1] == Some(steps[0].tag),
    decreases steps.len(),
{
    let shorter = steps.drop_last();
    lemma_fewer_accepted(s, steps);
    lemma_calls(s, shorter);
    let before = after_all(s, shorter);
    let r = with_room(before, steps.last());
    lemma_room(before, steps.last());
    lemma_process_keeps_wf(r, steps.last());
    lemma_stages_done(begun(r, steps.last()), s.num_stages());
    if shorter.len() > 0 {
        lemma_tag_on_its_way(s, shorter);
        assert(shorter[0] == steps[0]);
        let earlier = after_all(s, shorter.drop_last());
        let w = worked(with_room(earlier, shorter.last()), shorter.last());
        lemma_fewer_accepted(s, shorter);
        lemma_calls(s, shorter.drop_last());
        lemma_room(earlier, shorter.last());
        lemma_process_keeps_wf(with_room(earlier, shorter.last()), shorter.last());
        lemma_stages_done(begun(with_room(earlier, shorter.last()), shorter.last()), s.num_stages());
        assert(before.tags[shorter.len() - 1] == w.tags[shorter.len() - 1]);
        assert(worked(r, steps.last()).tags[steps.len() - 1] == before.tags[steps.len() - 2]);
    }
}

/// Tags follow the data: the tag that comes out of a call is the one that
/// went in `n - 1` calls before, in a pipeline of `n` stages, whatever the
/// calls between brought, and whether or not their data made the buffers grow.
pub proof fn law_tags_follow_the_data<T, E>(s: PipelineState<T>, steps: Seq<Step<T, E>>)
    requires
        s.wf(),
        steps.len() == s.num_stages(),
        s.tick_count + steps.len() <= u64::MAX,
        forall|k: int| 0 <= k < steps.len() ==> accepted(s, #[trigger] steps[k]),
    ensures
        worked(
            with_room(after_all(s, steps.drop_last()), steps.last()),
            steps.last(),
        ).tags.last() == Some(steps[0].tag),
{
    let shorter = steps.drop_last();
    lemma_fewer_accepted(s, steps);
    lemma_calls(s, shorter);
    lemma_tag_on_its_way(s, steps);
    let before = after_all(s, shorter);
    let r = with_room(before, steps.last());
    lemma_room(before, steps.last());
    lemma_process_keeps_wf(r, steps.last());
    lemma_stages_done(begun(r, steps.last()), s.num_stages());
}

/// What is known of the data of the first of a number of calls moves on by
/// one stage per call.
proof fn lemma_submission_on_its_way<T, E>(s: PipelineState<T>, steps: Seq<Step<T, E>>, d: Seq<E>)
    requires
        s.wf(),
        1 <= steps.len() <= s.num_stages(),
        s.tick_count + steps.len() <= u64::MAX,
        forall|k: int| 0 <= k < steps.len() ==> accepted(s, #[trigger] steps[k]),
        steps[0].data == Some(d),
    ensures
        ({
            let r = with_room(after_all(s, steps.drop_last()), steps.last());
            let b = begun(r, steps.last());
            let first = with_room(s, steps[0]);
            let known = Some(
                Submission {
                    elements: first.input_elements(d.len()),
                    n: first.n_in(first.current_set as int),
                    batch_size: first.input_elements(d.len()),
                },
            );
            &&& b.metadata[b.input_of(steps.len() - 1)] == known
            &&& called(
                after_all(s, steps.drop_last()),
                steps.last(),
            ).metadata[b.output_of(steps.len() - 1)] == known
        }),
    decreases steps.len(),
{
    let shorter = steps.drop_last();
    lemma_fewer_accepted(s, steps);
    lemma_calls(s, shorter);
    let before = after_all(s, shorter);
    let r = with_room(before, steps.last());
    lemma_room(before, steps.last());
    lemma_process_keeps_wf(r, steps.last());
    let b = begun(r, steps.last());
    lemma_stages_done(b, s.num_stages());
    let j = steps.len() - 1;
    if shorter.len() > 0 {
        lemma_submission_on_its_way(s, shorter, d);
        assert(shorter[0] == steps[0]);
        lemma_fewer_accepted(s, shorter);
        let earlier = after_all(s, shorter.drop_last());
        lemma_calls(s, shorter.drop_last());
        lemma_room(earlier, shorter.last());
        lemma_process_keeps_wf(with_room(earlier, shorter.last()), shorter.last());
        assert(before == called(earlier, shorter.last()));
        assert(b.input_of(j) == begun(
            with_room(earlier, shorter.last()),
            shorter.last(),
        ).output_of(j - 1));
        assert(b.metadata[b.input_of(j)] == before.metadata[b.input_of(j)]);
    } else {
        assert(before == s);
        assert(steps.last() == steps[0]);
    }
    assert(b.output_of(j) - 3 + 2 * b.current_set == b.input_of(j));
    assert(worked(r, steps.last()).metadata[b.output_of(j)] == b.metadata[b.input_of(j)]);
}

/// What was submitted is what every stage is told, each when the data comes to
/// it, whatever the calls between bring: as many vectors as the data has, and
/// the transform size that was set for the submission. Where none was set, it is
/// the default one at the time of the submission, which is the size of the data
/// itself where the buffers have to grow for it.
pub proof fn law_submission_reaches_every_stage<T, E>(
    s: PipelineState<T>,
    steps: Seq<Step<T, E>>,
    d: Seq<E>,
)
    requires
        s.wf(),
        1 <= steps.len() <= s.num_stages(),
        s.tick_count + steps.len() <= u64::MAX,
        forall|k: int| 0 <= k < steps.len() ==> accepted(s, #[trigger] steps[k]),
        steps[0].data == Some(d),
    ensures
        ({
            let r = with_room(after_all(s, steps.drop_last()), steps.last());
            let pass = begun(r, steps.last()).pass(steps.len() - 1);
            &&& pass.elements * s.vector_dim == d.len()
            &&& pass.n == match s.metadata[s.current_set as int] {
                Some(set) => set.n,
                None => if d.len() <= s.batch_size * s.vector_dim {
                    s.default_n
                } else {
                    pass.elements
                },
            }
        }),
{
    lemma_submission_on_its_way(s, steps, d);
    assert(accepted(s, steps[0]));
    lemma_room(s, steps[0]);
    lemma_whole_vectors(s, d.len());
    size::lemma_batch_scalars(s.batch_size, s.vector_dim);
}

/// The first `n - 1` calls return nothing, in a pipeline of `n` stages, whether
/// or not their data made the buffers grow.
pub proof fn law_first_calls_return_nothing<T, E>(
    s: PipelineState<T>,
    buffers: Seq<Seq<E>>,
    kernels: Seq<Kernel<E>>,
    steps: Seq<Step<T, E>>,
    zero: E,
)
    requires
        s.wf(),
        s.tick_count == 0,
        1 <= steps.len() < s.num_stages(),
        steps.len() <= u64::MAX,
        forall|k: int| 0 <= k < steps.len() ==> accepted(s, #[trigger] steps[k]),
    ensures
        last_answer(s, buffers, steps, kernels, zero) is None,
{
    let shorter = steps.drop_last();
    lemma_fewer_accepted(s, steps);
    lemma_calls(s, shorter);
    lemma_room(after_all(s, shorter), steps.last());
}

/// From the `n`-th call on, every call returns data with a tag, unless the
/// data was declared to be empty.
pub proof fn law_later_calls_return_data<T, E>(
    s: PipelineState<T>,
    buffers: Seq<Seq<E>>,
    kernels: Seq<Kernel<E>>,
    step: Step<T, E>,
    zero: E,
)
    requires
        s.wf(),
        accepted(s, step),
        s.output_due(),
        s.tick_count < u64::MAX,
        forall|b: int|
            0 <= b < s.metadata.len() ==> (#[trigger] s.metadata[b] matches Some(known)
                ==> known.elements > 0),
    ensures
        answered(s, buffers, step, kernels, zero) matches Some((tag, _)) && tag is Some,
{
    let r = with_room(s, step);
    lemma_room(s, step);
    lemma_process_keeps_wf(r, step);
    let n = r.num_stages();
    let b = begun(r, step);
    let w = worked(r, step);
    lemma_stages_done(b, n);
    if let Some(d) = step.data {
        lemma_whole_vectors(r, d.len());
        assert(r.input_elements(d.len()) > 0) by {
            if r.input_elements(d.len()) == 0 {
                assert(0 * r.vector_dim == 0);
            }
        }
    }
    let output = w.last_output();
    let input = b.input_of(n - 1);
    assert(output - 3 + 2 * r.current_set == input);
    assert(w.metadata[output] == b.metadata[input]);
    assert(b.metadata[input] == s.metadata[input] || input == r.current_set);
    let elements = w.elements_in(output);
    assert(elements > 0);
    assert(size::batch_bytes(elements, r.vector_dim) > 0) by (nonlinear_arith)
        requires
            elements > 0,
            r.vector_dim > 0,
    ;
    assert(size::batch_bytes(r.batch_size, r.vector_dim) > 0) by (nonlinear_arith)
        requires
            r.batch_size > 0,
            r.vector_dim > 0,
    ;
}

/// Where stage `j` reads `y` in the first of a number of calls, the data has
/// gone through one stage more with each of them.
proof fn lemma_data_on_its_way<T, E>(
    s: PipelineState<T>,
    buffers: Seq<Seq<E>>,
    kernels: Seq<Kernel<E>>,
    steps: Seq<Step<T, E>>,
    zero: E,
    fs: Seq<spec_fn(Seq<E>) -> Seq<E>>,
    j: int,
    tag: T,
    y: Seq<E>,
    elements: usize,
)
    requires
        s.wf(),
        device_matches(s, buffers, kernels),
        0 <= j,
        1 <= steps.len(),
        j + steps.len() < s.num_stages(),
        s.tick_count + steps.len() <= u64::MAX,
        forall|k: int| 0 <= k < steps.len() ==> accepted(s, #[trigger] steps[k]),
        reads(s, buffers, steps[0], j, tag, y, elements),
        fs.len() == steps.len(),
        forall|k: int|
            0 <= k < fs.len() ==> memory::computes(
                kernels[j + k],
                #[trigger] fs[k],
                elements,
                s.vector_dim,
            ),
    ensures
        y.len() == elements * s.vector_dim,
        device_matches(
            after_all(s, steps),
            buffers_after_all(s, buffers, steps, kernels, zero),
            kernels,
        ),
        in_flight(
            after_all(s, steps),
            buffers_after_all(s, buffers, steps, kernels, zero),
            j + steps.len(),
            tag,
            memory::chained(fs, y),
            elements,
        ),
    decreases steps.len(),
{
    let shorter = steps.drop_last();
    let fewer = fs.drop_last();
    let k = shorter.len();
    lemma_fewer_accepted(s, steps);
    lemma_calls(s, shorter);
    if k > 0 {
        assert(shorter[0] == steps[0]);
        assert forall|i: int| 0 <= i < fewer.len() implies memory::computes(
            kernels[j + i],
            #[trigger] fewer[i],
            elements,
            s.vector_dim,
        ) by {
            assert(fewer[i] == fs[i]);
        }
        lemma_data_on_its_way(s, buffers, kernels, shorter, zero, fewer, j, tag, y, elements);
    }
    assert(memory::computes(kernels[j + k], fs[k as int], elements, s.vector_dim));
    lemma_call(
        after_all(s, shorter),
        buffers_after_all(s, buffers, shorter, kernels, zero),
        kernels,
        steps.last(),
        zero,
        j + k,
        tag,
        memory::chained(fewer, y),
        elements,
        fs[k as int],
    );
}

/// Where stage `j` reads `y` in the first of as many calls as there are
/// stages from it on, the last of them returns what these stages make of it.
proof fn lemma_data_comes_out<T, E>(
    s: PipelineState<T>,
    buffers: Seq<Seq<E>>,
    kernels: Seq<Kernel<E>>,
    steps: Seq<Step<T, E>>,
    zero: E,
    fs: Seq<spec_fn(Seq<E>) -> Seq<E>>,
    j: int,
    tag: T,
    y: Seq<E>,
    elements: usize,
)
    requires
        s.wf(),
        device_matches(s, buffers, kernels),
        0 <= j <= s.tick_count,
        1 <= steps.len(),
        j + steps.len() == s.num_stages(),
        s.tick_count + steps.len() <= u64::MAX,
        forall|k: int| 0 <= k < steps.len() ==> accepted(s, #[trigger] steps[k]),
        y.len() > 0,
        reads(s, buffers, steps[0], j, tag, y, elements),
        fs.len() == steps.len(),
        forall|k: int|
            0 <= k < fs.len() ==> memory::computes(
                kernels[j + k],
                #[trigger] fs[k],
                elements,
                s.vector_dim,
            ),
    ensures
        last_answer(s, buffers, steps, kernels, zero) == Some((Some(tag), memory::chained(fs, y))),
{
    let shorter = steps.drop_last();
    let fewer = fs.drop_last();
    let k = shorter.len();
    lemma_fewer_accepted(s, steps);
    lemma_calls(s, shorter);
    let x = memory::chained(fewer, y);
    if k > 0 {
        assert(shorter[0] == steps[0]);
        assert forall|i: int| 0 <= i < fewer.len() implies memory::computes(
            kernels[j + i],
            #[trigger] fewer[i],
            elements,
            s.vector_dim,
        ) by {
            assert(fewer[i] == fs[i]);
        }
        lemma_data_on_its_way(s, buffers, kernels, shorter, zero, fewer, j, tag, y, elements);
    }
    assert(x.len() == y.len());
    assert(memory::computes(kernels[j + k], fs[k as int], elements, s.vector_dim));
    lemma_call(
        after_all(s, shorter),
        buffers_after_all(s, buffers, shorter, kernels, zero),
        kernels,
        steps.last(),
        zero,
        j + k,
        tag,
        x,
        elements,
        fs[k as int],
    );
}

/// Data takes `n` calls through `n` stages: what comes out of the `n`-th call
/// is what the stages, the first one first, make of the data of the first
/// call, with the tag of the first call, whatever the calls between brought,
/// and whether or not the data of any of them made the buffers grow.
pub proof fn law_data_comes_out<T, E>(
    s: PipelineState<T>,
    buffers: Seq<Seq<E>>,
    kernels: Seq<Kernel<E>>,
    steps: Seq<Step<T, E>>,
    zero: E,
    fs: Seq<spec_fn(Seq<E>) -> Seq<E>>,
    data: Seq<E>,
)
    requires
        s.wf(),
        device_matches(s, buffers, kernels),
        steps.len() == s.num_stages(),
        s.tick_count + steps.len() <= u64::MAX,
        forall|k: int| 0 <= k < steps.len() ==> accepted(s, #[trigger] steps[k]),
        steps[0].data == Some(data),
        fs.len() == s.num_stages(),
        forall|k: int|
            0 <= k < fs.len() ==> memory::computes(
                kernels[k],
                #[trigger] fs[k],
                s.input_elements(data.len()),
                s.vector_dim,
            ),
    ensures
        last_answer(s, buffers, steps, kernels, zero) == Some(
            (Some(steps[0].tag), memory::chained(fs, data)),
        ),
{
    assert(accepted(s, steps[0]));
    assert forall|k: int| 0 <= k < fs.len() implies memory::computes(
        kernels[0 + k],
        #[trigger] fs[k],
        s.input_elements(data.len()),
        s.vector_dim,
    ) by {
        assert(kernels[0 + k] == kernels[k]);
    }
    lemma_data_comes_out(
        s,
        buffers,
        kernels,
        steps,
        zero,
        fs,
        0,
        steps[0].tag,
        data,
        s.input_elements(data.len()),
    );
}

/// Data on its way comes out: what stage `j` is about to read has gone through
/// the other stages, and comes out with its tag, after as many calls as there
/// are stages from `j` on. Since a resize keeps data on its way, it does so
/// whether or not buffers were replaced meanwhile.
pub proof fn law_data_in_flight_comes_out<T, E>(
    s: PipelineState<T>,
    buffers: Seq<Seq<E>>,
    kernels: Seq<Kernel<E>>,
    steps: Seq<Step<T, E>>,
    zero: E,
    fs: Seq<spec_fn(Seq<E>) -> Seq<E>>,
    j: int,
    tag: T,
    y: Seq<E>,
    elements: usize,
)
    requires
        s.wf(),
        device_matches(s, buffers, kernels),
        1 <= j < s.num_stages(),
        j <= s.tick_count,
        j + steps.len() == s.num_stages(),
        s.tick_count + steps.len() <= u64::MAX,
        forall|k: int| 0 <= k < steps.len() ==> accepted(s, #[trigger] steps[k]),
        y.len() > 0,
        in_flight(s, buffers, j, tag, y, elements),
        fs.len() == steps.len(),
        forall|k: int|
            0 <= k < fs.len() ==> memory::computes(
                kernels[j + k],
                #[trigger] fs[k],
                elements,
                s.vector_dim,
            ),
    ensures
        last_answer(s, buffers, steps, kernels, zero) == Some((Some(tag), memory::chained(fs, y))),
{
    lemma_data_comes_out(s, buffers, kernels, steps, zero, fs, j, tag, y, elements);
}

/// A call puts its data on its way, or moves data that is on its way on by one
/// stage, through what that stage makes of it.
pub proof fn law_call_moves_data_on<T, E>(
    s: PipelineState<T>,
    buffers: Seq<Seq<E>>,
    kernels: Seq<Kernel<E>>,
    step: Step<T, E>,
    zero: E,
    j: int,
    tag: T,
    y: Seq<E>,
    elements: usize,
    f: spec_fn(Seq<E>) -> Seq<E>,
)
    requires
        s.wf(),
        accepted(s, step),
        s.tick_count < u64::MAX,
        device_matches(s, buffers, kernels),
        0 <= j,
        j + 1 < s.num_stages(),
        memory::computes(kernels[j], f, elements, s.vector_dim),
        reads(s, buffers, step, j, tag, y, elements),
    ensures
        called(s, step).wf(),
        device_matches(called(s, step), buffers_called(s, buffers, step, kernels, zero), kernels),
        in_flight(
            called(s, step),
            buffers_called(s, buffers, step, kernels, zero),
            j + 1,
            tag,
            f(y),
            elements,
        ),
{
    lemma_room(s, step);
    lemma_process_keeps_wf(with_room(s, step), step);
    lemma_call(s, buffers, kernels, step, zero, j, tag, y, elements, f);
}

// ---- identity stages ----

/// A stage with the identity shader passes data through unchanged, as long as
/// the device can count its scalars.
pub proof fn law_identity_stage<E>(elements: usize, vector_dim: usize)
    requires
        elements * vector_dim < 0x1_0000_0000,
    ensures
        memory::computes(
            |pass: StagePass, input: Seq<E>, before: Seq<E>|
                memory::identity_kernel(pass, input, before),
            |y: Seq<E>| y,
            elements,
            vector_dim,
        ),
{
    let m = elements * vector_dim;
    let f = |y: Seq<E>| y;
    let kernel = |pass: StagePass, input: Seq<E>, before: Seq<E>|
        memory::identity_kernel(pass, input, before);
    size::lemma_batch_scalars(elements, vector_dim);
    assert forall|pass: StagePass, input: Seq<E>, before: Seq<E>|
        memory::covers(pass, elements, vector_dim) && input.len() >= m && before.len()
            >= m implies ({
        let after = #[trigger] kernel(pass, input, before);
        after.len() == before.len() && after.take(m) == f(input.take(m))
    }) by {
        let after = kernel(pass, input, before);
        assert(plan::workgroups(m as nat) * 64 >= m);
        assert(after.take(m) =~= input.take(m));
    }
}

/// A chain of identities is an identity.
proof fn lemma_chained_identities<E>(fs: Seq<spec_fn(Seq<E>) -> Seq<E>>, y: Seq<E>)
    requires
        forall|k: int| 0 <= k < fs.len() ==> #[trigger] fs[k] == (|y: Seq<E>| y),
    ensures
        memory::chained(fs, y) == y,
    decreases fs.len(),
{
    if fs.len() > 0 {
        let fewer = fs.drop_last();
        assert forall|k: int| 0 <= k < fewer.len() implies #[trigger] fewer[k] == (|y: Seq<E>|
            y) by {
            assert(fewer[k] == fs[k]);
        }
        lemma_chained_identities(fewer, y);
        assert(fs[fs.len() - 1] == (|y: Seq<E>| y));
    }
}

/// A pipeline of identity stages returns the data of a call, unchanged and
/// with its tag, `n - 1` calls later.
pub proof fn law_identity_pipeline<T, E>(
    s: PipelineState<T>,
    buffers: Seq<Seq<E>>,
    steps: Seq<Step<T, E>>,
    zero: E,
    data: Seq<E>,
)
    requires
        s.wf(),
        ({
            let identity = |pass: StagePass, input: Seq<E>, before: Seq<E>|
                memory::identity_kernel(pass, input, before);
            device_matches(s, buffers, Seq::new(s.num_stages(), |i: int| identity))
        }),
        steps.len() == s.num_stages(),
        s.tick_count + steps.len() <= u64::MAX,
        forall|k: int| 0 <= k < steps.len() ==> accepted(s, #[trigger] steps[k]),
        steps[0].data == Some(data),
        data.len() < 0x1_0000_0000,
    ensures
        ({
            let identity = |pass: StagePass, input: Seq<E>, before: Seq<E>|
                memory::identity_kernel(pass, input, before);
            let kernels = Seq::new(s.num_stages(), |i: int| identity);
            last_answer(s, buffers, steps, kernels, zero) == Some((Some(steps[0].tag), data))
        }),
{
    let identity = |pass: StagePass, input: Seq<E>, before: Seq<E>|
        memory::identity_kernel(pass, input, before);
    let kernels = Seq::new(s.num_stages(), |i: int| identity);
    let id = |y: Seq<E>| y;
    let fs = Seq::new(s.num_stages(), |i: int| id);
    assert(accepted(s, steps[0]));
    size::lemma_batch_scalars(s.batch_size, s.vector_dim);
    lemma_whole_vectors(s, data.len());
    law_identity_stage::<E>(s.input_elements(data.len()), s.vector_dim);
    lemma_chained_identities(fs, data);
    law_data_comes_out(s, buffers, kernels, steps, zero, fs, data);
}

// ---- input, ticks and output as requests of their own ----

/// A tick that is read afterwards brings out what `process` returns: the
/// output is ready exactly where `process` has one, `read_output` then copies
/// what `process` copies, and taking it leaves the state that `process` leaves.
pub proof fn law_tick_then_read_is_process<T, E>(s: PipelineState<T>, step: Step<T, E>)
    requires
        s.wf(),
        fits(s, step),
        s.tick_count < u64::MAX,
    ensures
        ({
            let w = worked(s, step);
            let ticked = w.complete();
            &&& ticked.output_ready() == s.output_due()
            &&& ticked.readback(ticked.finished_output()) == w.readback(w.last_output())
            &&& s.output_due() && w.readback(w.last_output()) is Some ==> ticked.take_tag()
                == after(s, step)
            &&& !s.output_due() ==> ticked == after(s, step)
        }),
{
    lemma_process_keeps_wf(s, step);
    lemma_stages_done(begun(s, step), s.num_stages());
}

/// Output that nobody took is gone with the next tick, which goes on as if it
/// had been taken.
pub proof fn law_output_may_be_left<T>(s: PipelineState<T>, tag: T)
    requires
        s.wf(),
    ensures
        s.take_tag().forward(tag) == s.forward(tag),
{
    assert(s.take_tag().forward(tag).tags =~= s.forward(tag).tags);
}

// ---- sizes ----

/// Buffers that grow keep their contents and are padded with zeros; buffers
/// that shrink keep the first scalars of theirs.
pub proof fn law_replacement_keeps_data<E>(
    contents: Seq<E>,
    index: usize,
    new_size: u64,
    zero: E,
)
    requires
        contents.len() * 4 <= u64::MAX,
        new_size % 4 == 0,
    ensures
        ({
            let old_size = contents.len() * 4;
            let resize = BufferResize {
                index,
                new_size,
                copy_size: size::smaller(old_size, new_size as nat) as u64,
            };
            let after = memory::replaced(contents, resize, zero);
            &&& after.len() == new_size / 4
            &&& old_size <= new_size ==> after == contents + Seq::new(
                (after.len() - contents.len()) as nat,
                |i: int| zero,
            )
            &&& old_size >= new_size ==> after == contents.take((new_size / 4) as int)
        }),
{
    let old_size = contents.len() * 4;
    let copy_size = size::smaller(old_size, new_size as nat) as u64;
    let resize = BufferResize { index, new_size, copy_size };
    let after = memory::replaced(contents, resize, zero);
    if old_size <= new_size {
        assert(contents.take((copy_size / 4) as int) =~= contents);
    }
    if old_size >= new_size {
        assert(after =~= contents.take((new_size / 4) as int));
    }
}

/// After a resize, every buffer has the new size.
proof fn lemma_replaced_sizes<T, E>(
    s: PipelineState<T>,
    buffers: Seq<Seq<E>>,
    new_batch_size: usize,
    zero: E,
)
    requires
        s.wf(),
        buffers.len() == s.metadata.len(),
        memory::sized(buffers, (s.batch_size * s.vector_dim) as nat),
        size::batch_bytes(new_batch_size, s.vector_dim) <= usize::MAX,
    ensures
        ({
            let after = memory::replace_all(
                buffers,
                s.replacements(new_batch_size, s.vector_dim),
                zero,
            );
            &&& after.len() == buffers.len()
            &&& memory::sized(after, (new_batch_size * s.vector_dim) as nat)
        }),
{
    let after = memory::replace_all(buffers, s.replacements(new_batch_size, s.vector_dim), zero);
    let new_size = size::batch_bytes(new_batch_size, s.vector_dim) as u64;
    size::lemma_batch_scalars(s.batch_size, s.vector_dim);
    size::lemma_batch_scalars(new_batch_size, s.vector_dim);
    assert forall|b: int| 0 <= b < after.len() implies (#[trigger] after[b]).len()
        == new_batch_size * s.vector_dim by {
        assert(buffers[b].len() == s.batch_size * s.vector_dim);
        law_replacement_keeps_data(buffers[b], b as usize, new_size, zero);
    }
}

/// A resize keeps the data that is on its way, and its tags, in every stage:
/// what fits in the new buffers is there after the resize as it was before.
pub proof fn law_resize_keeps_data_in_flight<T, E>(
    s: PipelineState<T>,
    buffers: Seq<Seq<E>>,
    kernels: Seq<Kernel<E>>,
    new_batch_size: usize,
    zero: E,
    j: int,
    tag: T,
    y: Seq<E>,
    elements: usize,
)
    requires
        s.wf(),
        device_matches(s, buffers, kernels),
        new_batch_size >= 1,
        size::batch_bytes(new_batch_size, s.vector_dim) <= usize::MAX,
        1 <= j <= s.num_stages(),
        in_flight(s, buffers, j, tag, y, elements),
        elements <= new_batch_size,
    ensures
        ({
            let resized = s.replaced(new_batch_size, s.vector_dim);
            let after = memory::replace_all(
                buffers,
                s.replacements(new_batch_size, s.vector_dim),
                zero,
            );
            &&& device_matches(resized, after, kernels)
            &&& in_flight(resized, after, j, tag, y, elements)
        }),
{
    let resized = s.replaced(new_batch_size, s.vector_dim);
    let resizes = s.replacements(new_batch_size, s.vector_dim);
    let after = memory::replace_all(buffers, resizes, zero);
    let new_size = size::batch_bytes(new_batch_size, s.vector_dim) as u64;
    size::lemma_batch_scalars(s.batch_size, s.vector_dim);
    size::lemma_batch_scalars(new_batch_size, s.vector_dim);
    assert(elements * s.vector_dim <= new_batch_size * s.vector_dim) by (nonlinear_arith)
        requires
            elements <= new_batch_size,
            s.vector_dim >= 0,
    ;
    lemma_replaced_sizes(s, buffers, new_batch_size, zero);
    let b = s.input_of(j);
    assert(buffers[b].len() == s.batch_size * s.vector_dim);
    law_replacement_keeps_data(buffers[b], b as usize, new_size, zero);
    assert(after[b].take(y.len() as int) =~= buffers[b].take(y.len() as int));
}

/// A resize cuts data that does not fit: of what is on its way the first
/// vectors stay, as many as the new buffers hold, with their tag, and no more
/// than these come out of the last stage.
pub proof fn law_resize_cuts_data_in_flight<T, E>(
    s: PipelineState<T>,
    buffers: Seq<Seq<E>>,
    kernels: Seq<Kernel<E>>,
    new_batch_size: usize,
    zero: E,
    j: int,
    tag: T,
    y: Seq<E>,
    elements: usize,
)
    requires
        s.wf(),
        device_matches(s, buffers, kernels),
        new_batch_size >= 1,
        size::batch_bytes(new_batch_size, s.vector_dim) <= usize::MAX,
        1 <= j <= s.num_stages(),
        in_flight(s, buffers, j, tag, y, elements),
        elements >= new_batch_size,
    ensures
        ({
            let resized = s.replaced(new_batch_size, s.vector_dim);
            let after = memory::replace_all(
                buffers,
                s.replacements(new_batch_size, s.vector_dim),
                zero,
            );
            let b = resized.input_of(j);
            let scalars = new_batch_size * s.vector_dim;
            &&& device_matches(resized, after, kernels)
            &&& after[b] == y.take(scalars)
            &&& resized.tags[j - 1] == Some(tag)
            &&& resized.readback(b) matches Some(r)
            &&& r.buffer == b
            &&& r.scalars == scalars
        }),
{
    let resized = s.replaced(new_batch_size, s.vector_dim);
    let resizes = s.replacements(new_batch_size, s.vector_dim);
    let after = memory::replace_all(buffers, resizes, zero);
    let new_size = size::batch_bytes(new_batch_size, s.vector_dim) as u64;
    let scalars = new_batch_size * s.vector_dim;
    let b = s.input_of(j);
    size::lemma_batch_scalars(s.batch_size, s.vector_dim);
    size::lemma_batch_scalars(new_batch_size, s.vector_dim);
    size::lemma_batch_scalars(elements, s.vector_dim);
    assert(scalars <= elements * s.vector_dim) by (nonlinear_arith)
        requires
            scalars == new_batch_size * s.vector_dim,
            elements >= new_batch_size,
    ;
    lemma_replaced_sizes(s, buffers, new_batch_size, zero);
    assert(buffers[b].len() == s.batch_size * s.vector_dim);
    law_replacement_keeps_data(buffers[b], b as usize, new_size, zero);
    assert(after[b] =~= y.take(scalars)) by {
        assert forall|i: int| 0 <= i < scalars implies after[b][i] == y[i] by {
            assert(buffers[b].take(y.len() as int)[i] == y[i]);
        }
    }
    assert(scalars > 0) by (nonlinear_arith)
        requires
            scalars == new_batch_size * s.vector_dim,
            new_batch_size >= 1,
            s.vector_dim >= 1,
    ;
}

/// A resize can be undone: a pipeline that grew and shrank back has the sizes
/// that it had, and every buffer holds what it held.
pub proof fn law_growth_can_be_undone<T, E>(
    s: PipelineState<T>,
    buffers: Seq<Seq<E>>,
    new_batch_size: usize,
    zero: E,
)
    requires
        s.wf(),
        buffers.len() == s.metadata.len(),
        memory::sized(buffers, (s.batch_size * s.vector_dim) as nat),
        new_batch_size >= s.batch_size,
        size::batch_bytes(new_batch_size, s.vector_dim) <= usize::MAX,
    ensures
        ({
            let grown = s.replaced(new_batch_size, s.vector_dim);
            let back = grown.replaced(s.batch_size, s.vector_dim);
            let between = memory::replace_all(
                buffers,
                s.replacements(new_batch_size, s.vector_dim),
                zero,
            );
            let after = memory::replace_all(
                between,
                grown.replacements(s.batch_size, s.vector_dim),
                zero,
            );
            &&& back == s.replaced(s.batch_size, s.vector_dim)
            &&& back.batch_size == s.batch_size
            &&& back.buffer_bytes() == s.buffer_bytes()
            &&& after == buffers
        }),
{
    let grown = s.replaced(new_batch_size, s.vector_dim);
    let to_grow = s.replacements(new_batch_size, s.vector_dim);
    let to_shrink = grown.replacements(s.batch_size, s.vector_dim);
    let between = memory::replace_all(buffers, to_grow, zero);
    let after = memory::replace_all(between, to_shrink, zero);
    let small = size::batch_bytes(s.batch_size, s.vector_dim) as u64;
    let large = size::batch_bytes(new_batch_size, s.vector_dim) as u64;
    size::lemma_batch_scalars(s.batch_size, s.vector_dim);
    size::lemma_batch_scalars(new_batch_size, s.vector_dim);
    assert(s.batch_size * s.vector_dim <= new_batch_size * s.vector_dim) by (nonlinear_arith)
        requires
            s.batch_size <= new_batch_size,
    ;
    assert forall|b: int| 0 <= b < buffers.len() implies after[b] == #[trigger] buffers[b] by {
        assert(buffers[b].len() == s.batch_size * s.vector_dim);
        law_replacement_keeps_data(buffers[b], b as usize, large, zero);
        law_replacement_keeps_data(between[b], b as usize, small, zero);
        assert(after[b] =~= buffers[b]);
    }
    assert(after =~= buffers);
}

/// Data that does not fit does after the resize that `process` asks for, and
/// nothing is wasted: the new buffers hold the data and no vector more.
pub proof fn law_resize_makes_room<T, E>(s: PipelineState<T>, step: Step<T, E>, data: Seq<E>)
    requires
        s.wf(),
        step.data == Some(data),
        s.input_error(data.len()) is None,
        data.len() * 4 <= usize::MAX,
        data.len() * 4 > s.buffer_bytes(),
    ensures
        ({
            let resized = s.replaced(s.input_elements(data.len()), s.vector_dim);
            &&& resized.wf()
            &&& fits(resized, step)
            &&& resized.buffer_bytes() == data.len() * 4
            &&& resized.input_elements(data.len()) > s.batch_size
        }),
{
    lemma_whole_vectors(s, data.len());
    let elements = s.input_elements(data.len());
    assert(elements > s.batch_size) by (nonlinear_arith)
        requires
            elements * (s.vector_dim * 4) > s.batch_size * (s.vector_dim * 4),
    ;
}

/// After a resize, every standard stage creates its bind groups anew.
pub proof fn law_resize_voids_bind_groups<T>(
    s: PipelineState<T>,
    new_batch_size: usize,
    new_vector_dim: usize,
    i: int,
)
    requires
        s.wf(),
        0 <= i < s.num_stages(),
        s.kinds[i] is Standard,
    ensures
        s.replaced(new_batch_size, new_vector_dim).pass(i).work matches StageWork::Dispatch {
            create_bind_groups,
            ..
        } && create_bind_groups,
{
}

// ---- bind groups ----

/// What a binding is bound to depends on the numbers that a layout lists, not
/// on the order in which it lists them: two layouts with the same numbers bind
/// each number to the same buffer.
pub proof fn law_layouts_bind_by_number(
    bindings: Seq<u32>,
    others: Seq<u32>,
    input: usize,
    output: usize,
    k: int,
    j: int,
)
    requires
        forall|number: u32| #[trigger] bindings.contains(number) <==> others.contains(number),
        0 <= k < bindings.len(),
        0 <= j < others.len(),
        bindings[k] == others[j],
    ensures
        plan::bound(bindings, input, output)[k] == plan::bound(others, input, output)[j],
{
    if exists|i: int| 0 <= i < bindings.len() && bindings[k] < #[trigger] bindings[i] {
        let i = choose|i: int| 0 <= i < bindings.len() && bindings[k] < #[trigger] bindings[i];
        assert(bindings.contains(bindings[i]));
        assert(others.contains(bindings[i]));
    }
    if exists|i: int| 0 <= i < others.len() && others[j] < #[trigger] others[i] {
        let i = choose|i: int| 0 <= i < others.len() && others[j] < #[trigger] others[i];
        assert(others.contains(others[i]));
        assert(bindings.contains(others[i]));
    }
}

/// A layout of the bindings 0 and 1, listed either way, has the input at
/// binding 0 and the output at binding 1.
pub proof fn law_layout_of_two(bindings: Seq<u32>, input: usize, output: usize, k: int)
    requires
        bindings.contains(0),
        bindings.contains(1),
        forall|j: int| 0 <= j < bindings.len() ==> (#[trigger] bindings[j]) <= 1,
        0 <= k < bindings.len(),
    ensures
        plan::bound(bindings, input, output)[k] == (BindingEntry {
            binding: bindings[k],
            buffer: if bindings[k] == 0 {
                input
            } else {
                output
            },
        }),
{
    let one = choose|j: int| 0 <= j < bindings.len() && bindings[j] == 1;
    assert(bindings[one] == 1);
}

// ---- contexts ----

/// A pipeline runs on the context that was set for it, and needs a fresh one
/// only where none was.
pub proof fn law_set_context_is_used(context: Arc<ComputeContext>, fresh: Option<Arc<ComputeContext>>)
    ensures
        builder::chosen_context(Some(context), fresh) == context,
        builder::chosen_context(None, Some(context)) == context,
{
}

// ---- counting ticks ----

/// How a call of `process`, or of `tick`, ended.
pub enum Outcome {
    /// The data was refused.
    Refused,
    /// The buffers could not be replaced by larger ones.
    ResizeFailed,
    /// A stage did not take what it was told, or could not encode its work.
    StageFailed { stage: nat },
    /// The stages did their work.
    Ended { event: TickEvent },
}

/// A request.
pub enum Request<T, E> {
    Process { step: Step<T, E>, outcome: Outcome },
    Tick { tag: T, outcome: Outcome },
    WriteInput { len: nat },
    TakeOutput,
    SetDefaultN { n: usize },
    SetMetadata { known: Submission },
    ClearMetadata,
    Resize { batch_size: usize },
    ResizeDynamic { batch_size: usize, vector_dim: usize },
    ResizeWithStages { batch_size: usize, vector_dim: usize },
    UpdateStageN,
    InitializeStages,
    AddSideInput { name: Seq<char>, buffer: Arc<wgpu::Buffer> },
}

/// Whether a tick that began in state `s` left state `t` where it ended early.
pub open spec fn broken_off<T>(s: PipelineState<T>, outcome: Outcome, t: PipelineState<T>) -> bool {
    match outcome {
        Outcome::StageFailed { stage } => t == s.stages_done(stage),
        Outcome::Ended { event } => event == TickEvent::PollFailed && t == s.stages_done(
            s.num_stages(),
        ).flip(),
        _ => false,
    }
}

/// Whether a request in state `s` leaves state `t`.
pub open spec fn made<T, E>(
    s: PipelineState<T>,
    request: Request<T, E>,
    t: PipelineState<T>,
) -> bool {
    match request {
        Request::Process { step, outcome } => {
            let r = with_room(s, step);
            match outcome {
                Outcome::Refused => t == s && !accepted(s, step),
                Outcome::ResizeFailed => t == s,
                Outcome::Ended { event: TickEvent::Completed } => t == after(r, step),
                Outcome::Ended { event: TickEvent::ReadFailed } => t == worked(r, step).complete(),
                _ => broken_off(begun(r, step), outcome, t),
            }
        },
        Request::Tick { tag, outcome } => match outcome {
            Outcome::Ended { event } if event != TickEvent::PollFailed => t == s.forward(
                tag,
            ).stages_done(s.num_stages()).complete(),
            _ => broken_off(s.forward(tag), outcome, t),
        },
        Request::WriteInput { len } => t == s || t == s.accept(s.input_elements(len)),
        Request::TakeOutput => t == s.take_tag(),
        Request::SetDefaultN { n } => t == (PipelineState { default_n: n, ..s }),
        Request::SetMetadata { known } => t == (PipelineState {
            metadata: s.metadata.update(s.current_set as int, Some(known)),
            ..s
        }),
        Request::ClearMetadata => t == (PipelineState { metadata: s.no_metadata(), ..s }),
        Request::Resize { batch_size } => t == s || t == s.replaced(batch_size, s.vector_dim),
        Request::ResizeDynamic { batch_size, vector_dim } => t == s || t == s.replaced_anew(
            batch_size,
            vector_dim,
        ),
        Request::ResizeWithStages { batch_size, vector_dim } => t == s || t
            == s.resized_with_stages(batch_size, vector_dim),
        Request::UpdateStageN => t == s,
        Request::InitializeStages => t == s,
        Request::AddSideInput { name, buffer } => t == (PipelineState {
            side_inputs: side_inputs::inserted(s.side_inputs, name, buffer),
            ..s
        }),
    }
}

/// How a request to work ended; nothing for other requests.
pub open spec fn outcome_of<T, E>(request: Request<T, E>) -> Option<Outcome> {
    match request {
        Request::Process { outcome, .. } => Some(outcome),
        Request::Tick { outcome, .. } => Some(outcome),
        _ => None,
    }
}

/// How many calls of `process` and `tick` ended with this event.
pub open spec fn ended<T, E>(requests: Seq<Request<T, E>>, event: TickEvent) -> nat
    decreases requests.len(),
{
    if requests.len() == 0 {
        0
    } else {
        let earlier = ended(requests.drop_last(), event);
        if outcome_of(requests.last()) == Some(Outcome::Ended { event }) {
            earlier + 1
        } else {
            earlier
        }
    }
}

/// The work of stages counts no tick.
proof fn lemma_work_counts_nothing<T>(s: PipelineState<T>, k: nat)
    ensures
        s.stages_done(k).tick_count == s.tick_count,
        s.stages_done(k).tags == s.tags,
    decreases k,
{
    if k > 0 {
        lemma_work_counts_nothing(s, (k - 1) as nat);
    }
}

/// A request counts one tick where it is a call that got its work done, and
/// none otherwise.
proof fn lemma_request_counts<T, E>(
    s: PipelineState<T>,
    request: Request<T, E>,
    t: PipelineState<T>,
)
    requires
        made(s, request, t),
        s.tick_count < u64::MAX,
    ensures
        t.tick_count == s.tick_count + if outcome_of(request) == Some(
            Outcome::Ended { event: TickEvent::Completed },
        ) || outcome_of(request) == Some(Outcome::Ended { event: TickEvent::ReadFailed }) {
            1int
        } else {
            0
        },
{
    match request {
        Request::Process { step, outcome } => {
            let r = with_room(s, step);
            assert(r.tick_count == s.tick_count);
            let b = begun(r, step);
            lemma_work_counts_nothing(b, r.num_stages());
            lemma_work_counts_nothing(b, b.num_stages());
            if let Outcome::StageFailed { stage } = outcome {
                lemma_work_counts_nothing(b, stage);
            }
        },
        Request::Tick { tag, outcome } => {
            let b = s.forward(tag);
            lemma_work_counts_nothing(b, s.num_stages());
            lemma_work_counts_nothing(b, b.num_stages());
            if let Outcome::StageFailed { stage } = outcome {
                lemma_work_counts_nothing(b, stage);
            }
        },
        _ => {},
    }
}

/// The tick count is the number of calls of `process` and `tick` that were
/// answered, over any requests, in any order: a call that was refused, one that
/// broke off and a request of another kind count for nothing. A call whose work
/// was done counts though reading its output back failed.
pub proof fn law_ticks_are_counted<T, E>(
    states: Seq<PipelineState<T>>,
    requests: Seq<Request<T, E>>,
)
    requires
        states.len() == requests.len() + 1,
        forall|k: int|
            0 <= k < requests.len() ==> made(states[k], #[trigger] requests[k], states[k + 1]),
        states[0].tick_count + requests.len() <= u64::MAX,
    ensures
        states.last().tick_count == states[0].tick_count + ended(requests, TickEvent::Completed)
            + ended(requests, TickEvent::ReadFailed),
        ended(requests, TickEvent::Completed) + ended(requests, TickEvent::ReadFailed)
            <= requests.len(),
    decreases requests.len(),
{
    if requests.len() > 0 {
        let n = requests.len() - 1;
        let fewer = requests.drop_last();
        let earlier = states.drop_last();
        assert forall|k: int| 0 <= k < fewer.len() implies made(
            earlier[k],
            #[trigger] fewer[k],
            earlier[k + 1],
        ) by {
            assert(fewer[k] == requests[k]);
        }
        law_ticks_are_counted(earlier, fewer);
        assert(earlier.last() == states[n]);
        assert(made(states[n], requests[n], states[n + 1]));
        lemma_request_counts(states[n], requests.last(), states.last());
    }
}

// ---- side inputs ----

/// A side input is found under its name, at the index that adding it returned,
/// and no other one changes.
pub proof fn law_side_input_is_found<B>(
    entries: Seq<(Seq<char>, B)>,
    name: Seq<char>,
    buffer: B,
    other: Seq<char>,
)
    requires
        side_inputs::names_distinct(entries),
    ensures
        ({
            let after = side_inputs::inserted(entries, name, buffer);
            &&& side_inputs::names_distinct(after)
            &&& side_inputs::position(after, name) matches Some(i)
            &&& 0 <= i < after.len()
            &&& after[i].1 == buffer
            &&& i == side_inputs::place(entries, name)
            &&& other != name ==> side_inputs::position(after, other) == side_inputs::position(
                entries,
                other,
            )
            &&& other != name ==> (side_inputs::position(entries, other) matches Some(k)
                ==> after[k] == entries[k])
        }),
{
    let after = side_inputs::inserted(entries, name, buffer);
    match side_inputs::position(entries, name) {
        Some(i) => {
            assert(after[i].0 == name);
        },
        None => {
            assert(after[entries.len() as int].0 == name);
            assert forall|i: int, j: int| 0 <= i < j < after.len() implies (
            #[trigger] after[i]).0 != (#[trigger] after[j]).0 by {
                assert(entries[i].0 != name);
            }
        },
    }
    assert(side_inputs::names_distinct(after));
    if other != name {
        match side_inputs::position(entries, other) {
            Some(k) => {
                assert(after[k] == entries[k]);
                assert(after[k].0 == other);
            },
            None => {
                assert forall|i: int| 0 <= i < after.len() implies (#[trigger] after[i]).0
                    != other by {
                    if i < entries.len() {
                        assert(entries[i].0 != other);
                    }
                }
            },
        }
    }
}

} // verus!
