//! What holds of pipelines with one size per stage, over several requests.

use vstd::prelude::*;

use crate::memory;
use crate::memory::Kernel;
use crate::pipeline::laws;
use crate::pipeline::size;
use crate::pipeline::variable_size;
use crate::pipeline::variable_size::StageSizeConfig;
use crate::pipeline::variable_state;
use crate::pipeline::variable_state::VariableState;
use crate::plan;
use crate::plan::{StagePass, StageWork};

verus! {

// ---- one tick ----

/// What the first `k` stages did: they created bind groups, and handed on what
/// is known of their data. The data that stages read in this tick is none of
/// theirs.
proof fn lemma_stages_done<T>(s: VariableState<T>, k: nat)
    requires
        s.wf(),
        k <= s.num_stages(),
    ensures
        s.stages_done(k) == (VariableState {
            bind_groups: s.stages_done(k).bind_groups,
            metadata: s.stages_done(k).metadata,
            ..s
        }),
        s.stages_done(k).wf(),
        forall|i: int|
            k <= i < s.num_stages() ==> (#[trigger] s.stages_done(k).bind_groups[i])
                == s.bind_groups[i],
        forall|b: int|
            0 <= b < s.metadata.len() && !(b >= 2 && b % 2 == s.output_index) ==> (
            #[trigger] s.stages_done(k).metadata[b]) == s.metadata[b],
    decreases k,
{
    if k > 0 {
        lemma_stages_done(s, (k - 1) as nat);
    }
}

/// All stages of a tick may work at the same time: what a stage has to do in
/// a tick does not depend on the stages that went before it in that tick.
pub proof fn law_stages_work_at_once<T>(s: VariableState<T>, k: nat, i: int)
    requires
        s.wf(),
        k <= i < s.num_stages(),
    ensures
        s.stages_done(k).pass(i) == s.pass(i),
{
    lemma_stages_done(s, k);
    assert(!(s.input_of(i) >= 2 && s.input_of(i) % 2 == s.output_index));
}

/// The input that was written last is what the first stage reads, and the
/// next input goes to the other buffer.
pub proof fn law_first_stage_reads_the_input<T>(s: VariableState<T>)
    requires
        s.wf(),
    ensures
        s.accept().input_of(0) == s.input_write_index,
        s.accept().input_write_index != s.input_write_index,
        s.accept().accept() == s,
{
}

/// What a stage writes in a tick, the next stage reads in the tick after it.
pub proof fn law_hand_off<T>(s: VariableState<T>, i: int)
    requires
        s.wf(),
        0 <= i,
    ensures
        s.complete().input_of(i + 1) == s.output_of(i),
        s.complete().finished_output() == s.output_of(s.num_stages() - 1),
{
}

/// No stage writes what a stage reads in the same tick, no two stages write
/// the same buffer, and every buffer of a stage exists.
pub proof fn law_stages_are_isolated<T>(s: VariableState<T>, i: int, j: int)
    requires
        s.wf(),
        0 <= i < s.num_stages(),
        0 <= j < s.num_stages(),
    ensures
        s.output_of(i) != s.input_of(j),
        i != j ==> s.output_of(i) != s.output_of(j),
        0 <= s.input_of(i) < s.buffer_sizes.len(),
        0 <= s.output_of(i) < s.buffer_sizes.len(),
{
}

/// What is read as output is what the last stage wrote in the tick before,
/// all of that buffer, and it comes with the tag of that tick.
pub proof fn law_output_is_that_of_the_last_tick<T>(s: VariableState<T>, first: T, tag: T)
    requires
        s.wf(),
        s.tick_count < u64::MAX,
    ensures
        ({
            let done = s.forward(first, tag).stages_done(s.num_stages());
            let after = done.complete();
            &&& after.wf()
            &&& after.readback().buffer == done.output_of(s.num_stages() - 1)
            &&& after.readback().bytes == s.buffer_sizes[s.output_of(s.num_stages() - 1)]
            &&& after.last_output_tag == Some(tag)
            &&& after.tick_count == s.tick_count + 1
        }),
{
    let b = s.forward(first, tag);
    assert(b.wf());
    lemma_stages_done(b, s.num_stages());
}

/// Whether nothing is known of the data in any buffer.
pub open spec fn unmarked<T>(s: VariableState<T>) -> bool {
    forall|b: int| 0 <= b < s.metadata.len() ==> (#[trigger] s.metadata[b]) is None
}

/// Nothing is ever known of the data but the sizes of the stages: it is so
/// when a pipeline is built, and every request leaves it so.
pub proof fn law_sizes_are_those_of_the_stages<T>(
    stages: Seq<StageSizeConfig<T>>,
    s: VariableState<T>,
    first: T,
    tag: T,
    k: nat,
    pair: int,
    batch_size: usize,
)
    requires
        s.wf(),
        unmarked(s),
        k <= s.num_stages(),
        0 <= pair <= s.num_stages(),
    ensures
        unmarked(variable_size::initial_state(stages)),
        unmarked(s.accept()),
        unmarked(s.forward(first, tag)),
        unmarked(s.stages_done(k)),
        unmarked(s.flip()),
        unmarked(s.complete()),
        unmarked(s.resized(pair, batch_size)),
        unmarked(s.resized_both(pair, batch_size)),
        forall|i: int|
            0 <= i < s.num_stages() ==> (#[trigger] s.pass(i)).elements == s.output_batch_sizes[i]
                && s.pass(i).n == s.default_n,
    decreases k,
{
    lemma_stages_done(s, k);
    if k > 0 {
        let p = (k - 1) as nat;
        law_sizes_are_those_of_the_stages(stages, s, first, tag, p, pair, batch_size);
        lemma_stages_done(s, p);
    }
}

// ---- what the stages leave in the buffers ----

/// What all stages do in a tick.
pub open spec fn passes<T>(s: VariableState<T>) -> Seq<StagePass> {
    Seq::new(s.num_stages(), |i: int| s.pass(i))
}

/// A tick leaves in the output buffer of each stage what the stage makes of
/// what was in its input buffer before the tick. No other buffer changes.
pub proof fn law_tick_contents<T, E>(
    s: VariableState<T>,
    buffers: Seq<Seq<E>>,
    kernels: Seq<Kernel<E>>,
)
    requires
        s.wf(),
        buffers.len() == s.buffer_sizes.len(),
    ensures
        ({
            let after = memory::run_passes(buffers, passes(s), kernels);
            &&& after.len() == buffers.len()
            &&& forall|i: int|
                0 <= i < s.num_stages() ==> (#[trigger] after[s.output_of(i)]) == kernels[i](
                    s.pass(i),
                    buffers[s.input_of(i)],
                    buffers[s.output_of(i)],
                )
            &&& forall|b: int|
                0 <= b < buffers.len() && !(b >= 2 && b % 2 == s.output_index) ==> (
                #[trigger] after[b]) == buffers[b]
        }),
{
    lemma_run_passes(s, buffers, kernels, s.num_stages());
    assert(passes(s).take(s.num_stages() as int) =~= passes(s));
}

/// The first `k` stages leave what they make of what they read, and the other
/// buffers are as before.
proof fn lemma_run_passes<T, E>(
    s: VariableState<T>,
    buffers: Seq<Seq<E>>,
    kernels: Seq<Kernel<E>>,
    k: nat,
)
    requires
        s.wf(),
        k <= s.num_stages(),
        buffers.len() == s.buffer_sizes.len(),
    ensures
        ({
            let after = memory::run_passes(buffers, passes(s).take(k as int), kernels);
            &&& after.len() == buffers.len()
            &&& forall|i: int|
                0 <= i < k ==> (#[trigger] after[s.output_of(i)]) == kernels[i](
                    s.pass(i),
                    buffers[s.input_of(i)],
                    buffers[s.output_of(i)],
                )
            &&& forall|b: int|
                0 <= b < buffers.len() && !(2 <= b < 2 * k + 2 && b % 2 == s.output_index) ==> (
                #[trigger] after[b]) == buffers[b]
        }),
    decreases k,
{
    if k > 0 {
        let p = (k - 1) as nat;
        lemma_run_passes(s, buffers, kernels, p);
        let shorter = passes(s).take(p as int);
        let longer = passes(s).take(k as int);
        assert(longer.drop_last() =~= shorter);
        let pass = s.pass(p as int);
        assert(longer.last() == pass);
        let before = memory::run_passes(buffers, shorter, kernels);
        let after = memory::run_passes(buffers, longer, kernels);
        assert(after == memory::run_pass(before, pass, kernels));
        assert(before[s.input_of(p as int)] == buffers[s.input_of(p as int)]);
        assert(before[s.output_of(p as int)] == buffers[s.output_of(p as int)]);
        assert forall|i: int| 0 <= i < k implies (#[trigger] after[s.output_of(i)]) == kernels[i](
            s.pass(i),
            buffers[s.input_of(i)],
            buffers[s.output_of(i)],
        ) by {
            if i == p {
                assert(pass.output == s.output_of(i));
            } else {
                assert(s.output_of(i) != s.output_of(p as int));
                assert(before[s.output_of(i)] == kernels[i](
                    s.pass(i),
                    buffers[s.input_of(i)],
                    buffers[s.output_of(i)],
                ));
            }
        }
    }
}

// ---- whole ticks, the device included ----

/// The state after a tick: its tag, of which the first stage gets the copy
/// `tick.0`, is `tick.1`.
pub open spec fn ticked<T>(s: VariableState<T>, tick: (T, T)) -> VariableState<T> {
    s.forward(tick.0, tick.1).stages_done(s.num_stages()).complete()
}

/// The state after a number of ticks.
pub open spec fn ticked_all<T>(s: VariableState<T>, ticks: Seq<(T, T)>) -> VariableState<T>
    decreases ticks.len(),
{
    if ticks.len() == 0 {
        s
    } else {
        ticked(ticked_all(s, ticks.drop_last()), ticks.last())
    }
}

/// The contents of the buffers after a number of ticks.
pub open spec fn buffers_ticked<T, E>(
    s: VariableState<T>,
    buffers: Seq<Seq<E>>,
    kernels: Seq<Kernel<E>>,
    ticks: Seq<(T, T)>,
) -> Seq<Seq<E>>
    decreases ticks.len(),
{
    if ticks.len() == 0 {
        buffers
    } else {
        let before = ticked_all(s, ticks.drop_last());
        memory::run_passes(
            buffers_ticked(s, buffers, kernels, ticks.drop_last()),
            passes(before.forward(ticks.last().0, ticks.last().1)),
            kernels,
        )
    }
}

/// Whether the buffers are those of this pipeline.
pub open spec fn device_matches<T, E>(s: VariableState<T>, buffers: Seq<Seq<E>>) -> bool {
    &&& buffers.len() == s.buffer_sizes.len()
    &&& forall|b: int|
        0 <= b < buffers.len() ==> (#[trigger] buffers[b]).len() * 4 == s.buffer_sizes[b]
}

/// Whether the data, and what the stages make of it, fit in the buffers that
/// they come to: the data in the first pair, and what the first `k` stages
/// make of it in the output pair of the last of them.
pub open spec fn fits<E>(
    buffers: Seq<Seq<E>>,
    fs: Seq<spec_fn(Seq<E>) -> Seq<E>>,
    data: Seq<E>,
) -> bool {
    forall|b: int|
        0 <= b < buffers.len() ==> memory::chained(fs.take(b / 2), data).len() <= (
        #[trigger] buffers[b]).len()
}

/// Ticks change neither sizes nor where the input is, and nothing becomes
/// known of the data.
proof fn lemma_ticked<T>(s: VariableState<T>, ticks: Seq<(T, T)>)
    requires
        s.wf(),
        unmarked(s),
        s.tick_count + ticks.len() <= u64::MAX,
    ensures
        ({
            let after = ticked_all(s, ticks);
            &&& after.wf()
            &&& unmarked(after)
            &&& after.tick_count == s.tick_count + ticks.len()
            &&& after.num_stages() == s.num_stages()
            &&& after.vector_dim == s.vector_dim
            &&& after.output_batch_sizes == s.output_batch_sizes
            &&& after.buffer_sizes == s.buffer_sizes
            &&& after.input_write_index == s.input_write_index
            &&& ticks.len() > 0 ==> after.last_output_tag == Some(ticks.last().1)
        }),
    decreases ticks.len(),
{
    if ticks.len() > 0 {
        let shorter = ticks.drop_last();
        lemma_ticked(s, shorter);
        let before = ticked_all(s, shorter);
        let begun = before.forward(ticks.last().0, ticks.last().1);
        assert(begun.wf());
        lemma_stages_done(begun, s.num_stages());
        lemma_unmarked(begun, s.num_stages());
    }
}

/// Stages that know nothing of their data hand nothing on.
proof fn lemma_unmarked<T>(s: VariableState<T>, k: nat)
    requires
        s.wf(),
        unmarked(s),
        k <= s.num_stages(),
    ensures
        unmarked(s.stages_done(k)),
    decreases k,
{
    if k > 0 {
        lemma_unmarked(s, (k - 1) as nat);
        lemma_stages_done(s, (k - 1) as nat);
    }
}

/// After `t` ticks on the same input, each of the first `t` stages has left
/// what it and the stages before it make of that input.
proof fn lemma_data_on_its_way<T, E>(
    s: VariableState<T>,
    buffers: Seq<Seq<E>>,
    kernels: Seq<Kernel<E>>,
    ticks: Seq<(T, T)>,
    fs: Seq<spec_fn(Seq<E>) -> Seq<E>>,
    data: Seq<E>,
)
    requires
        s.wf(),
        unmarked(s),
        device_matches(s, buffers),
        fits(buffers, fs, data),
        memory::keep_sizes(kernels),
        kernels.len() == s.num_stages(),
        memory::starts_with(buffers[s.input_of(0)], data),
        s.tick_count + ticks.len() <= u64::MAX,
        fs.len() == s.num_stages(),
        forall|i: int|
            0 <= i < fs.len() ==> memory::makes(
                kernels[i],
                #[trigger] fs[i],
                memory::chained(fs.take(i), data),
                s.output_batch_sizes[i],
                s.vector_dim,
            ),
    ensures
        ({
            let after = ticked_all(s, ticks);
            let contents = buffers_ticked(s, buffers, kernels, ticks);
            &&& device_matches(s, contents)
            &&& contents[s.input_of(0)] == buffers[s.input_of(0)]
            &&& forall|i: int|
                0 <= i < ticks.len() && i < s.num_stages() ==> memory::starts_with(
                    #[trigger] contents[2 * i + 2 + (1 - after.output_index)],
                    memory::chained(fs.take(i + 1), data),
                )
        }),
    decreases ticks.len(),
{
    lemma_ticked(s, ticks);
    if ticks.len() > 0 {
        let shorter = ticks.drop_last();
        lemma_ticked(s, shorter);
        lemma_data_on_its_way(s, buffers, kernels, shorter, fs, data);
        let before = ticked_all(s, shorter);
        let begun = before.forward(ticks.last().0, ticks.last().1);
        assert(begun.wf());
        lemma_stages_done(begun, s.num_stages());
        let held = buffers_ticked(s, buffers, kernels, shorter);
        let contents = buffers_ticked(s, buffers, kernels, ticks);
        let after = ticked_all(s, ticks);
        law_tick_contents(begun, held, kernels);
        assert forall|b: int| 0 <= b < contents.len() implies (#[trigger] contents[b]).len() * 4
            == s.buffer_sizes[b] by {
            assert(held[b].len() * 4 == s.buffer_sizes[b]);
            if b >= 2 && b % 2 == begun.output_index {
                let i = (b - 2 - begun.output_index) / 2;
                assert(b == begun.output_of(i));
                assert(contents[begun.output_of(i)].len() == held[begun.output_of(i)].len());
            }
        }
        assert forall|i: int| 0 <= i < ticks.len() && i < s.num_stages() implies memory::starts_with(
            #[trigger] contents[2 * i + 2 + (1 - after.output_index)],
            memory::chained(fs.take(i + 1), data),
        ) by {
            assert(begun.output_of(i) == 2 * i + 2 + (1 - after.output_index));
            assert(fs.take(i + 1).drop_last() =~= fs.take(i));
            assert(fs.take(i + 1).last() == fs[i]);
            let input = held[begun.input_of(i)];
            let output = held[begun.output_of(i)];
            let y = memory::chained(fs.take(i), data);
            assert(memory::starts_with(input, y)) by {
                if i == 0 {
                    assert(fs.take(0) =~= Seq::empty());
                } else {
                    assert(begun.input_of(i) == 2 * (i - 1) + 2 + (1 - before.output_index));
                    assert(memory::starts_with(
                        held[2 * (i - 1) + 2 + (1 - before.output_index)],
                        memory::chained(fs.take((i - 1) + 1), data),
                    ));
                }
            }
            assert(fs[i](y).len() <= output.len()) by {
                let b = begun.output_of(i);
                assert(b / 2 == i + 1);
                assert(held[b].len() * 4 == s.buffer_sizes[b]);
                assert(buffers[b].len() * 4 == s.buffer_sizes[b]);
            }
            assert(begun.metadata[begun.input_of(i)] is None);
            assert(memory::covers(begun.pass(i), s.output_batch_sizes[i], s.vector_dim)) by {
                assert(plan::workgroups((s.output_batch_sizes[i] * s.vector_dim) as nat)
                    <= u32::MAX);
            }
            assert(memory::makes(
                kernels[i],
                fs[i],
                y,
                s.output_batch_sizes[i],
                s.vector_dim,
            ));
            assert(contents[begun.output_of(i)] == kernels[i](begun.pass(i), input, output));
        }
    }
}

/// What was written is read: data in the input buffer comes out of as many
/// ticks as there are stages, and of every later one while no other input is
/// written. What is read then starts with what the stages, the first one
/// first, make of the data, and has the tag of the last tick.
pub proof fn law_written_data_is_read<T, E>(
    s: VariableState<T>,
    buffers: Seq<Seq<E>>,
    kernels: Seq<Kernel<E>>,
    ticks: Seq<(T, T)>,
    fs: Seq<spec_fn(Seq<E>) -> Seq<E>>,
    data: Seq<E>,
)
    requires
        s.wf(),
        unmarked(s),
        device_matches(s, buffers),
        fits(buffers, fs, data),
        memory::keep_sizes(kernels),
        kernels.len() == s.num_stages(),
        memory::starts_with(buffers[s.input_of(0)], data),
        ticks.len() >= s.num_stages(),
        s.tick_count + ticks.len() <= u64::MAX,
        fs.len() == s.num_stages(),
        forall|i: int|
            0 <= i < fs.len() ==> memory::makes(
                kernels[i],
                #[trigger] fs[i],
                memory::chained(fs.take(i), data),
                s.output_batch_sizes[i],
                s.vector_dim,
            ),
    ensures
        ({
            let after = ticked_all(s, ticks);
            let readback = after.readback();
            let output = buffers_ticked(s, buffers, kernels, ticks)[readback.buffer as int];
            let made = memory::chained(fs, data);
            &&& after.wf()
            &&& after.last_output_tag == Some(ticks.last().1)
            &&& readback.scalars == output.len()
            &&& memory::starts_with(output, made)
            // Where the buffer has no more room, this is all that is read.
            &&& output.len() == made.len() ==> output == made
        }),
{
    let n = s.num_stages();
    lemma_ticked(s, ticks);
    lemma_data_on_its_way(s, buffers, kernels, ticks, fs, data);
    let after = ticked_all(s, ticks);
    let contents = buffers_ticked(s, buffers, kernels, ticks);
    assert(fs.take((n - 1) + 1) =~= fs);
    let b = after.finished_output();
    assert(b == 2 * (n - 1) + 2 + (1 - after.output_index));
    assert(memory::starts_with(
        contents[2 * (n - 1) + 2 + (1 - after.output_index)],
        memory::chained(fs, data),
    ));
    assert(contents[b].len() * 4 == s.buffer_sizes[b]);
    if contents[b].len() == memory::chained(fs, data).len() {
        assert(contents[b].take(contents[b].len() as int) =~= contents[b]);
    }
}

/// Writing input puts it where `law_written_data_is_read` wants it: at the
/// start of the buffer that the first stage reads from then on.
pub proof fn law_write_reaches_the_first_stage<T, E>(
    s: VariableState<T>,
    buffers: Seq<Seq<E>>,
    data: Seq<E>,
)
    requires
        s.wf(),
        device_matches(s, buffers),
        data.len() <= buffers[s.input_write_index as int].len(),
    ensures
        ({
            let w = s.input_write_index as int;
            let after = buffers.update(w, memory::written(buffers[w], data));
            &&& s.accept().wf()
            &&& device_matches(s.accept(), after)
            &&& memory::starts_with(after[s.accept().input_of(0)], data)
            &&& unmarked(s) ==> unmarked(s.accept())
        }),
{
    let w = s.input_write_index as int;
    let written = memory::written(buffers[w], data);
    let after = buffers.update(w, written);
    assert(written.take(data.len() as int) =~= data);
    assert(written.len() == buffers[w].len());
    assert forall|b: int| 0 <= b < after.len() implies (#[trigger] after[b]).len() * 4
        == s.buffer_sizes[b] by {
        assert(buffers[b].len() * 4 == s.buffer_sizes[b]);
    }
}

/// A stage that computes `f` makes `f` of data that fills its buffers.
pub proof fn law_computing_stage_makes<E>(
    kernel: Kernel<E>,
    f: spec_fn(Seq<E>) -> Seq<E>,
    y: Seq<E>,
    elements: usize,
    vector_dim: usize,
)
    requires
        memory::computes(kernel, f, elements, vector_dim),
        y.len() == elements * vector_dim,
    ensures
        memory::makes(kernel, f, y, elements, vector_dim),
        f(y).len() == y.len(),
{
}

/// A stage with the identity shader hands on as much of its data as it has
/// room for, as long as the device can count the scalars.
pub proof fn law_identity_stage_makes<E>(y: Seq<E>, elements: usize, vector_dim: usize)
    requires
        elements * vector_dim < 0x1_0000_0000,
    ensures
        memory::makes(
            |pass: StagePass, input: Seq<E>, before: Seq<E>|
                memory::identity_kernel(pass, input, before),
            |z: Seq<E>|
                z.take(size::smaller(z.len(), (elements * vector_dim) as nat) as int),
            y,
            elements,
            vector_dim,
        ),
{
    let room = (elements * vector_dim) as nat;
    let kernel = |pass: StagePass, input: Seq<E>, before: Seq<E>|
        memory::identity_kernel(pass, input, before);
    let f = |z: Seq<E>| z.take(size::smaller(z.len(), room) as int);
    size::lemma_batch_scalars(elements, vector_dim);
    assert(plan::workgroups(room) * 64 >= room);
    assert forall|pass: StagePass, input: Seq<E>, before: Seq<E>|
        memory::covers(pass, elements, vector_dim) && memory::starts_with(input, y) && before.len()
            >= f(y).len() implies ({
        let after = #[trigger] kernel(pass, input, before);
        after.len() == before.len() && memory::starts_with(after, f(y))
    }) by {
        let after = kernel(pass, input, before);
        let m = f(y).len() as int;
        assert forall|k: int| 0 <= k < m implies after[k] == y[k] by {
            assert(input.take(y.len() as int)[k] == input[k]);
        }
        assert(after.take(m) =~= f(y));
    }
}

/// An identity stage between buffers of different sizes: data that grows is
/// padded with what the larger buffer held, which is zeros in a fresh one, and
/// of data that shrinks the first scalars go on.
pub proof fn law_identity_between_sizes<E>(
    pass: StagePass,
    output_batch_size: usize,
    vector_dim: usize,
    input: Seq<E>,
    before: Seq<E>,
)
    requires
        before.len() == output_batch_size * vector_dim < 0x1_0000_0000,
        pass.work matches StageWork::Dispatch { groups, .. } ==> groups == plan::workgroups(
            (output_batch_size * vector_dim) as nat,
        ),
    ensures
        input.len() <= before.len() ==> memory::identity_kernel(pass, input, before) == input
            + before.skip(input.len() as int),
        input.len() >= before.len() ==> memory::identity_kernel(pass, input, before) == input.take(
            before.len() as int,
        ),
{
    let m = output_batch_size * vector_dim;
    assert(plan::workgroups(m as nat) * 64 >= m);
    let after = memory::identity_kernel(pass, input, before);
    if input.len() <= before.len() {
        assert(after =~= input + before.skip(input.len() as int));
    }
    if input.len() >= before.len() {
        assert(after =~= input.take(before.len() as int));
    }
}

// ---- sizes ----

/// A resize of one buffer spares the one that is written next: its size, what
/// is known of it, and that it is written next stay as they are. The other
/// one has the new size.
pub proof fn law_resize_spares_the_buffer_in_use<T>(
    s: VariableState<T>,
    pair: int,
    batch_size: usize,
)
    requires
        s.wf(),
        0 <= pair <= s.num_stages(),
        size::batch_bytes(batch_size, s.vector_dim) <= usize::MAX,
    ensures
        ({
            let after = s.resized(pair, batch_size);
            let resting = s.resting_buffer(pair);
            let in_use = if pair == 0 {
                s.input_write_index as int
            } else {
                s.output_of(pair - 1)
            };
            &&& after.wf()
            &&& in_use != resting
            &&& in_use == 2 * pair || in_use == 2 * pair + 1
            &&& resting == 2 * pair || resting == 2 * pair + 1
            &&& after.buffer_sizes[in_use] == s.buffer_sizes[in_use]
            &&& after.metadata[in_use] == s.metadata[in_use]
            &&& after.buffer_sizes[resting] == size::batch_bytes(batch_size, s.vector_dim)
            &&& pair == 0 ==> after.input_write_index == in_use
            &&& pair > 0 ==> after.output_of(pair - 1) == in_use
            &&& forall|b: int|
                0 <= b < s.buffer_sizes.len() && b != resting ==> (#[trigger] after.buffer_sizes[b])
                    == s.buffer_sizes[b]
        }),
{
}

/// A resize of one buffer keeps the data that rests in it: all of it, padded
/// with zeros, where the buffer grows, and its first scalars where it shrinks.
pub proof fn law_resize_keeps_resting_data<T, E>(
    s: VariableState<T>,
    pair: int,
    batch_size: usize,
    contents: Seq<E>,
    zero: E,
)
    requires
        s.wf(),
        0 <= pair <= s.num_stages(),
        size::batch_bytes(batch_size, s.vector_dim) <= usize::MAX,
        contents.len() * 4 == s.buffer_sizes[s.resting_buffer(pair)],
    ensures
        ({
            let resting = s.resting_buffer(pair);
            let after = memory::replaced(contents, s.replacement(resting, batch_size), zero);
            &&& after.len() * 4 == s.resized(pair, batch_size).buffer_sizes[resting]
            &&& contents.len() <= after.len() ==> after == contents + Seq::new(
                (after.len() - contents.len()) as nat,
                |i: int| zero,
            )
            &&& contents.len() >= after.len() ==> after == contents.take(after.len() as int)
        }),
{
    let resting = s.resting_buffer(pair);
    let new_size = size::batch_bytes(batch_size, s.vector_dim) as u64;
    size::lemma_batch_scalars(batch_size, s.vector_dim);
    laws::law_replacement_keeps_data(contents, resting as usize, new_size, zero);
    assert(s.replacement(resting, batch_size).copy_size == size::smaller(
        contents.len() * 4,
        new_size as nat,
    ));
}

/// Both buffers of a pair have the new size after both were resized, or after
/// one was, the roles were exchanged, and the other one was.
pub proof fn law_resizes_reach_both_buffers<T>(s: VariableState<T>, pair: int, batch_size: usize)
    requires
        s.wf(),
        0 <= pair <= s.num_stages(),
        size::batch_bytes(batch_size, s.vector_dim) <= usize::MAX,
        s.vector_dim > 0,
    ensures
        ({
            let bytes = size::batch_bytes(batch_size, s.vector_dim);
            let both = s.resized_both(pair, batch_size);
            let once = s.resized(pair, batch_size);
            let twice = if pair == 0 {
                once.accept().resized(pair, batch_size)
            } else {
                once.flip().resized(pair, batch_size)
            };
            &&& both.buffer_sizes[2 * pair] == bytes
            &&& both.buffer_sizes[2 * pair + 1] == bytes
            &&& twice.buffer_sizes[2 * pair] == bytes
            &&& twice.buffer_sizes[2 * pair + 1] == bytes
            &&& bytes / size::vector_bytes(s.vector_dim) == batch_size
            &&& both.stage_bytes(variable_state::stage_of_pair(pair)) == bytes
        }),
{
    let per_vector = size::vector_bytes(s.vector_dim) as int;
    let bytes = size::batch_bytes(batch_size, s.vector_dim) as int;
    assert(bytes / per_vector == batch_size) by (nonlinear_arith)
        requires
            per_vector > 0,
            bytes == batch_size * per_vector,
    ;
}

/// After a resize, every standard stage that reads or writes a replaced
/// buffer creates its bind groups anew.
pub proof fn law_resize_voids_bind_groups<T>(
    s: VariableState<T>,
    pair: int,
    batch_size: usize,
    i: int,
)
    requires
        s.wf(),
        0 <= pair <= s.num_stages(),
        0 <= i < s.num_stages(),
        i == pair || i + 1 == pair,
        s.kinds[i] is Standard,
    ensures
        s.resized(pair, batch_size).pass(i).work matches StageWork::Dispatch {
            create_bind_groups,
            ..
        } && create_bind_groups,
        s.resized_both(pair, batch_size).pass(i).work matches StageWork::Dispatch {
            create_bind_groups,
            ..
        } && create_bind_groups,
{
}

} // verus!
