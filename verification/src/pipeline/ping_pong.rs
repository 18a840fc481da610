//! Pipelines whose stages all have buffers of one size.
//!
//! A request that the device has a part in comes in two halves: one that
//! decides what the device has to do, and one that is called when the device
//! has done it. Between the two the state of the pipeline is the one that a
//! device failure leaves behind.

use std::sync::Arc;

use vstd::prelude::*;

use crate::error::PipelineError;
use crate::pipeline::pipeline_stage;
use crate::pipeline::pipeline_stage::{Notice, StageConfig};
use crate::pipeline::size;
use crate::pipeline::size::{batch_byte_size, batch_fits, F32_SIZE};
use crate::pipeline::state;
use crate::pipeline::state::PipelineState;
use crate::plan::{
    bind_entries, default_bindings, workgroup_count, BindingEntry, BufferResize, InputWrite,
    Readback, StagePass, StageWork, Submission,
};
use crate::side_inputs;
use crate::side_inputs::SideInputs;
use crate::wgpu_utils::ComputeContext;

verus! {

/// What has to be done before, or now, to process data.
#[derive(Debug)]
pub enum ProcessAction<T> {
    /// The data does not fit: replace the buffers, complete the resize, and
    /// process the same data with the same tag again.
    Resize { plan: ResizePlan, tag: T },
    /// Write the data, where there is some, and let every stage do its work.
    /// `output_due` says whether that brings data out of the last stage.
    Run { write: Option<InputWrite>, output_due: bool },
}

/// What has to be done to take input.
#[derive(Debug)]
pub enum InputAction {
    /// The data does not fit: replace the buffers, complete the resize, and
    /// write the same data again.
    Resize(ResizePlan),
    /// Write the data.
    Write(InputWrite),
}

/// How the device fared with the commands of a tick.
#[derive(Clone, Copy, Debug, PartialEq, Eq, Structural)]
pub enum TickEvent {
    /// The commands were submitted and are done.
    Completed,
    /// The commands were submitted, and waiting for them failed.
    PollFailed,
    /// The commands are done, and reading back what they brought out failed.
    ReadFailed,
}

/// A replacement of all buffers.
#[derive(Debug)]
pub struct ResizePlan {
    /// Vectors that the new buffers hold.
    pub batch_size: usize,
    /// Scalars of these vectors.
    pub vector_dim: usize,
    /// The replacements, one for each buffer.
    pub buffers: Vec<BufferResize>,
}

/// A pipeline of stages that share one vector dimension and one batch size.
pub struct Pipeline<T> {
    vector_dim: usize,
    batch_size: usize,
    tick_count: u64,
    current_set: usize,
    default_n: usize,
    stage_configs: Vec<StageConfig<T>>,
    bind_groups: Vec<bool>,
    buffer_submission_metadata: Vec<Option<Submission>>,
    side_inputs: SideInputs<Arc<wgpu::Buffer>>,
}

impl<T> View for Pipeline<T> {
    type V = PipelineState<T>;

    closed spec fn view(&self) -> PipelineState<T> {
        PipelineState {
            vector_dim: self.vector_dim,
            batch_size: self.batch_size,
            tick_count: self.tick_count,
            current_set: self.current_set,
            default_n: self.default_n,
            tags: self.stage_configs@.map_values(|c: StageConfig<T>| c.spec_tag()),
            kinds: self.stage_configs@.map_values(|c: StageConfig<T>| c.kind()),
            bind_groups: self.bind_groups@,
            metadata: self.buffer_submission_metadata@,
            side_inputs: self.side_inputs@,
        }
    }
}

impl<T> Pipeline<T> {
    /// What holds of every pipeline.
    pub open spec fn wf(&self) -> bool {
        self@.wf()
    }

    /// The stages.
    pub closed spec fn stages(&self) -> Seq<StageConfig<T>> {
        self.stage_configs@
    }

    /// Whether the stages are the ones `before` but for their tags.
    pub open spec fn retagged(&self, before: &Self) -> bool {
        &&& self.stages().len() == before.stages().len()
        &&& forall|j: int|
            0 <= j < before.stages().len() ==> (#[trigger] self.stages()[j])
                == before.stages()[j].with_tag(self@.tags[j])
    }

    /// Begins a tick: every tag moves on by one stage, and `tag` enters at
    /// the first. Says whether the tick brings data out of the last stage.
    pub fn tick(&mut self, tag: T) -> (output_due: bool)
        requires
            old(self).wf(),
        ensures
            final(self).wf(),
            final(self)@ == old(self)@.forward(tag),
            final(self).retagged(old(self)),
            output_due == old(self)@.output_due(),
            final(self)@.ticking(),
            // The tag of data that comes out is there.
            output_due ==> final(self)@.tags.last() is Some,
    {
        let num_stages: usize = self.stage_configs.len();
        let output_due = self.tick_count >= num_stages as u64 - 1;
        let mut current_tag: Option<T> = Some(tag);
        let mut i: usize = 0;
        while i < self.stage_configs.len()
            invariant
                self.stage_configs@.len() == old(self).stage_configs@.len() == num_stages,
                i <= num_stages,
                old(self).wf(),
                self@ == (PipelineState { tags: self@.tags, ..old(self)@ }),
                forall|j: int|
                    0 <= j < i ==> (#[trigger] self@.tags[j]) == if j == 0 {
                        Some(tag)
                    } else {
                        old(self)@.tags[j - 1]
                    },
                forall|j: int| i <= j < num_stages ==> (#[trigger] self@.tags[j]) == old(self)@.tags[j],
                forall|j: int|
                    0 <= j < i ==> (#[trigger] self.stage_configs@[j]) == old(
                        self,
                    ).stage_configs@[j].with_tag(self@.tags[j]),
                forall|j: int|
                    i <= j < num_stages ==> (#[trigger] self.stage_configs@[j]) == old(
                        self,
                    ).stage_configs@[j],
                current_tag == if i == 0 {
                    Some(tag)
                } else {
                    old(self)@.tags[i - 1]
                },
            decreases num_stages - i,
        {
            let ghost before = self@;
            let ghost entering = current_tag;
            current_tag = self.stage_configs[i].forward_tag(current_tag);
            proof {
                assert(current_tag == before.tags[i as int]);
                assert(self@.tags =~= before.tags.update(i as int, entering));
                assert(self@.kinds =~= before.kinds);
            }
            i = i + 1;
        }
        assert(self@.tags =~= old(self)@.forward(tag).tags);
        output_due
    }

    /// Where all stages kept their kinds and tags and nothing else changed,
    /// neither did the state.
    proof fn lemma_same_state(&self, before: &Self)
        requires
            *self == (Pipeline { stage_configs: self.stage_configs, ..*before }),
            self.stages().len() == before.stages().len(),
            forall|j: int|
                0 <= j < self.stages().len() ==> {
                    &&& (#[trigger] self.stages()[j]).kind() == before.stages()[j].kind()
                    &&& self.stages()[j].spec_tag() == before.stages()[j].spec_tag()
                },
        ensures
            self@ == before@,
    {
        assert(self@.tags =~= before@.tags) by {
            assert forall|j: int| 0 <= j < self@.tags.len() implies self@.tags[j]
                == before@.tags[j] by {
                assert(self.stages()[j].spec_tag() == before.stages()[j].spec_tag());
            }
        }
        assert(self@.kinds =~= before@.kinds) by {
            assert forall|j: int| 0 <= j < self@.kinds.len() implies self@.kinds[j]
                == before@.kinds[j] by {
                assert(self.stages()[j].kind() == before.stages()[j].kind());
            }
        }
    }

    /// Decides what stage `i` does in this tick, and tells a custom stage
    /// what its data is.
    pub fn stage_pass(&mut self, i: usize) -> (result: Result<StagePass, PipelineError>)
        requires
            old(self).wf(),
            i < old(self)@.num_stages(),
        ensures
            final(self).wf(),
            final(self)@ == old(self)@,
            final(self).stages() == old(self).stages().update(
                i as int,
                final(self).stages()[i as int],
            ),
            match result {
                Ok(pass) => {
                    &&& pass == old(self)@.pass(i as int)
                    &&& final(self).stages()[i as int].briefed(
                        &old(self).stages()[i as int],
                        pass.elements,
                        pass.n,
                        Ok(()),
                    )
                },
                Err(e) => {
                    &&& e is Stage
                    &&& old(self)@.kinds[i as int] is Custom
                    &&& final(self).stages()[i as int].briefed(
                        &old(self).stages()[i as int],
                        old(self)@.pass(i as int).elements,
                        old(self)@.pass(i as int).n,
                        Err(e),
                    )
                },
            },
            !(old(self)@.kinds[i as int] is Custom) ==> final(self).stages() == old(self).stages(),
    {
        let input: usize = 2 * i + self.current_set;
        let output: usize = 2 * i + 2 + (1 - self.current_set);
        let (elements, n): (usize, usize) = match self.buffer_submission_metadata[input] {
            Some(s) => (s.elements, s.n),
            None => (self.batch_size, self.default_n),
        };
        proof {
            size::lemma_batch_scalars(elements, self.vector_dim);
        }
        let told = self.stage_configs[i].brief(elements, n);
        proof {
            let was = old(self).stages()[i as int];
            self.stages()[i as int].lemma_briefed(&was, elements, n, told);
            self.lemma_same_state(old(self));
            assert(old(self)@.kinds[i as int] == was.kind());
            assert(self.stages() =~= old(self).stages().update(
                i as int,
                self.stages()[i as int],
            ));
            if !was.spec_is_custom() {
                assert(self.stages() =~= old(self).stages());
            }
            assert(told is Ok ==> told == Ok::<(), PipelineError>(()));
        }
        if let Err(e) = told {
            return Err(e);
        }
        let work = if self.stage_configs[i].is_custom() {
            StageWork::Encode
        } else {
            StageWork::Dispatch {
                input_variant: self.current_set,
                output_state: 1 - self.current_set,
                groups: workgroup_count(elements * self.vector_dim),
                create_bind_groups: !self.bind_groups[i],
            }
        };
        Ok(StagePass { stage: i, input, output, elements, n, work })
    }

    /// Records that the work of stage `i` was encoded.
    pub fn stage_encoded(&mut self, i: usize)
        requires
            old(self).wf(),
            i < old(self)@.num_stages(),
        ensures
            final(self).wf(),
            final(self)@ == old(self)@.encoded(i as int),
            final(self).stages() == old(self).stages(),
    {
        let input: usize = 2 * i + self.current_set;
        let output: usize = 2 * i + 2 + (1 - self.current_set);
        let known = self.buffer_submission_metadata[input];
        self.buffer_submission_metadata.set(output, known);
        if !self.stage_configs[i].is_custom() {
            self.bind_groups.set(i, true);
        }
        assert(self@.kinds[i as int] == self.stage_configs@[i as int].kind());
        assert(self@.bind_groups =~= old(self)@.encoded(i as int).bind_groups);
    }

    /// Takes `data` as the input of the tick that comes next. Where it does
    /// not fit in a buffer, the buffers have to be replaced first, and
    /// nothing has changed yet. `E` is the type of a scalar, which takes four
    /// bytes of a buffer.
    pub fn write_input<E>(&mut self, data: &[E]) -> (result: Result<InputAction, PipelineError>)
        requires
            old(self).wf(),
            data@.len() * 4 <= usize::MAX,
            vstd::layout::size_of::<E>() == 4,
        ensures
            final(self).wf(),
            final(self).stages() == old(self).stages(),
            match old(self)@.input_error(data@.len()) {
                Some(e) => result == Err::<InputAction, PipelineError>(e) && final(self)@ == old(
                    self,
                )@,
                None => if data@.len() * 4 > old(self)@.buffer_bytes() {
                    &&& result matches Ok(InputAction::Resize(plan))
                    &&& plan.batch_size == old(self)@.input_elements(data@.len())
                    &&& plan.vector_dim == old(self)@.vector_dim
                    &&& plan.buffers@ == old(self)@.replacements(plan.batch_size, plan.vector_dim)
                    &&& final(self)@ == old(self)@
                } else {
                    &&& result matches Ok(InputAction::Write(write))
                    &&& write == old(self)@.input_write(data@.len())
                    &&& final(self)@ == old(self)@.accept(old(self)@.input_elements(data@.len()))
                },
            },
    {
        let actual_byte_size: usize = data.len() * F32_SIZE;
        if actual_byte_size == 0 {
            return Err(PipelineError::EmptyInput);
        }
        let element_size: usize = self.vector_dim * F32_SIZE;
        if actual_byte_size % element_size != 0 {
            return Err(
                PipelineError::PartialVector {
                    bytes: actual_byte_size,
                    element_size,
                    vector_dim: self.vector_dim,
                },
            );
        }
        let actual_batch_size: usize = actual_byte_size / element_size;
        let write_idx: usize = self.current_set;
        assert(size::batch_bytes(actual_batch_size, self.vector_dim) == actual_byte_size)
            by (nonlinear_arith)
            requires
                element_size > 0,
                actual_byte_size % element_size == 0,
                actual_batch_size == actual_byte_size / element_size,
                element_size == self.vector_dim * 4,
        ;
        if actual_byte_size as u64 > batch_byte_size(self.batch_size, self.vector_dim) {
            let new_batch_size: usize = if actual_batch_size >= self.batch_size {
                actual_batch_size
            } else {
                self.batch_size
            };
            assert(new_batch_size == actual_batch_size) by (nonlinear_arith)
                requires
                    actual_batch_size * (self.vector_dim * 4) > self.batch_size * (self.vector_dim
                        * 4),
                    new_batch_size == if actual_batch_size >= self.batch_size {
                        actual_batch_size
                    } else {
                        self.batch_size
                    },
            ;
            let buffers = self.replacements(new_batch_size, self.vector_dim);
            return Ok(
                InputAction::Resize(
                    ResizePlan {
                        batch_size: new_batch_size,
                        vector_dim: self.vector_dim,
                        buffers,
                    },
                ),
            );
        }
        let custom_n: usize = match self.buffer_submission_metadata[write_idx] {
            Some(s) => s.n,
            None => self.default_n,
        };
        self.buffer_submission_metadata.set(
            write_idx,
            Some(
                Submission {
                    elements: actual_batch_size,
                    n: custom_n,
                    batch_size: actual_batch_size,
                },
            ),
        );
        Ok(InputAction::Write(InputWrite { buffer: write_idx, bytes: actual_byte_size }))
    }

    /// The replacements that make all buffers hold `batch_size` vectors of
    /// `vector_dim` scalars.
    fn replacements(&self, batch_size: usize, vector_dim: usize) -> (buffers: Vec<BufferResize>)
        requires
            self.wf(),
            size::vector_bytes(vector_dim) <= usize::MAX,
            size::batch_bytes(batch_size, vector_dim) <= usize::MAX,
        ensures
            buffers@ == self@.replacements(batch_size, vector_dim),
    {
        let new_size: u64 = batch_byte_size(batch_size, vector_dim);
        let old_size: u64 = batch_byte_size(self.batch_size, self.vector_dim);
        let copy_size: u64 = if old_size <= new_size {
            old_size
        } else {
            new_size
        };
        let mut buffers: Vec<BufferResize> = Vec::new();
        let mut i: usize = 0;
        while i < self.buffer_submission_metadata.len()
            invariant
                i <= self.buffer_submission_metadata@.len(),
                buffers@ =~= state::resize_all(i as nat, new_size, copy_size),
            decreases self.buffer_submission_metadata@.len() - i,
        {
            buffers.push(BufferResize { index: i, new_size, copy_size });
            i = i + 1;
        }
        buffers
    }

    /// Processes data, where there is some, with a tag.
    ///
    /// This starts the tick; each stage then does its work (`stage_pass`,
    /// `stage_encoded`), the last output is copied (`readback`), and
    /// `finish_process` ends the tick. For `n` stages, the data and the tag
    /// come out of the `n`-th tick, this one counted.
    pub fn process<E>(&mut self, data: Option<&[E]>, tag: T) -> (result: Result<
        ProcessAction<T>,
        PipelineError,
    >)
        requires
            old(self).wf(),
            data matches Some(d) ==> d@.len() * 4 <= usize::MAX && vstd::layout::size_of::<E>()
                == 4,
        ensures
            final(self).wf(),
            final(self).retagged(old(self)),
            match data {
                None => {
                    &&& result matches Ok(ProcessAction::Run { write, output_due })
                    &&& write is None
                    &&& output_due == old(self)@.output_due()
                    &&& final(self)@ == old(self)@.forward(tag)
                    &&& final(self)@.ticking()
                    &&& output_due ==> final(self)@.tags.last() is Some
                },
                Some(d) => match old(self)@.input_error(d@.len()) {
                    Some(e) => result == Err::<ProcessAction<T>, PipelineError>(e) && final(self)@
                        == old(self)@,
                    None => if d@.len() * 4 > old(self)@.buffer_bytes() {
                        &&& result matches Ok(ProcessAction::Resize { plan, tag: same_tag })
                        &&& same_tag == tag
                        &&& plan.batch_size == old(self)@.input_elements(d@.len())
                        &&& plan.vector_dim == old(self)@.vector_dim
                        &&& plan.buffers@ == old(self)@.replacements(
                            plan.batch_size,
                            plan.vector_dim,
                        )
                        &&& final(self)@ == old(self)@
                    } else {
                        &&& result matches Ok(ProcessAction::Run { write, output_due })
                        &&& write == Some(old(self)@.input_write(d@.len()))
                        &&& output_due == old(self)@.output_due()
                        &&& final(self)@ == old(self)@.accept(
                            old(self)@.input_elements(d@.len()),
                        ).forward(tag)
                        &&& final(self)@.ticking()
                        &&& output_due ==> final(self)@.tags.last() is Some
                    },
                },
            },
    {
        let write = match data {
            Some(data_slice) => match self.write_input(data_slice) {
                Err(e) => {
                    return Err(e);
                },
                Ok(InputAction::Resize(plan)) => {
                    return Ok(ProcessAction::Resize { plan, tag });
                },
                Ok(InputAction::Write(write)) => Some(write),
            },
            None => None,
        };
        let output_due = self.tick(tag);
        Ok(ProcessAction::Run { write, output_due })
    }

    /// What to copy to the host from buffer `b`.
    fn readback_of(&self, b: usize) -> (readback: Option<Readback>)
        requires
            self.wf(),
            b < self@.metadata.len(),
        ensures
            readback == self@.readback(b as int),
    {
        let elements: usize = match self.buffer_submission_metadata[b] {
            Some(s) => s.elements,
            None => self.batch_size,
        };
        proof {
            size::lemma_batch_scalars(elements, self.vector_dim);
        }
        let element_count: usize = elements * self.vector_dim;
        let wanted: u64 = (element_count * F32_SIZE) as u64;
        let present: u64 = batch_byte_size(self.batch_size, self.vector_dim);
        let bytes: u64 = if wanted <= present {
            wanted
        } else {
            present
        };
        if bytes > 0 {
            Some(Readback { buffer: b, bytes, scalars: bytes as usize / F32_SIZE })
        } else {
            None
        }
    }

    /// What to copy to the host from the buffer that the last stage writes in
    /// this tick. The copy belongs to the commands of the tick, whether or
    /// not the data is due.
    pub fn readback(&self) -> (readback: Option<Readback>)
        requires
            self.wf(),
        ensures
            readback == self@.readback(self@.last_output()),
    {
        let num_stages: usize = self.stage_configs.len();
        self.readback_of(2 * num_stages + (1 - self.current_set))
    }

    /// Ends a tick. `PollFailed` leaves the tick uncounted.
    pub fn finish_tick(&mut self, event: TickEvent)
        requires
            old(self).wf(),
            old(self)@.tick_count < u64::MAX,
            old(self)@.ticking(),
        ensures
            final(self).wf(),
            final(self)@ == if event == TickEvent::PollFailed {
                old(self)@.flip()
            } else {
                old(self)@.complete()
            },
            final(self).stages() == old(self).stages(),
    {
        self.current_set = 1 - self.current_set;
        if event != TickEvent::PollFailed {
            self.tick_count = self.tick_count + 1;
        }
    }

    /// Ends a tick that `process` began, and hands out the tag of the data
    /// that came out. `output_due` is what `process` said and `readback` what
    /// was copied: where nothing was copied, the tag stays.
    pub fn finish_process(
        &mut self,
        output_due: bool,
        readback: &Option<Readback>,
        event: TickEvent,
    ) -> (tag: Option<T>)
        requires
            old(self).wf(),
            old(self)@.tick_count < u64::MAX,
            old(self)@.ticking(),
        ensures
            final(self).wf(),
            if event == TickEvent::PollFailed {
                tag is None && final(self)@ == old(self)@.flip()
            } else if event == TickEvent::Completed && output_due && readback is Some {
                tag == old(self)@.tags.last() && final(self)@ == old(self)@.complete().take_tag()
            } else {
                tag is None && final(self)@ == old(self)@.complete()
            },
            final(self).retagged(old(self)),
    {
        self.finish_tick(event);
        match event {
            TickEvent::Completed => if output_due && readback.is_some() {
                self.take_output()
            } else {
                None
            },
            TickEvent::PollFailed => None,
            TickEvent::ReadFailed => None,
        }
    }

    /// Takes the tag of the last stage, together with the data that
    /// `read_output` found there.
    pub fn take_output(&mut self) -> (tag: Option<T>)
        requires
            old(self).wf(),
        ensures
            final(self).wf(),
            tag == old(self)@.tags.last(),
            final(self)@ == old(self)@.take_tag(),
            final(self).retagged(old(self)),
    {
        let last: usize = self.stage_configs.len() - 1;
        let tag = self.stage_configs[last].forward_tag(None);
        proof {
            assert(self@.tags =~= old(self)@.take_tag().tags);
            assert(self@.kinds =~= old(self)@.kinds);
        }
        tag
    }

    /// What to copy to the host to get the data that came out of the last
    /// stage in the tick that was completed last, where such data is there.
    pub fn read_output(&self) -> (readback: Option<Readback>)
        requires
            self.wf(),
        ensures
            readback == if self@.output_ready() {
                self@.readback(self@.finished_output())
            } else {
                None
            },
    {
        let num_stages: usize = self.stage_configs.len();
        if self.tick_count >= num_stages as u64 && !self.stage_configs[num_stages - 1].is_empty() {
            self.readback_of(2 * num_stages + self.current_set)
        } else {
            None
        }
    }

    /// Whether no stage holds tagged data.
    pub fn is_empty(&self) -> (empty: bool)
        requires
            self.wf(),
        ensures
            empty == (forall|i: int|
                0 <= i < self@.num_stages() ==> (#[trigger] self@.tags[i]) is None),
    {
        let mut i: usize = 0;
        while i < self.stage_configs.len()
            invariant
                i <= self.stage_configs@.len(),
                forall|j: int| 0 <= j < i ==> (#[trigger] self@.tags[j]) is None,
            decreases self.stage_configs@.len() - i,
        {
            assert(self@.tags[i as int] == self.stage_configs@[i as int].spec_tag());
            if !self.stage_configs[i].is_empty() {
                return false;
            }
            i = i + 1;
        }
        true
    }

    /// Sets the default n value for the pipeline.
    /// This is used as a fallback when no metadata is available for a buffer.
    pub fn set_default_n(&mut self, n: usize)
        requires
            old(self).wf(),
        ensures
            final(self).wf(),
            final(self)@ == (PipelineState { default_n: n, ..old(self)@ }),
            final(self).stages() == old(self).stages(),
    {
        self.default_n = n;
    }

    /// Sets the submission metadata for the input buffer in the current set,
    /// the one that the first stage reads in this tick. This allows tracking
    /// submission sizes through the pipeline without padding.
    pub fn set_input_submission_metadata(
        &mut self,
        actual_total_elements: usize,
        n: usize,
        batch_size: usize,
    )
        requires
            old(self).wf(),
            size::batch_bytes(actual_total_elements, old(self)@.vector_dim) <= usize::MAX,
        ensures
            final(self).wf(),
            final(self)@ == (PipelineState {
                metadata: old(self)@.metadata.update(
                    old(self)@.current_set as int,
                    Some(Submission { elements: actual_total_elements, n, batch_size }),
                ),
                ..old(self)@
            }),
            final(self).stages() == old(self).stages(),
    {
        let current: usize = self.current_set;
        self.buffer_submission_metadata.set(
            current,
            Some(Submission { elements: actual_total_elements, n, batch_size }),
        );
    }

    /// Clears all buffer metadata.
    /// This should be called when the pipeline is idle to avoid interference
    /// with new submissions.
    pub fn clear_all_buffer_metadata(&mut self)
        requires
            old(self).wf(),
        ensures
            final(self).wf(),
            final(self)@ == (PipelineState { metadata: old(self)@.no_metadata(), ..old(self)@ }),
            final(self).stages() == old(self).stages(),
    {
        let mut i: usize = 0;
        while i < self.buffer_submission_metadata.len()
            invariant
                i <= self.buffer_submission_metadata@.len() == old(self)@.metadata.len(),
                self@ == (PipelineState { metadata: self@.metadata, ..old(self)@ }),
                self.stage_configs == old(self).stage_configs,
                forall|j: int| 0 <= j < i ==> (#[trigger] self@.metadata[j]) is None,
            decreases self.buffer_submission_metadata@.len() - i,
        {
            self.buffer_submission_metadata.set(i, None);
            i = i + 1;
        }
        assert(self@.metadata =~= old(self)@.no_metadata());
    }

    /// Decides how the buffers are replaced so that they hold
    /// `new_batch_size` vectors; nothing has to be done where they do already.
    pub fn resize(&self, new_batch_size: usize) -> (result: Result<
        Option<ResizePlan>,
        PipelineError,
    >)
        requires
            self.wf(),
            size::batch_bytes(new_batch_size, self@.vector_dim) <= usize::MAX,
        ensures
            if new_batch_size == 0 {
                result == Err::<Option<ResizePlan>, PipelineError>(PipelineError::ZeroBatchSize)
            } else if new_batch_size == self@.batch_size {
                result matches Ok(plan) && plan is None
            } else {
                &&& result matches Ok(Some(plan))
                &&& plan.batch_size == new_batch_size
                &&& plan.vector_dim == self@.vector_dim
                &&& plan.buffers@ == self@.replacements(new_batch_size, self@.vector_dim)
            },
    {
        if new_batch_size == 0 {
            return Err(PipelineError::ZeroBatchSize);
        }
        if new_batch_size == self.batch_size {
            return Ok(None);
        }
        let buffers = self.replacements(new_batch_size, self.vector_dim);
        Ok(Some(ResizePlan { batch_size: new_batch_size, vector_dim: self.vector_dim, buffers }))
    }

    /// Records that the buffers were replaced and now hold `new_batch_size`
    /// vectors. The default n value becomes the batch size, all bind groups are
    /// void, and the stages that want to know are told; whether they take it
    /// changes nothing.
    pub fn complete_resize(&mut self, new_batch_size: usize)
        requires
            old(self).wf(),
            new_batch_size >= 1,
            size::batch_bytes(new_batch_size, old(self)@.vector_dim) <= usize::MAX,
        ensures
            final(self).wf(),
            final(self)@ == old(self)@.replaced(new_batch_size, old(self)@.vector_dim),
            pipeline_stage::told_sizes(
                old(self).stages(),
                final(self).stages(),
                new_batch_size,
                old(self)@.vector_dim,
            ),
    {
        let vector_dim: usize = self.vector_dim;
        self.batch_size = new_batch_size;
        self.default_n = new_batch_size;
        self.clear_bind_groups();
        self.tell_sizes(new_batch_size, vector_dim);
    }

    /// Marks the bind groups of all stages as void.
    fn clear_bind_groups(&mut self)
        requires
            old(self).bind_groups@.len() == old(self).stage_configs@.len(),
        ensures
            final(self)@ == (PipelineState {
                bind_groups: old(self)@.no_bind_groups(),
                ..old(self)@
            }),
            final(self).stage_configs == old(self).stage_configs,
    {
        let mut i: usize = 0;
        while i < self.bind_groups.len()
            invariant
                i <= self.bind_groups@.len() == old(self)@.tags.len(),
                self@ == (PipelineState { bind_groups: self@.bind_groups, ..old(self)@ }),
                self.stage_configs == old(self).stage_configs,
                forall|j: int| 0 <= j < i ==> (#[trigger] self@.bind_groups[j]) == false,
            decreases self.bind_groups@.len() - i,
        {
            self.bind_groups.set(i, false);
            i = i + 1;
        }
        assert(self@.bind_groups =~= old(self)@.no_bind_groups());
    }

    /// Tells every stage that wants to know the sizes of the buffers, whether
    /// or not it takes it.
    fn tell_sizes(&mut self, batch_size: usize, vector_dim: usize)
        ensures
            final(self)@ == old(self)@,
            pipeline_stage::told_sizes(
                old(self).stages(),
                final(self).stages(),
                batch_size,
                vector_dim,
            ),
    {
        let mut i: usize = 0;
        while i < self.stage_configs.len()
            invariant
                i <= self.stages().len() == old(self).stages().len(),
                self@ == old(self)@,
                forall|j: int|
                    0 <= j < i ==> (#[trigger] self.stages()[j]).told_size(
                        &old(self).stages()[j],
                        batch_size,
                        vector_dim,
                    ),
                forall|j: int|
                    i <= j < self.stages().len() ==> (#[trigger] self.stages()[j]) == old(
                        self,
                    ).stages()[j],
            decreases self.stages().len() - i,
        {
            let ghost before = *self;
            self.stage_configs[i].tell_size(batch_size, vector_dim);
            proof {
                self.lemma_same_state(&before);
            }
            i = i + 1;
        }
    }

    /// Decides how the buffers are replaced so that they hold
    /// `new_batch_size` vectors of `new_vector_dim` scalars; nothing has to be
    /// done where they do already.
    pub fn resize_dynamic(&self, new_batch_size: usize, new_vector_dim: usize) -> (result: Result<
        Option<ResizePlan>,
        PipelineError,
    >)
        requires
            self.wf(),
            size::vector_bytes(new_vector_dim) <= usize::MAX,
            size::batch_bytes(new_batch_size, new_vector_dim) <= usize::MAX,
        ensures
            if new_batch_size == 0 {
                result == Err::<Option<ResizePlan>, PipelineError>(PipelineError::ZeroBatchSize)
            } else if new_vector_dim == 0 {
                result == Err::<Option<ResizePlan>, PipelineError>(PipelineError::ZeroVectorDim)
            } else if new_vector_dim == self@.vector_dim && new_batch_size == self@.batch_size {
                result matches Ok(plan) && plan is None
            } else {
                &&& result matches Ok(Some(plan))
                &&& plan.batch_size == new_batch_size
                &&& plan.vector_dim == new_vector_dim
                &&& plan.buffers@ == self@.replacements(new_batch_size, new_vector_dim)
            },
    {
        if new_batch_size == 0 {
            return Err(PipelineError::ZeroBatchSize);
        }
        if new_vector_dim == 0 {
            return Err(PipelineError::ZeroVectorDim);
        }
        if new_vector_dim == self.vector_dim && new_batch_size == self.batch_size {
            return Ok(None);
        }
        let buffers = self.replacements(new_batch_size, new_vector_dim);
        Ok(Some(ResizePlan { batch_size: new_batch_size, vector_dim: new_vector_dim, buffers }))
    }

    /// Records that the buffers were replaced and now hold `new_batch_size`
    /// vectors of `new_vector_dim` scalars. The default n value becomes the
    /// batch size, all bind groups are void, what was known of the data in the
    /// buffers is forgotten, and the stages that want to know are told both
    /// sizes; whether they take it changes nothing.
    pub fn complete_resize_dynamic(&mut self, new_batch_size: usize, new_vector_dim: usize)
        requires
            old(self).wf(),
            new_batch_size >= 1,
            new_vector_dim >= 1,
            size::vector_bytes(new_vector_dim) <= usize::MAX,
            size::batch_bytes(new_batch_size, new_vector_dim) <= usize::MAX,
        ensures
            final(self).wf(),
            final(self)@ == old(self)@.replaced_anew(new_batch_size, new_vector_dim),
            pipeline_stage::told_sizes(
                old(self).stages(),
                final(self).stages(),
                new_batch_size,
                new_vector_dim,
            ),
    {
        self.clear_all_buffer_metadata();
        self.batch_size = new_batch_size;
        self.vector_dim = new_vector_dim;
        self.default_n = new_batch_size;
        self.clear_bind_groups();
        assert(self@ == old(self)@.replaced_anew(new_batch_size, new_vector_dim));
        self.tell_sizes(new_batch_size, new_vector_dim);
    }

    /// Decides how the buffers are replaced so that the pipeline and all its
    /// stages handle `new_batch_size` vectors of `new_vector_dim` scalars;
    /// nothing has to be done where the buffers hold that many already.
    pub fn resize_with_stages(&self, new_batch_size: usize, new_vector_dim: usize) -> (result:
        Result<Option<ResizePlan>, PipelineError>)
        requires
            self.wf(),
            size::vector_bytes(new_vector_dim) <= usize::MAX,
            size::batch_bytes(new_batch_size, new_vector_dim) <= usize::MAX,
        ensures
            if new_batch_size == 0 {
                result == Err::<Option<ResizePlan>, PipelineError>(PipelineError::ZeroBatchSize)
            } else if new_vector_dim == 0 {
                result == Err::<Option<ResizePlan>, PipelineError>(PipelineError::ZeroVectorDim)
            } else if new_vector_dim == self@.vector_dim && new_batch_size == self@.batch_size {
                result matches Ok(plan) && plan is None
            } else {
                &&& result matches Ok(Some(plan))
                &&& plan.batch_size == new_batch_size
                &&& plan.vector_dim == new_vector_dim
                &&& plan.buffers@ == self@.replacements(new_batch_size, new_vector_dim)
            },
    {
        if new_batch_size == 0 {
            return Err(PipelineError::ZeroBatchSize);
        }
        if new_vector_dim == 0 {
            return Err(PipelineError::ZeroVectorDim);
        }
        if new_vector_dim == self.vector_dim && new_batch_size == self.batch_size {
            return Ok(None);
        }
        let buffers = self.replacements(new_batch_size, new_vector_dim);
        Ok(Some(ResizePlan { batch_size: new_batch_size, vector_dim: new_vector_dim, buffers }))
    }

    /// Whether the data in every buffer can be addressed as vectors of
    /// `vector_dim` scalars.
    pub fn metadata_fits(&self, vector_dim: usize) -> (fits: bool)
        requires
            self.wf(),
        ensures
            size::vector_bytes(vector_dim) <= usize::MAX ==> fits == self@.metadata_fits(
                vector_dim,
            ),
    {
        let mut i: usize = 0;
        while i < self.buffer_submission_metadata.len()
            invariant
                i <= self.buffer_submission_metadata@.len(),
                forall|b: int|
                    0 <= b < i ==> (#[trigger] self@.metadata[b] matches Some(s)
                        ==> size::batch_bytes(s.elements, vector_dim) <= usize::MAX),
            decreases self.buffer_submission_metadata@.len() - i,
        {
            if let Some(known) = self.buffer_submission_metadata[i] {
                if !batch_fits(known.elements, vector_dim) {
                    assert(self@.metadata[i as int] == Some(known));
                    return false;
                }
            }
            i = i + 1;
        }
        true
    }

    /// Records that the buffers hold `new_batch_size` vectors of
    /// `new_vector_dim` scalars. Stages that want to know are told a new batch
    /// size first, whether or not they take it, and then both sizes in turn,
    /// until one does not take them.
    pub fn complete_resize_with_stages(
        &mut self,
        new_batch_size: usize,
        new_vector_dim: usize,
    ) -> (result: Result<(), PipelineError>)
        requires
            old(self).wf(),
            new_batch_size >= 1,
            new_vector_dim >= 1,
            size::vector_bytes(new_vector_dim) <= usize::MAX,
            size::batch_bytes(new_batch_size, new_vector_dim) <= usize::MAX,
            size::batch_bytes(new_batch_size, old(self)@.vector_dim) <= usize::MAX,
            old(self)@.metadata_fits(new_vector_dim),
        ensures
            final(self).wf(),
            final(self)@ == old(self)@.resized_with_stages(new_batch_size, new_vector_dim),
            exists|between: Seq<StageConfig<T>>|
                (if new_batch_size == old(self)@.batch_size {
                    between == old(self).stages()
                } else {
                    pipeline_stage::told_sizes(
                        old(self).stages(),
                        between,
                        new_batch_size,
                        old(self)@.vector_dim,
                    )
                }) && #[trigger] pipeline_stage::told_sizes_in_turn(
                    between,
                    final(self).stages(),
                    new_batch_size,
                    new_vector_dim,
                    result,
                ),
    {
        if new_batch_size != self.batch_size {
            self.complete_resize(new_batch_size);
        }
        if new_vector_dim != self.vector_dim {
            self.vector_dim = new_vector_dim;
            self.default_n = new_batch_size;
            self.clear_bind_groups();
        }
        assert(self@ == old(self)@.resized_with_stages(new_batch_size, new_vector_dim)) by {
            assert(self@.bind_groups =~= old(self)@.resized_with_stages(
                new_batch_size,
                new_vector_dim,
            ).bind_groups);
        }
        self.tell_sizes_in_turn(new_batch_size, new_vector_dim)
    }

    /// Tells every stage that wants to know the sizes of the buffers, until
    /// one does not take them.
    fn tell_sizes_in_turn(&mut self, batch_size: usize, vector_dim: usize) -> (result: Result<
        (),
        PipelineError,
    >)
        ensures
            final(self)@ == old(self)@,
            pipeline_stage::told_sizes_in_turn(
                old(self).stages(),
                final(self).stages(),
                batch_size,
                vector_dim,
                result,
            ),
    {
        let ghost notice = Notice::Resize { batch_size, vector_dim };
        let ghost before_all = old(self).stages();
        let ghost mut flags: Seq<bool> = Seq::new(before_all.len(), |j: int| false);
        let mut i: usize = 0;
        while i < self.stage_configs.len()
            invariant
                i <= self.stages().len() == before_all.len() == flags.len(),
                before_all == old(self).stages(),
                notice == (Notice::Resize { batch_size, vector_dim }),
                self@ == old(self)@,
                forall|j: int| 0 <= j < i ==> before_all[j].asks_resizing(#[trigger] flags[j]),
                forall|j: int|
                    0 <= j < i ==> if flags[j] {
                        (#[trigger] self.stages()[j]).told(&before_all[j], notice, Ok(()))
                    } else {
                        self.stages()[j] == before_all[j]
                    },
                forall|j: int|
                    i <= j < self.stages().len() ==> (#[trigger] self.stages()[j])
                        == before_all[j],
            decreases self.stages().len() - i,
        {
            let ghost before = *self;
            let supported = self.stage_configs[i].supports_dynamic_resizing();
            proof {
                flags = flags.update(i as int, supported);
            }
            if supported {
                let result = self.stage_configs[i].resize(batch_size, vector_dim);
                proof {
                    self.stages()[i as int].lemma_told(&before.stages()[i as int], notice, result);
                    self.lemma_same_state(&before);
                    assert(result is Ok ==> result == Ok::<(), PipelineError>(()));
                }
                if let Err(e) = result {
                    proof {
                        assert(pipeline_stage::told_until(
                            before_all,
                            self.stages(),
                            flags,
                            i as int,
                            notice,
                            result,
                        ));
                    }
                    return Err(e);
                }
            }
            i = i + 1;
        }
        proof {
            assert(pipeline_stage::told_until(
                before_all,
                self.stages(),
                flags,
                before_all.len() as int,
                notice,
                Ok(()),
            ));
        }
        Ok(())
    }

    /// Updates the FFT size (n) parameter for all custom stages, until one
    /// does not take it.
    ///
    /// This is used when the pipeline's FFT size changes without rebuilding.
    pub fn update_stage_n(&mut self, new_n: usize) -> (result: Result<(), PipelineError>)
        requires
            old(self).wf(),
        ensures
            final(self).wf(),
            final(self)@ == old(self)@,
            result matches Err(e) ==> e is Stage,
            pipeline_stage::told_in_turn(
                old(self).stages(),
                final(self).stages(),
                pipeline_stage::custom(old(self).stages()),
                Notice::N { n: new_n },
                result,
            ),
    {
        let ghost notice = Notice::N { n: new_n };
        let ghost before_all = old(self).stages();
        let ghost flags = pipeline_stage::custom(before_all);
        let mut i: usize = 0;
        while i < self.stage_configs.len()
            invariant
                i <= self.stages().len() == before_all.len(),
                before_all == old(self).stages(),
                flags == pipeline_stage::custom(before_all),
                notice == (Notice::N { n: new_n }),
                old(self).wf(),
                self@ == old(self)@,
                forall|j: int|
                    0 <= j < i ==> if flags[j] {
                        (#[trigger] self.stages()[j]).told(&before_all[j], notice, Ok(()))
                    } else {
                        self.stages()[j] == before_all[j]
                    },
                forall|j: int|
                    i <= j < self.stages().len() ==> (#[trigger] self.stages()[j])
                        == before_all[j],
            decreases self.stages().len() - i,
        {
            let ghost before = *self;
            let result = self.stage_configs[i].update_n(new_n);
            proof {
                self.stages()[i as int].lemma_told(&before.stages()[i as int], notice, result);
                self.lemma_same_state(&before);
                assert(result is Ok ==> result == Ok::<(), PipelineError>(()));
            }
            if let Err(e) = result {
                proof {
                    assert(pipeline_stage::told_until(
                        before_all,
                        self.stages(),
                        flags,
                        i as int,
                        notice,
                        result,
                    ));
                }
                return Err(e);
            }
            i = i + 1;
        }
        proof {
            assert(pipeline_stage::told_until(
                before_all,
                self.stages(),
                flags,
                before_all.len() as int,
                notice,
                Ok(()),
            ));
        }
        Ok(())
    }

    /// Initializes the custom stages that say that they require it with
    /// `context`, until one fails. The answers of the stages decide which ones
    /// are initialized.
    pub fn initialize_stages(&mut self, context: &ComputeContext) -> (result: Result<
        (),
        PipelineError,
    >)
        requires
            old(self).wf(),
        ensures
            final(self).wf(),
            final(self)@ == old(self)@,
            result matches Err(e) ==> e is Stage,
            pipeline_stage::initialized_in_turn(
                old(self).stages(),
                final(self).stages(),
                context,
                result,
            ),
    {
        let ghost notice = Notice::Initialize;
        let ghost before_all = old(self).stages();
        let ghost mut required: Seq<bool> = Seq::new(before_all.len(), |j: int| false);
        let mut i: usize = 0;
        while i < self.stage_configs.len()
            invariant
                i <= self.stages().len() == before_all.len() == required.len(),
                before_all == old(self).stages(),
                notice == Notice::Initialize,
                old(self).wf(),
                self@ == old(self)@,
                forall|j: int|
                    0 <= j < i ==> before_all[j].asks_initialization(#[trigger] required[j]),
                forall|j: int|
                    0 <= j < i && #[trigger] required[j] ==> before_all[j].initialized(
                        context,
                        Ok(()),
                    ),
                forall|j: int|
                    0 <= j < i ==> if required[j] {
                        (#[trigger] self.stages()[j]).told(&before_all[j], notice, Ok(()))
                    } else {
                        self.stages()[j] == before_all[j]
                    },
                forall|j: int|
                    i <= j < self.stages().len() ==> (#[trigger] self.stages()[j])
                        == before_all[j],
            decreases self.stages().len() - i,
        {
            let ghost before = *self;
            let result = self.stage_configs[i].initialize(context);
            proof {
                let was = before.stages()[i as int];
                let now = self.stages()[i as int];
                let answer = choose|answer: bool|
                    #[trigger] was.asks_initialization(answer) && if answer {
                        now.told(&was, notice, result) && was.initialized(context, result)
                    } else {
                        now == was && result is Ok
                    };
                if answer {
                    now.lemma_told(&was, notice, result);
                }
                self.lemma_same_state(&before);
                required = required.update(i as int, answer);
                assert(result is Ok ==> result == Ok::<(), PipelineError>(()));
            }
            if let Err(e) = result {
                proof {
                    assert(pipeline_stage::told_until(
                        before_all,
                        self.stages(),
                        required,
                        i as int,
                        notice,
                        result,
                    ));
                }
                return Err(e);
            }
            i = i + 1;
        }
        proof {
            assert(pipeline_stage::told_until(
                before_all,
                self.stages(),
                required,
                before_all.len() as int,
                notice,
                Ok(()),
            ));
        }
        Ok(())
    }

    /// Adds a side input buffer to the pipeline.
    ///
    /// Side inputs are buffers that are bound to stages but are not part of the
    /// pipeline's data flow. They are useful for operations like multiplication
    /// where a stage needs access to a constant buffer (e.g., pre-computed FFT).
    /// Returns the index by which the side input can be referenced: where its
    /// name is new, it comes last, and otherwise it takes the place of the side
    /// input that had the name.
    pub fn add_side_input<N: Into<String>>(&mut self, name: N, buffer: Arc<wgpu::Buffer>) -> (index:
        usize)
        requires
            old(self).wf(),
        ensures
            final(self).wf(),
            exists|name_str: String|
                #[trigger] call_ensures(N::into, (name,), name_str) && index == side_inputs::place(
                    old(self)@.side_inputs,
                    name_str@,
                ) && final(self)@ == (PipelineState {
                    side_inputs: side_inputs::inserted(
                        old(self)@.side_inputs,
                        name_str@,
                        buffer,
                    ),
                    ..old(self)@
                }),
            final(self).stages() == old(self).stages(),
    {
        let name_str: String = name.into();
        self.side_inputs.insert(name_str, buffer)
    }

    /// Gets a side input buffer by name.
    pub fn get_side_input(&self, name: &str) -> (buffer: Option<&Arc<wgpu::Buffer>>)
        requires
            self.wf(),
        ensures
            match side_inputs::position(self@.side_inputs, name@) {
                Some(i) => buffer == Some(&self@.side_inputs[i].1),
                None => buffer is None,
            },
    {
        self.side_inputs.get(name)
    }

    /// Gets the index of a side input by name.
    pub fn get_side_input_index(&self, name: &str) -> (index: Option<usize>)
        requires
            self.wf(),
        ensures
            match side_inputs::position(self@.side_inputs, name@) {
                Some(i) => index == Some(i as usize) && 0 <= i < self@.side_inputs.len(),
                None => index is None,
            },
    {
        self.side_inputs.index_of(name)
    }

    /// All side inputs, as custom stages get them.
    pub fn side_inputs(&self) -> (inputs: &SideInputs<Arc<wgpu::Buffer>>)
        requires
            self.wf(),
        ensures
            inputs.wf(),
            inputs@ == self@.side_inputs,
    {
        &self.side_inputs
    }

    /// The entries of a bind group of stage `stage_idx`: the one that reads
    /// the member `input_buffer_variant` of the input pair and writes the
    /// member `output_state` of the output pair.
    pub fn create_bind_group_for_stage(
        &self,
        stage_idx: usize,
        input_buffer_variant: usize,
        output_state: usize,
    ) -> (entries: Vec<BindingEntry>)
        requires
            self.wf(),
            stage_idx < self@.num_stages(),
            input_buffer_variant <= 1,
            output_state <= 1,
        ensures
            entries@ == self@.bind_group(stage_idx as int, input_buffer_variant, output_state),
    {
        let input_buffer_idx: usize = 2 * stage_idx + input_buffer_variant;
        let output_buffer_idx: usize = 2 * stage_idx + 2 + output_state;
        let bindings: Vec<u32> = match &self.stage_configs[stage_idx] {
            StageConfig::Standard { stage, .. } => stage.bindings(),
            StageConfig::Custom { .. } => default_bindings(),
        };
        assert(self@.kinds[stage_idx as int] == self.stage_configs@[stage_idx as int].kind());
        bind_entries(&bindings, input_buffer_idx, output_buffer_idx)
    }

    /// The configuration of a stage.
    pub fn stage_config(&self, stage_idx: usize) -> (config: &StageConfig<T>)
        requires
            self.wf(),
            stage_idx < self@.num_stages(),
        ensures
            *config == self.stages()[stage_idx as int],
            config.spec_tag() == self@.tags[stage_idx as int],
            config.kind() == self@.kinds[stage_idx as int],
    {
        &self.stage_configs[stage_idx]
    }

    /// How many stages the pipeline has.
    pub fn num_stages(&self) -> (count: usize)
        ensures
            count == self@.num_stages(),
    {
        self.stage_configs.len()
    }

    /// Scalars in a vector.
    pub fn vector_dim(&self) -> (dim: usize)
        ensures
            dim == self@.vector_dim,
    {
        self.vector_dim
    }

    /// Vectors that a buffer holds.
    pub fn batch_size(&self) -> (size: usize)
        ensures
            size == self@.batch_size,
    {
        self.batch_size
    }

    /// Completed ticks.
    pub fn tick_count(&self) -> (count: u64)
        ensures
            count == self@.tick_count,
    {
        self.tick_count
    }

    /// A pipeline of these stages before its first tick.
    pub(crate) fn assemble(
        stage_configs: Vec<StageConfig<T>>,
        vector_dim: usize,
        batch_size: usize,
    ) -> (pipeline: Self)
        requires
            stage_configs@.len() >= 1,
            2 + 2 * stage_configs@.len() <= usize::MAX,
            batch_size >= 1,
            vector_dim >= 1,
            size::vector_bytes(vector_dim) <= usize::MAX,
            size::batch_bytes(batch_size, vector_dim) <= usize::MAX,
        ensures
            pipeline.wf(),
            pipeline.stages() == stage_configs@,
            pipeline@ == PipelineState::initial(stage_configs@, vector_dim, batch_size),
    {
        let num_stages: usize = stage_configs.len();
        let mut buffer_submission_metadata: Vec<Option<Submission>> = Vec::new();
        buffer_submission_metadata.push(None);
        buffer_submission_metadata.push(None);
        let mut bind_groups: Vec<bool> = Vec::new();
        let mut i: usize = 0;
        while i < num_stages
            invariant
                i <= num_stages,
                buffer_submission_metadata@.len() == 2 + 2 * i,
                forall|b: int|
                    0 <= b < buffer_submission_metadata@.len()
                        ==> buffer_submission_metadata@[b] is None,
                bind_groups@.len() == i,
                forall|j: int| 0 <= j < i ==> bind_groups@[j] == false,
            decreases num_stages - i,
        {
            buffer_submission_metadata.push(None);
            buffer_submission_metadata.push(None);
            bind_groups.push(false);
            i = i + 1;
        }
        let pipeline = Pipeline {
            vector_dim,
            batch_size,
            tick_count: 0,
            current_set: 0,
            default_n: batch_size,
            stage_configs,
            bind_groups,
            buffer_submission_metadata,
            side_inputs: SideInputs::new(),
        };
        proof {
            let initial = PipelineState::initial(stage_configs@, vector_dim, batch_size);
            assert(pipeline@.bind_groups =~= initial.bind_groups);
            assert(pipeline@.metadata =~= initial.metadata);
            assert(pipeline@.tags =~= initial.tags);
            assert(pipeline@.kinds =~= initial.kinds);
        }
        pipeline
    }
}

} // verus!
