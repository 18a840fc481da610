//! The state of a pipeline as a mathematical value, and what each request
//! makes of it.

use std::sync::Arc;

use vstd::prelude::*;

use crate::error::PipelineError;
use crate::pipeline::pipeline_stage::{StageConfig, StageKind};
use crate::pipeline::size;
use crate::plan;
use crate::plan::{BindingEntry, BufferResize, InputWrite, Readback, StagePass, StageWork, Submission};
use crate::side_inputs;

verus! {

/// Everything about a pipeline that its requests depend on.
///
/// A pipeline of `n` stages has `2 + 2 * n` buffers: the input pair, then one
/// output pair for each stage. The input pair of a stage is the output pair
/// of the stage before it, so stage `i` reads from the pair at `2 * i` and
/// writes to the pair at `2 * i + 2`. All stages read the member `current_set`
/// of their input pair, and write the other member of their output pair.
pub struct PipelineState<T> {
    /// Scalars in a vector.
    pub vector_dim: usize,
    /// Vectors that a buffer holds.
    pub batch_size: usize,
    /// Completed ticks.
    pub tick_count: u64,
    /// Which member of each pair the stages read, 0 or 1.
    pub current_set: usize,
    /// Transform size of data that came without one.
    pub default_n: usize,
    /// The tag of the data in each stage.
    pub tags: Seq<Option<T>>,
    /// The kind of each stage.
    pub kinds: Seq<StageKind>,
    /// Whether the bind groups of each stage exist.
    pub bind_groups: Seq<bool>,
    /// What is known of the data in each buffer.
    pub metadata: Seq<Option<Submission>>,
    /// The side inputs.
    pub side_inputs: Seq<(Seq<char>, Arc<wgpu::Buffer>)>,
}

/// The replacement of the first `count` buffers by buffers of one size.
pub open spec fn resize_all(count: nat, new_size: u64, copy_size: u64) -> Seq<BufferResize> {
    Seq::new(count, |i: int| BufferResize { index: i as usize, new_size, copy_size })
}

/// The numbers of the bindings in the layout of a stage.
pub open spec fn bindings_of(kind: StageKind) -> Seq<u32> {
    match kind {
        StageKind::Standard { stage } => stage.spec_bindings(),
        StageKind::Custom => seq![0, 1],
    }
}

impl<T> PipelineState<T> {
    /// The state of a pipeline of these stages before its first tick.
    pub open spec fn initial(
        stages: Seq<StageConfig<T>>,
        vector_dim: usize,
        batch_size: usize,
    ) -> PipelineState<T> {
        PipelineState {
            vector_dim,
            batch_size,
            tick_count: 0,
            current_set: 0,
            default_n: batch_size,
            tags: stages.map_values(|c: StageConfig<T>| c.spec_tag()),
            kinds: stages.map_values(|c: StageConfig<T>| c.kind()),
            bind_groups: Seq::new(stages.len(), |i: int| false),
            metadata: Seq::new(2 + 2 * stages.len(), |b: int| None),
            side_inputs: Seq::empty(),
        }
    }

    /// How many stages the pipeline has.
    pub open spec fn num_stages(self) -> nat {
        self.tags.len()
    }

    /// Bytes of each buffer.
    pub open spec fn buffer_bytes(self) -> nat {
        size::batch_bytes(self.batch_size, self.vector_dim)
    }

    /// What holds of every pipeline between two requests.
    pub open spec fn wf(self) -> bool {
        &&& self.tags.len() >= 1
        &&& self.kinds.len() == self.tags.len()
        &&& self.bind_groups.len() == self.tags.len()
        &&& self.metadata.len() == 2 + 2 * self.tags.len() <= usize::MAX
        &&& self.current_set == 0 || self.current_set == 1
        &&& self.batch_size >= 1
        &&& self.vector_dim >= 1
        &&& size::batch_bytes(self.batch_size, self.vector_dim) <= usize::MAX
        &&& size::vector_bytes(self.vector_dim) <= usize::MAX
        &&& self.metadata_fits(self.vector_dim)
        // Tags enter at the first stage and move on by one stage per tick.
        &&& forall|i: int|
            0 <= i < self.tick_count && i + 1 < self.tags.len() ==> (
            #[trigger] self.tags[i]) is Some
        &&& side_inputs::names_distinct(self.side_inputs)
    }

    /// Whether the data in every buffer can be addressed as vectors of
    /// `vector_dim` scalars.
    pub open spec fn metadata_fits(self, vector_dim: usize) -> bool {
        forall|b: int|
            0 <= b < self.metadata.len() ==> (#[trigger] self.metadata[b] matches Some(s)
                ==> size::batch_bytes(s.elements, vector_dim) <= usize::MAX)
    }

    /// Index of the buffer that stage `i` reads.
    pub open spec fn input_of(self, i: int) -> int {
        2 * i + self.current_set
    }

    /// Index of the buffer that stage `i` writes.
    pub open spec fn output_of(self, i: int) -> int {
        2 * i + 2 + (1 - self.current_set)
    }

    /// How many vectors the data in buffer `b` consists of.
    pub open spec fn elements_in(self, b: int) -> usize {
        match self.metadata[b] {
            Some(s) => s.elements,
            None => self.batch_size,
        }
    }

    /// The transform size of the data in buffer `b`.
    pub open spec fn n_in(self, b: int) -> usize {
        match self.metadata[b] {
            Some(s) => s.n,
            None => self.default_n,
        }
    }

    // ---- input ----

    /// Why `len` scalars of input are refused, if they are.
    pub open spec fn input_error(self, len: nat) -> Option<PipelineError> {
        if len == 0 {
            Some(PipelineError::EmptyInput)
        } else if (len * 4) % size::vector_bytes(self.vector_dim) != 0 {
            Some(
                PipelineError::PartialVector {
                    bytes: (len * 4) as usize,
                    element_size: size::vector_bytes(self.vector_dim) as usize,
                    vector_dim: self.vector_dim,
                },
            )
        } else {
            None
        }
    }

    /// How many vectors `len` scalars of accepted input are.
    pub open spec fn input_elements(self, len: nat) -> usize {
        ((len * 4) / size::vector_bytes(self.vector_dim)) as usize
    }

    /// Where accepted input is written: to the buffer that the first stage
    /// reads in this tick.
    pub open spec fn input_write(self, len: nat) -> InputWrite {
        InputWrite { buffer: self.current_set, bytes: (len * 4) as usize }
    }

    /// The state after `elements` vectors were written as input. The
    /// transform size is the one that was set for the buffer, or the default.
    pub open spec fn accept(self, elements: usize) -> PipelineState<T> {
        PipelineState {
            metadata: self.metadata.update(
                self.current_set as int,
                Some(
                    Submission {
                        elements,
                        n: self.n_in(self.current_set as int),
                        batch_size: elements,
                    },
                ),
            ),
            ..self
        }
    }

    // ---- a tick ----

    /// Whether the tick that comes next brings data out of the last stage.
    pub open spec fn output_due(self) -> bool {
        self.tick_count >= self.tags.len() - 1
    }

    /// Whether a tick began since the last one was counted: then the tag that
    /// entered first is where it has to be when the tick is counted.
    pub open spec fn ticking(self) -> bool {
        self.tick_count + 1 < self.tags.len() ==> self.tags[self.tick_count as int] is Some
    }

    /// The state after every tag moved on by one stage and `tag` entered.
    pub open spec fn forward(self, tag: T) -> PipelineState<T> {
        PipelineState { tags: seq![Some(tag)] + self.tags.drop_last(), ..self }
    }

    /// What stage `i` does in this tick.
    pub open spec fn pass(self, i: int) -> StagePass {
        let input = self.input_of(i);
        StagePass {
            stage: i as usize,
            input: input as usize,
            output: self.output_of(i) as usize,
            elements: self.elements_in(input),
            n: self.n_in(input),
            work: match self.kinds[i] {
                StageKind::Standard { .. } => StageWork::Dispatch {
                    input_variant: self.current_set,
                    output_state: (1 - self.current_set) as usize,
                    groups: plan::workgroups(
                        (self.elements_in(input) * self.vector_dim) as nat,
                    ) as u32,
                    create_bind_groups: !self.bind_groups[i],
                },
                StageKind::Custom => StageWork::Encode,
            },
        }
    }

    /// The state after the work of stage `i` was encoded: what is known of
    /// the data goes where the data goes.
    pub open spec fn encoded(self, i: int) -> PipelineState<T> {
        PipelineState {
            metadata: self.metadata.update(self.output_of(i), self.metadata[self.input_of(i)]),
            bind_groups: self.bind_groups.update(
                i,
                self.bind_groups[i] || self.kinds[i] is Standard,
            ),
            ..self
        }
    }

    /// The state after the first `k` stages did their work.
    pub open spec fn stages_done(self, k: nat) -> PipelineState<T>
        decreases k,
    {
        if k == 0 {
            self
        } else {
            self.stages_done((k - 1) as nat).encoded(k - 1)
        }
    }

    /// The state after the roles of the members of each pair were exchanged.
    pub open spec fn flip(self) -> PipelineState<T> {
        PipelineState { current_set: (1 - self.current_set) as usize, ..self }
    }

    /// The state after a tick was completed.
    pub open spec fn complete(self) -> PipelineState<T> {
        PipelineState {
            current_set: (1 - self.current_set) as usize,
            tick_count: (self.tick_count + 1) as u64,
            ..self
        }
    }

    // ---- output ----

    /// What to copy to the host from buffer `b`: the data in it, as far as
    /// the buffer reaches. Nothing where that is nothing.
    pub open spec fn readback(self, b: int) -> Option<Readback> {
        let bytes = size::smaller(
            size::batch_bytes(self.elements_in(b), self.vector_dim),
            self.buffer_bytes(),
        );
        if bytes > 0 {
            Some(
                Readback { buffer: b as usize, bytes: bytes as u64, scalars: (bytes / 4) as usize },
            )
        } else {
            None
        }
    }

    /// Index of the buffer that the last stage writes in this tick.
    pub open spec fn last_output(self) -> int {
        self.output_of(self.tags.len() - 1)
    }

    /// Index of the buffer that the last stage wrote in the tick that was
    /// completed last.
    pub open spec fn finished_output(self) -> int {
        2 * self.tags.len() + self.current_set
    }

    /// The state after the tag of the last stage was taken.
    pub open spec fn take_tag(self) -> PipelineState<T> {
        PipelineState { tags: self.tags.update(self.tags.len() - 1, None), ..self }
    }

    /// Whether data came out of the last stage and was not taken yet.
    pub open spec fn output_ready(self) -> bool {
        self.tick_count >= self.tags.len() && self.tags.last() is Some
    }

    // ---- bind groups ----

    /// The bind group of stage `i` that reads the member `variant` of its
    /// input pair and writes the member `state` of its output pair: the
    /// bindings of the stage's layout, of which the one with the largest number
    /// is the output.
    pub open spec fn bind_group(self, i: int, variant: usize, state: usize) -> Seq<BindingEntry> {
        plan::bound(
            bindings_of(self.kinds[i]),
            (2 * i + variant) as usize,
            (2 * i + 2 + state) as usize,
        )
    }

    /// Whether no stage has bind groups.
    pub open spec fn no_bind_groups(self) -> Seq<bool> {
        Seq::new(self.tags.len(), |i: int| false)
    }

    /// Metadata where nothing is known of any buffer.
    pub open spec fn no_metadata(self) -> Seq<Option<Submission>> {
        Seq::new(self.metadata.len(), |b: int| None)
    }

    // ---- sizes ----

    /// How the buffers are replaced so that they hold `batch_size` vectors of
    /// `vector_dim` scalars: all of them, each with its data as far as it fits.
    pub open spec fn replacements(self, batch_size: usize, vector_dim: usize) -> Seq<BufferResize> {
        resize_all(
            self.metadata.len(),
            size::batch_bytes(batch_size, vector_dim) as u64,
            size::smaller(self.buffer_bytes(), size::batch_bytes(batch_size, vector_dim)) as u64,
        )
    }

    /// The state after the buffers were replaced. The batch size becomes the
    /// default transform size, as it does when a pipeline is built.
    pub open spec fn replaced(self, batch_size: usize, vector_dim: usize) -> PipelineState<T> {
        PipelineState {
            batch_size,
            vector_dim,
            default_n: batch_size,
            bind_groups: self.no_bind_groups(),
            ..self
        }
    }

    /// The state after the buffers were replaced and what was known of the
    /// data in them was forgotten.
    pub open spec fn replaced_anew(self, batch_size: usize, vector_dim: usize) -> PipelineState<
        T,
    > {
        PipelineState {
            metadata: self.no_metadata(),
            ..self.replaced(batch_size, vector_dim)
        }
    }

    /// The state after the buffers were replaced for the sake of the stages
    /// too; nothing has to be replaced where the sizes stay.
    pub open spec fn resized_with_stages(
        self,
        batch_size: usize,
        vector_dim: usize,
    ) -> PipelineState<T> {
        if batch_size == self.batch_size && vector_dim == self.vector_dim {
            self
        } else {
            self.replaced(batch_size, vector_dim)
        }
    }
}

} // verus!
