//! The state of a pipeline with one size per stage as a mathematical value,
//! and what each request makes of it.

use std::sync::Arc;

use vstd::prelude::*;

use crate::error::PipelineError;
use crate::pipeline::pipeline_stage::StageKind;
use crate::pipeline::size;
use crate::pipeline::state;
use crate::plan;
use crate::plan::{BindingEntry, BufferResize, Readback, StagePass, StageWork, Submission};

verus! {

/// Everything about a pipeline with one size per stage that its requests
/// depend on.
///
/// Pair 0 of the buffers is the input pair, and pair `i + 1` is the output
/// pair of stage `i`; pair `p` has the buffers `2 * p` and `2 * p + 1`.
pub struct VariableState<T> {
    /// Scalars in a vector.
    pub vector_dim: usize,
    /// Vectors that the output buffers of each stage are to hold.
    pub output_batch_sizes: Seq<usize>,
    /// Bytes of each buffer.
    pub buffer_sizes: Seq<u64>,
    /// Completed ticks.
    pub tick_count: u64,
    /// Which member of its output pair each stage writes, 0 or 1.
    pub output_index: usize,
    /// Which member of the input pair is written next, 0 or 1.
    pub input_write_index: usize,
    /// Transform size of data that came without one.
    pub default_n: usize,
    /// The tag of the data in each stage.
    pub tags: Seq<Option<T>>,
    /// The tag of the tick that began last.
    pub last_output_tag: Option<T>,
    /// The kind of each stage.
    pub kinds: Seq<StageKind>,
    /// Whether the bind groups of each stage exist.
    pub bind_groups: Seq<bool>,
    /// What is known of the data in each buffer.
    pub metadata: Seq<Option<Submission>>,
    /// The side inputs.
    pub side_inputs: Seq<(Seq<char>, Arc<wgpu::Buffer>)>,
}

/// The stage whose size a pair of buffers has: pair `i + 1` that of stage `i`,
/// and the input pair that of the first stage.
pub open spec fn stage_of_pair(pair: int) -> int {
    if pair == 0 {
        0
    } else {
        pair - 1
    }
}

impl<T> VariableState<T> {
    /// How many stages the pipeline has.
    pub open spec fn num_stages(self) -> nat {
        self.tags.len()
    }

    /// What holds of every pipeline between two requests.
    pub open spec fn wf(self) -> bool {
        &&& self.tags.len() >= 1
        &&& self.output_batch_sizes.len() == self.tags.len()
        &&& self.kinds.len() == self.tags.len()
        &&& self.bind_groups.len() == self.tags.len()
        &&& self.buffer_sizes.len() == 2 + 2 * self.tags.len() <= usize::MAX
        &&& self.metadata.len() == self.buffer_sizes.len()
        &&& self.output_index == 0 || self.output_index == 1
        &&& self.input_write_index == 0 || self.input_write_index == 1
        &&& self.side_inputs.len() == 0
        &&& size::vector_bytes(self.vector_dim) <= usize::MAX
        &&& forall|i: int|
            0 <= i < self.output_batch_sizes.len() ==> size::batch_bytes(
                #[trigger] self.output_batch_sizes[i],
                self.vector_dim,
            ) <= usize::MAX
        &&& forall|b: int|
            0 <= b < self.buffer_sizes.len() ==> (#[trigger] self.buffer_sizes[b]) <= usize::MAX
    }

    /// Bytes that the output buffers of stage `i` are to have.
    pub open spec fn stage_bytes(self, i: int) -> nat {
        size::batch_bytes(self.output_batch_sizes[i], self.vector_dim)
    }

    // ---- input ----

    /// Why `bytes` bytes of input are refused, if they are: more than the first
    /// stage has room for, more than the buffer has that is written next, or
    /// not whole vectors.
    pub open spec fn input_error(self, bytes: nat) -> Option<PipelineError> {
        let buffer_bytes = self.buffer_sizes[self.input_write_index as int];
        if bytes > self.stage_bytes(0) {
            Some(
                PipelineError::InputTooLarge {
                    bytes: bytes as usize,
                    capacity: self.stage_bytes(0) as usize,
                },
            )
        } else if bytes > buffer_bytes {
            Some(
                PipelineError::InputTooLarge {
                    bytes: bytes as usize,
                    capacity: buffer_bytes as usize,
                },
            )
        } else if self.vector_dim > 0 && bytes % size::vector_bytes(self.vector_dim) != 0 {
            Some(
                PipelineError::PartialVector {
                    bytes: bytes as usize,
                    element_size: size::vector_bytes(self.vector_dim) as usize,
                    vector_dim: self.vector_dim,
                },
            )
        } else {
            None
        }
    }

    // ---- a tick ----

    /// The state after the input was written to the member of the input pair
    /// whose turn it was.
    pub open spec fn accept(self) -> VariableState<T> {
        VariableState { input_write_index: (1 - self.input_write_index) as usize, ..self }
    }

    /// The state after every tag moved on by one stage and `first` entered,
    /// in a tick with the tag `tag`.
    pub open spec fn forward(self, first: T, tag: T) -> VariableState<T> {
        VariableState {
            tags: seq![Some(first)] + self.tags.drop_last(),
            last_output_tag: Some(tag),
            ..self
        }
    }

    /// Index of the buffer that stage `i` reads: for the first stage the input
    /// that was written last, for the others what the stage before wrote in
    /// the tick before.
    pub open spec fn input_of(self, i: int) -> int {
        if i == 0 {
            1 - self.input_write_index
        } else {
            2 * i + (1 - self.output_index)
        }
    }

    /// Index of the buffer that stage `i` writes.
    pub open spec fn output_of(self, i: int) -> int {
        2 * i + 2 + self.output_index
    }

    /// What stage `i` does in this tick.
    pub open spec fn pass(self, i: int) -> StagePass {
        let known = self.metadata[self.input_of(i)];
        StagePass {
            stage: i as usize,
            input: self.input_of(i) as usize,
            output: self.output_of(i) as usize,
            elements: match known {
                Some(s) => s.elements,
                None => self.output_batch_sizes[i],
            },
            n: match known {
                Some(s) => s.n,
                None => self.default_n,
            },
            work: match self.kinds[i] {
                StageKind::Standard { .. } => StageWork::Dispatch {
                    input_variant: (self.input_of(i) - 2 * i) as usize,
                    output_state: self.output_index,
                    groups: plan::workgroups(
                        (self.output_batch_sizes[i] * self.vector_dim) as nat,
                    ) as u32,
                    create_bind_groups: !self.bind_groups[i],
                },
                StageKind::Custom => StageWork::Encode,
            },
        }
    }

    /// The state after the work of stage `i` was encoded.
    pub open spec fn encoded(self, i: int) -> VariableState<T> {
        VariableState {
            metadata: self.metadata.update(self.output_of(i), self.metadata[self.input_of(i)]),
            bind_groups: self.bind_groups.update(
                i,
                self.bind_groups[i] || self.kinds[i] is Standard,
            ),
            ..self
        }
    }

    /// The state after the first `k` stages did their work.
    pub open spec fn stages_done(self, k: nat) -> VariableState<T>
        decreases k,
    {
        if k == 0 {
            self
        } else {
            self.stages_done((k - 1) as nat).encoded(k - 1)
        }
    }

    /// The state after every stage exchanged the roles of its output buffers.
    pub open spec fn flip(self) -> VariableState<T> {
        VariableState { output_index: (1 - self.output_index) as usize, ..self }
    }

    /// The state after a tick was completed.
    pub open spec fn complete(self) -> VariableState<T> {
        VariableState {
            output_index: (1 - self.output_index) as usize,
            tick_count: (self.tick_count + 1) as u64,
            ..self
        }
    }

    // ---- output ----

    /// Index of the buffer that the last stage wrote in the tick before.
    pub open spec fn finished_output(self) -> int {
        2 * self.tags.len() + (1 - self.output_index)
    }

    /// What to copy to the host to get the output: all of that buffer.
    pub open spec fn readback(self) -> Readback {
        let b = self.finished_output();
        Readback {
            buffer: b as usize,
            bytes: self.buffer_sizes[b],
            scalars: (self.buffer_sizes[b] / 4) as usize,
        }
    }

    // ---- bind groups ----

    /// The bind group of stage `i` that reads the member `variant` of its
    /// input pair and writes the member `state` of its output pair: the
    /// bindings of the stage's layout, of which the one with the largest number
    /// is the output.
    pub open spec fn bind_group(self, i: int, variant: usize, state: usize) -> Seq<BindingEntry> {
        plan::bound(
            state::bindings_of(self.kinds[i]),
            (2 * i + variant) as usize,
            (2 * i + 2 + state) as usize,
        )
    }

    // ---- sizes ----

    /// Index of the buffer of a pair that is not written next.
    pub open spec fn resting_buffer(self, pair: int) -> int {
        if pair == 0 {
            1 - self.input_write_index
        } else {
            2 * pair + (1 - self.output_index)
        }
    }

    /// How buffer `b` is replaced so that it holds `batch_size` vectors.
    pub open spec fn replacement(self, b: int, batch_size: usize) -> BufferResize {
        BufferResize {
            index: b as usize,
            new_size: size::batch_bytes(batch_size, self.vector_dim) as u64,
            copy_size: size::smaller(
                self.buffer_sizes[b] as nat,
                size::batch_bytes(batch_size, self.vector_dim),
            ) as u64,
        }
    }

    /// The state after buffer `b` was replaced. What was known of its data is
    /// forgotten.
    pub open spec fn replaced(self, b: int, batch_size: usize) -> VariableState<T> {
        VariableState {
            buffer_sizes: self.buffer_sizes.update(
                b,
                size::batch_bytes(batch_size, self.vector_dim) as u64,
            ),
            metadata: self.metadata.update(b, None),
            ..self
        }
    }

    /// The state after the stage that a pair belongs to got another size.
    pub open spec fn sized(self, pair: int, batch_size: usize) -> VariableState<T> {
        VariableState {
            output_batch_sizes: self.output_batch_sizes.update(stage_of_pair(pair), batch_size),
            ..self
        }
    }

    /// The state after the buffer of a pair that is not written next was
    /// replaced: the stage has its size, and bind groups are void.
    pub open spec fn resized(self, pair: int, batch_size: usize) -> VariableState<T> {
        self.sized(pair, batch_size).replaced(self.resting_buffer(pair), batch_size).unbound(pair)
    }

    /// The state after both buffers of a pair were replaced: the stage has
    /// their size, and bind groups are void.
    pub open spec fn resized_both(self, pair: int, batch_size: usize) -> VariableState<T> {
        self.sized(pair, batch_size).replaced(2 * pair, batch_size).replaced(
            2 * pair + 1,
            batch_size,
        ).unbound(pair)
    }

    /// The state after the bind groups were made void from the stage on that
    /// a pair belongs to.
    pub open spec fn unbound(self, pair: int) -> VariableState<T> {
        VariableState {
            bind_groups: Seq::new(
                self.bind_groups.len(),
                |i: int| i < stage_of_pair(pair) && self.bind_groups[i],
            ),
            ..self
        }
    }
}

} // verus!
