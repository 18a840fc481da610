//! What a pipeline asks of the device.
//!
//! A pipeline decides which buffers a stage reads and writes, how large they
//! are and when they are reallocated. It hands these decisions out as values
//! of the types below; whoever holds the device carries them out.

use vstd::prelude::*;

verus! {

/// What is known of the data in a buffer.
#[derive(Clone, Copy, Debug, PartialEq, Eq, Structural)]
pub struct Submission {
    /// How many vectors the data consists of.
    pub elements: usize,
    /// The transform size that the data was submitted with.
    pub n: usize,
    /// The batch size that the data was submitted with.
    pub batch_size: usize,
}

/// How a stage does its work.
#[derive(Clone, Copy, Debug, PartialEq, Eq, Structural)]
pub enum StageWork {
    /// Dispatch the stage's compute pipeline with one of its bind groups.
    Dispatch {
        /// Which of the two input buffers the bind group reads.
        input_variant: usize,
        /// Which of the two output buffers the bind group writes.
        output_state: usize,
        /// How many workgroups to dispatch.
        groups: u32,
        /// Whether the stage's bind groups have to be created first.
        create_bind_groups: bool,
    },
    /// Let the custom stage encode its own commands.
    Encode,
}

/// The work of one stage in one tick.
#[derive(Clone, Copy, Debug, PartialEq, Eq, Structural)]
pub struct StagePass {
    /// The stage.
    pub stage: usize,
    /// Index of the buffer that the stage reads.
    pub input: usize,
    /// Index of the buffer that the stage writes.
    pub output: usize,
    /// How many vectors the stage is told to work on.
    pub elements: usize,
    /// The transform size that the stage is told.
    pub n: usize,
    /// How the work is done.
    pub work: StageWork,
}

/// One entry of a bind group: a binding of the shader and the buffer behind it.
#[derive(Clone, Copy, Debug, PartialEq, Eq, Structural)]
pub struct BindingEntry {
    /// Number of the binding in the shader.
    pub binding: u32,
    /// Index of the buffer that is bound as a whole.
    pub buffer: usize,
}

/// One entry of a bind group layout: a storage buffer for compute shaders,
/// without dynamic offset, minimum size or array count.
#[derive(Clone, Copy, Debug, PartialEq, Eq, Structural)]
pub struct StorageBinding {
    /// Number of the binding in the shader.
    pub binding: u32,
    /// Whether shaders may only read the buffer.
    pub read_only: bool,
}

/// The replacement of one buffer by one of another size.
#[derive(Clone, Copy, Debug, PartialEq, Eq, Structural)]
pub struct BufferResize {
    /// Index of the buffer.
    pub index: usize,
    /// Size of the new buffer in bytes.
    pub new_size: u64,
    /// How many bytes to copy from the start of the old buffer to the start
    /// of the new one; nothing is copied where this is zero.
    pub copy_size: u64,
}

/// A write of input data to the start of a buffer.
#[derive(Clone, Copy, Debug, PartialEq, Eq, Structural)]
pub struct InputWrite {
    /// Index of the buffer.
    pub buffer: usize,
    /// How many bytes the data has.
    pub bytes: usize,
}

/// A copy of a buffer's first bytes to the host.
#[derive(Clone, Copy, Debug, PartialEq, Eq, Structural)]
pub struct Readback {
    /// Index of the buffer.
    pub buffer: usize,
    /// How many bytes to copy.
    pub bytes: u64,
    /// How many scalars these bytes hold.
    pub scalars: usize,
}

/// Number of shader invocations in a workgroup.
pub const WORKGROUP_SIZE: u32 = 64;

/// How many workgroups cover `invocations` invocations, of which the device
/// counts the low 32 bits.
pub open spec fn workgroups(invocations: nat) -> nat {
    ((invocations % 0x1_0000_0000) + 63) / 64
}

/// The workgroups that cover `invocations` invocations.
pub fn workgroup_count(invocations: usize) -> (groups: u32)
    ensures
        groups == workgroups(invocations as nat),
{
    let wide: u64 = invocations as u64;
    let low: u32 = (wide % 0x1_0000_0000) as u32;
    let whole: u32 = low / WORKGROUP_SIZE;
    if low % WORKGROUP_SIZE > 0 {
        whole + 1
    } else {
        whole
    }
}

/// The entries of a bind group with these bindings: the one with the largest
/// number is the output, and all others are the input. In which order the
/// bindings are listed does not matter.
pub open spec fn bound(bindings: Seq<u32>, input: usize, output: usize) -> Seq<BindingEntry> {
    Seq::new(
        bindings.len(),
        |k: int|
            BindingEntry {
                binding: bindings[k],
                buffer: if exists|j: int|
                    0 <= j < bindings.len() && bindings[k] < #[trigger] bindings[j] {
                    input
                } else {
                    output
                },
            },
    )
}

/// The largest number of a binding, 0 where there is none.
fn largest_binding(bindings: &Vec<u32>) -> (largest: u32)
    ensures
        forall|j: int| 0 <= j < bindings@.len() ==> (#[trigger] bindings@[j]) <= largest,
        bindings@.len() > 0 ==> bindings@.contains(largest),
{
    let mut largest: u32 = 0;
    let mut k: usize = 0;
    while k < bindings.len()
        invariant
            k <= bindings@.len(),
            forall|j: int| 0 <= j < k ==> (#[trigger] bindings@[j]) <= largest,
            k > 0 ==> bindings@.contains(largest),
        decreases bindings@.len() - k,
    {
        if k == 0 || bindings[k] > largest {
            largest = bindings[k];
        }
        k = k + 1;
    }
    largest
}

/// The entries of a bind group with these bindings.
pub fn bind_entries(bindings: &Vec<u32>, input: usize, output: usize) -> (entries: Vec<BindingEntry>)
    ensures
        entries@ == bound(bindings@, input, output),
{
    let largest: u32 = largest_binding(bindings);
    let mut entries: Vec<BindingEntry> = Vec::new();
    let mut k: usize = 0;
    while k < bindings.len()
        invariant
            k <= bindings@.len(),
            forall|j: int| 0 <= j < bindings@.len() ==> (#[trigger] bindings@[j]) <= largest,
            bindings@.len() > 0 ==> bindings@.contains(largest),
            entries@ =~= bound(bindings@, input, output).take(k as int),
        decreases bindings@.len() - k,
    {
        let buffer: usize = if bindings[k] < largest {
            input
        } else {
            output
        };
        entries.push(BindingEntry { binding: bindings[k], buffer });
        k = k + 1;
    }
    entries
}

/// The bindings of a stage that brings no layout of its own: the input,
/// which shaders may only read, at binding 0, and the output at binding 1.
pub open spec fn default_layout() -> Seq<StorageBinding> {
    seq![
        (StorageBinding { binding: 0, read_only: true }),
        (StorageBinding { binding: 1, read_only: false }),
    ]
}

/// The numbers of the bindings of a stage that brings no layout of its own.
pub fn default_bindings() -> (bindings: Vec<u32>)
    ensures
        bindings@ == seq![0u32, 1u32],
{
    let mut bindings: Vec<u32> = Vec::new();
    bindings.push(0);
    bindings.push(1);
    bindings
}

/// The layout of a stage that brings none of its own.
pub fn create_bind_group_layout() -> (entries: Vec<StorageBinding>)
    ensures
        entries@ == default_layout(),
{
    let mut entries: Vec<StorageBinding> = Vec::new();
    entries.push(StorageBinding { binding: 0, read_only: true });
    entries.push(StorageBinding { binding: 1, read_only: false });
    entries
}

} // verus!
