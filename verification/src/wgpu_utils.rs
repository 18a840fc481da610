//! Handles to the GPU and the usages of the buffers that a pipeline allocates.

use vstd::prelude::*;

verus! {

/// `wgpu::Instance`, carried as an opaque handle.
#[verifier::external_type_specification]
#[verifier::external_body]
pub struct ExInstance(wgpu::Instance);

/// `wgpu::Adapter`, carried as an opaque handle.
#[verifier::external_type_specification]
#[verifier::external_body]
pub struct ExAdapter(wgpu::Adapter);

/// `wgpu::Device`, carried as an opaque handle.
#[verifier::external_type_specification]
#[verifier::external_body]
pub struct ExDevice(wgpu::Device);

/// `wgpu::Queue`, carried as an opaque handle.
#[verifier::external_type_specification]
#[verifier::external_body]
pub struct ExQueue(wgpu::Queue);

/// `wgpu::Buffer`, carried as an opaque handle.
#[verifier::external_type_specification]
#[verifier::external_body]
pub struct ExBuffer(wgpu::Buffer);

/// `wgpu::CommandEncoder`, handed to custom stages as an opaque handle.
#[verifier::external_type_specification]
#[verifier::external_body]
pub struct ExCommandEncoder(wgpu::CommandEncoder);

/// `wgpu::BindGroupLayoutEntry`, carried from a stage to the device; of its
/// contents only the number of the binding is read.
#[verifier::external_type_specification]
#[verifier::external_body]
pub struct ExBindGroupLayoutEntry(wgpu::BindGroupLayoutEntry);

/// The field `binding` of a layout entry.
pub uninterp spec fn entry_binding(entry: wgpu::BindGroupLayoutEntry) -> u32;

/// Reads `wgpu::BindGroupLayoutEntry::binding`, the number of the binding in
/// the shader: a public field, so the same entry always gives the same number.
#[verifier::external_body]
pub(crate) fn binding_number(entry: &wgpu::BindGroupLayoutEntry) -> (binding: u32)
    ensures
        binding == entry_binding(*entry),
{
    entry.binding
}

/// The device, its queue, and what they were requested from, for
/// compute-only work.
#[derive(Debug)]
pub struct ComputeContext {
    /// The WGPU instance
    pub instance: wgpu::Instance,
    /// The selected adapter
    pub adapter: wgpu::Adapter,
    /// The logical device
    pub device: wgpu::Device,
    /// The command queue
    pub queue: wgpu::Queue,
}

/// A set of buffer usages, as the bits of a `wgpu::BufferUsages`.
#[derive(Clone, Copy, Debug, PartialEq, Eq, Structural)]
pub struct BufferUsages {
    /// The bits, as `wgpu::BufferUsages::bits` gives them.
    pub bits: u32,
}

/// Bit of a buffer that the host may map for reading.
pub const MAP_READ_BIT: u32 = 0x01;

/// Bit of a buffer that the host may map for writing.
pub const MAP_WRITE_BIT: u32 = 0x02;

/// Bit of a buffer that copies may read.
pub const COPY_SRC_BIT: u32 = 0x04;

/// Bit of a buffer that copies and queue writes may fill.
pub const COPY_DST_BIT: u32 = 0x08;

/// Bit of a buffer that shaders may use as storage.
pub const STORAGE_BIT: u32 = 0x80;

/// The bits of `wgpu::BufferUsages::MAP_READ`: bit 0 and no other.
#[verifier::external_body]
fn map_read() -> (bits: u32)
    ensures
        bits == MAP_READ_BIT,
{
    wgpu::BufferUsages::MAP_READ.bits()
}

/// The bits of `wgpu::BufferUsages::MAP_WRITE`: bit 1 and no other.
#[verifier::external_body]
fn map_write() -> (bits: u32)
    ensures
        bits == MAP_WRITE_BIT,
{
    wgpu::BufferUsages::MAP_WRITE.bits()
}

/// The bits of `wgpu::BufferUsages::COPY_SRC`: bit 2 and no other.
#[verifier::external_body]
fn copy_src() -> (bits: u32)
    ensures
        bits == COPY_SRC_BIT,
{
    wgpu::BufferUsages::COPY_SRC.bits()
}

/// The bits of `wgpu::BufferUsages::COPY_DST`: bit 3 and no other.
#[verifier::external_body]
fn copy_dst() -> (bits: u32)
    ensures
        bits == COPY_DST_BIT,
{
    wgpu::BufferUsages::COPY_DST.bits()
}

/// The bits of `wgpu::BufferUsages::STORAGE`: bit 7 and no other.
#[verifier::external_body]
fn storage() -> (bits: u32)
    ensures
        bits == STORAGE_BIT,
{
    wgpu::BufferUsages::STORAGE.bits()
}

/// Usages of the stage buffers of a pipeline: storage for the shaders, and
/// source and destination of copies. Uniform usage is not among them.
pub fn stage_buffer_usages() -> (usages: BufferUsages)
    ensures
        usages.bits == STORAGE_BIT | COPY_SRC_BIT | COPY_DST_BIT,
        usages.bits == 0x8C,
{
    assert(0x80u32 | 0x04u32 | 0x08u32 == 0x8Cu32) by (bit_vector);
    BufferUsages { bits: storage() | copy_src() | copy_dst() }
}

/// Usages of a staging buffer, from which the host uploads to the GPU.
pub fn staging_buffer_usages() -> (usages: BufferUsages)
    ensures
        usages.bits == COPY_SRC_BIT | MAP_WRITE_BIT,
        usages.bits == 0x06,
{
    assert(0x04u32 | 0x02u32 == 0x06u32) by (bit_vector);
    BufferUsages { bits: copy_src() | map_write() }
}

/// Usages of a readback buffer, through which the host downloads from the GPU.
pub fn readback_buffer_usages() -> (usages: BufferUsages)
    ensures
        usages.bits == COPY_DST_BIT | MAP_READ_BIT,
        usages.bits == 0x09,
{
    assert(0x08u32 | 0x01u32 == 0x09u32) by (bit_vector);
    BufferUsages { bits: copy_dst() | map_read() }
}

} // verus!
