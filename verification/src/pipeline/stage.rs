//! Standard stages: one shader, run over the whole batch.

use vstd::prelude::*;

use crate::error::PipelineError;
use crate::pipeline::size;
use crate::pipeline::size::{check_dimensions, F32_SIZE};
use crate::plan::default_bindings;
use crate::wgpu_utils;
use crate::wgpu_utils::binding_number;

verus! {

/// A compute stage configuration.
#[derive(Debug)]
pub struct Stage {
    /// Name of this stage
    pub name: String,
    /// WGSL shader source code
    pub wgsl: String,
    /// Vector dimension (2, 3, 4, etc.)
    pub vector_dim: usize,
    /// Number of elements in each batch
    pub batch_size: usize,
    /// Custom bind group layout entries (optional).
    /// If None, the default layout is used (input at binding 0, output at binding 1).
    pub bind_group_entries: Option<Vec<wgpu::BindGroupLayoutEntry>>,
}

/// `<String as From<&str>>::from`: the string holds the characters of the
/// slice.
pub assume_specification<'a>[ <String as From<&'a str>>::from ](s: &str) -> (r: String)
    ensures
        r@ == s@,
;

/// `<X as From<X>>::from`: the value itself.
pub assume_specification<X>[ <X as From<X>>::from ](x: X) -> (r: X)
    ensures
        r == x,
;

/// Source of the identity shader. It works on a flat array of scalars.
pub const IDENTITY_SHADER: &'static str = "
@group(0) @binding(0)
var<storage, read> input: array<f32>;

@group(0) @binding(1)
var<storage, read_write> output: array<f32>;

@compute @workgroup_size(64)
fn main(@builtin(global_invocation_id) id: vec3<u32>) {
    let idx = id.x;
    if (idx >= arrayLength(&input)) { return; }
    output[idx] = input[idx];
}
";

/// Generates an identity shader. Data is a flat array of scalars, so the
/// shader is the same for every vector dimension.
pub fn create_identity_shader(_vector_dim: usize) -> (shader: String)
    ensures
        shader@ == IDENTITY_SHADER@,
{
    String::from(IDENTITY_SHADER)
}

impl Stage {
    /// The numbers of the bindings in the stage's layout: those of its own
    /// entries, or 0 and 1.
    pub open spec fn spec_bindings(&self) -> Seq<u32> {
        match self.bind_group_entries {
            Some(entries) => entries@.map_values(
                |e: wgpu::BindGroupLayoutEntry| wgpu_utils::entry_binding(e),
            ),
            None => seq![0, 1],
        }
    }

    /// The numbers of the bindings in the stage's layout.
    pub fn bindings(&self) -> (bindings: Vec<u32>)
        ensures
            bindings@ == self.spec_bindings(),
    {
        match &self.bind_group_entries {
            Some(entries) => {
                let mut bindings: Vec<u32> = Vec::new();
                let mut k: usize = 0;
                while k < entries.len()
                    invariant
                        k <= entries@.len(),
                        self.bind_group_entries == Some(*entries),
                        bindings@ =~= self.spec_bindings().take(k as int),
                    decreases entries@.len() - k,
                {
                    bindings.push(binding_number(&entries[k]));
                    k = k + 1;
                }
                assert(bindings@ =~= self.spec_bindings());
                bindings
            },
            None => default_bindings(),
        }
    }

    /// Creates a new stage.
    pub fn new<N: Into<String>, W: Into<String>>(
        name: N,
        wgsl: W,
        vector_dim: usize,
        batch_size: usize,
    ) -> (stage: Self)
        ensures
            call_ensures(N::into, (name,), stage.name),
            call_ensures(W::into, (wgsl,), stage.wgsl),
            stage.vector_dim == vector_dim,
            stage.batch_size == batch_size,
            stage.bind_group_entries is None,
    {
        Stage {
            name: name.into(),
            wgsl: wgsl.into(),
            vector_dim,
            batch_size,
            bind_group_entries: None,
        }
    }

    /// Creates an identity stage that passes data through unchanged.
    pub fn identity<N: Into<String>>(name: N, vector_dim: usize, batch_size: usize) -> (stage: Self)
        ensures
            call_ensures(N::into, (name,), stage.name),
            stage.wgsl@ == IDENTITY_SHADER@,
            stage.vector_dim == vector_dim,
            stage.batch_size == batch_size,
            stage.bind_group_entries is None,
    {
        let shader = create_identity_shader(vector_dim);
        Self::new(name, shader, vector_dim, batch_size)
    }

    /// Validates the stage configuration.
    pub fn validate(&self) -> (result: Result<(), PipelineError>)
        ensures
            match size::dimension_error(self.vector_dim, self.batch_size) {
                Some(e) => result == Err::<(), PipelineError>(e),
                None => result is Ok,
            },
    {
        check_dimensions(self.vector_dim, self.batch_size)
    }

    /// Element size in bytes.
    pub fn element_size(&self) -> (bytes: usize)
        requires
            size::vector_bytes(self.vector_dim) <= usize::MAX,
        ensures
            bytes == size::vector_bytes(self.vector_dim),
    {
        self.vector_dim * F32_SIZE
    }

    /// Buffer size in bytes.
    pub fn buffer_size(&self) -> (bytes: u64)
        requires
            size::vector_bytes(self.vector_dim) <= usize::MAX,
            size::batch_bytes(self.batch_size, self.vector_dim) <= u64::MAX,
        ensures
            bytes == size::batch_bytes(self.batch_size, self.vector_dim),
    {
        self.batch_size as u64 * self.element_size() as u64
    }
}

impl Clone for Stage {
    fn clone(&self) -> (stage: Self)
        ensures
            stage.name == self.name,
            stage.wgsl == self.wgsl,
            stage.vector_dim == self.vector_dim,
            stage.batch_size == self.batch_size,
            stage.bind_group_entries is Some <==> self.bind_group_entries is Some,
            self.bind_group_entries is Some ==> stage.bind_group_entries->0@
                == self.bind_group_entries->0@,
    {
        let bind_group_entries = match &self.bind_group_entries {
            Some(entries) => {
                let mut copies: Vec<wgpu::BindGroupLayoutEntry> = Vec::new();
                let mut i: usize = 0;
                while i < entries.len()
                    invariant
                        i <= entries@.len(),
                        copies@ =~= entries@.take(i as int),
                    decreases entries@.len() - i,
                {
                    copies.push(entries[i]);
                    i = i + 1;
                }
                Some(copies)
            },
            None => None,
        };
        Stage {
            name: self.name.clone(),
            wgsl: self.wgsl.clone(),
            vector_dim: self.vector_dim,
            batch_size: self.batch_size,
            bind_group_entries,
        }
    }
}

} // verus!
