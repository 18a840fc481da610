//! Sizes of vectors and batches in bytes.

use vstd::prelude::*;

use crate::error::PipelineError;

verus! {

/// Element size in bytes for f32.
pub const F32_SIZE: usize = 4;

/// Bytes of one vector.
pub open spec fn vector_bytes(vector_dim: usize) -> nat {
    (vector_dim * 4) as nat
}

/// Bytes of a batch of vectors.
pub open spec fn batch_bytes(batch_size: usize, vector_dim: usize) -> nat {
    (batch_size * (vector_dim * 4)) as nat
}

/// Why a stage of these dimensions is refused, if it is.
pub open spec fn dimension_error(vector_dim: usize, batch_size: usize) -> Option<PipelineError> {
    if vector_dim == 0 {
        Some(PipelineError::ZeroVectorDim)
    } else if batch_size == 0 {
        Some(PipelineError::ZeroBatchSize)
    } else {
        None
    }
}

/// Refuses a zero dimension, the vector dimension first.
pub fn check_dimensions(vector_dim: usize, batch_size: usize) -> (result: Result<(), PipelineError>)
    ensures
        match dimension_error(vector_dim, batch_size) {
            Some(e) => result == Err::<(), PipelineError>(e),
            None => result is Ok,
        },
{
    if vector_dim == 0 {
        return Err(PipelineError::ZeroVectorDim);
    }
    if batch_size == 0 {
        return Err(PipelineError::ZeroBatchSize);
    }
    Ok(())
}

/// The bytes of a batch of vectors.
pub fn batch_byte_size(batch_size: usize, vector_dim: usize) -> (bytes: u64)
    requires
        vector_bytes(vector_dim) <= usize::MAX,
        batch_bytes(batch_size, vector_dim) <= u64::MAX,
    ensures
        bytes == batch_bytes(batch_size, vector_dim),
{
    batch_size as u64 * (vector_dim * F32_SIZE) as u64
}

/// Whether the bytes of a batch of vectors, and of one vector, can be counted
/// on this machine.
pub fn batch_fits(batch_size: usize, vector_dim: usize) -> (fits: bool)
    ensures
        fits == (vector_bytes(vector_dim) <= usize::MAX && batch_bytes(batch_size, vector_dim)
            <= usize::MAX),
{
    match vector_dim.checked_mul(F32_SIZE) {
        Some(bytes) => batch_size.checked_mul(bytes).is_some(),
        None => false,
    }
}

/// The smaller of two numbers.
pub open spec fn smaller(a: nat, b: nat) -> nat {
    if a <= b {
        a
    } else {
        b
    }
}

/// A batch has four bytes for each of its scalars.
pub proof fn lemma_batch_scalars(batch_size: usize, vector_dim: usize)
    ensures
        batch_bytes(batch_size, vector_dim) == batch_size * vector_dim * 4,
        0 <= batch_size * vector_dim <= batch_bytes(batch_size, vector_dim),
{
    assert(batch_size * (vector_dim * 4) == batch_size * vector_dim * 4) by (nonlinear_arith);
    assert(batch_size * vector_dim >= 0) by (nonlinear_arith);
}

} // verus!
