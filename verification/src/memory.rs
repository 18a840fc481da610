//! What the commands that a pipeline hands out do to the contents of buffers.
//!
//! The contents of a buffer are the sequence of its scalars, of type `E`. A
//! stage is known by its kernel: the function from the work that the stage
//! was given, the contents of the buffer that it reads, and the contents that
//! the buffer that it writes had before, to the contents that it has then.

use vstd::prelude::*;

use crate::plan;
use crate::plan::{BufferResize, StagePass, StageWork};

verus! {

/// What a stage computes.
pub type Kernel<E> = spec_fn(StagePass, Seq<E>, Seq<E>) -> Seq<E>;

/// Contents of a buffer after `data` was written to its start.
pub open spec fn written<E>(contents: Seq<E>, data: Seq<E>) -> Seq<E> {
    data + contents.skip(data.len() as int)
}

/// Contents of all buffers after one stage did its work.
pub open spec fn run_pass<E>(
    buffers: Seq<Seq<E>>,
    pass: StagePass,
    kernels: Seq<Kernel<E>>,
) -> Seq<Seq<E>> {
    buffers.update(
        pass.output as int,
        kernels[pass.stage as int](pass, buffers[pass.input as int], buffers[pass.output as int]),
    )
}

/// Contents of all buffers after a number of stages did their work, each on
/// what the ones before it left.
pub open spec fn run_passes<E>(
    buffers: Seq<Seq<E>>,
    passes: Seq<StagePass>,
    kernels: Seq<Kernel<E>>,
) -> Seq<Seq<E>>
    decreases passes.len(),
{
    if passes.len() == 0 {
        buffers
    } else {
        run_pass(run_passes(buffers, passes.drop_last(), kernels), passes.last(), kernels)
    }
}

/// Contents of a buffer after its replacement: the first scalars of the old
/// one, then zeros, which fresh buffers are filled with.
pub open spec fn replaced<E>(contents: Seq<E>, resize: BufferResize, zero: E) -> Seq<E> {
    let copied = (resize.copy_size / 4) as int;
    contents.take(copied) + Seq::new(
        (resize.new_size / 4 - resize.copy_size / 4) as nat,
        |i: int| zero,
    )
}

/// Contents of all buffers after their replacement.
pub open spec fn replace_all<E>(buffers: Seq<Seq<E>>, resizes: Seq<BufferResize>, zero: E) -> Seq<
    Seq<E>,
> {
    Seq::new(buffers.len(), |b: int| replaced(buffers[b], resizes[b], zero))
}

/// Whether every buffer has room for `scalars` scalars and no more.
pub open spec fn sized<E>(buffers: Seq<Seq<E>>, scalars: nat) -> bool {
    forall|b: int| 0 <= b < buffers.len() ==> (#[trigger] buffers[b]).len() == scalars
}

/// Whether no kernel changes the size of a buffer.
pub open spec fn keep_sizes<E>(kernels: Seq<Kernel<E>>) -> bool {
    forall|i: int, pass: StagePass, input: Seq<E>, before: Seq<E>|
        0 <= i < kernels.len() ==> (#[trigger] kernels[i](pass, input, before)).len()
            == before.len()
}

/// Whether work is given for all of `elements` vectors of `vector_dim`
/// scalars.
pub open spec fn covers(pass: StagePass, elements: usize, vector_dim: usize) -> bool {
    &&& pass.elements == elements
    &&& pass.work matches StageWork::Dispatch { groups, .. } ==> groups == plan::workgroups(
        (elements * vector_dim) as nat,
    )
}

/// Whether a kernel that is given work for `elements` vectors of
/// `vector_dim` scalars leaves `f` of all of them at the start of the buffer
/// that it writes, whatever was there before.
pub open spec fn computes<E>(
    kernel: Kernel<E>,
    f: spec_fn(Seq<E>) -> Seq<E>,
    elements: usize,
    vector_dim: usize,
) -> bool {
    let m = elements * vector_dim;
    &&& forall|pass: StagePass, input: Seq<E>, before: Seq<E>|
        covers(pass, elements, vector_dim) && input.len() >= m && before.len() >= m ==> {
            let after = #[trigger] kernel(pass, input, before);
            after.len() == before.len() && after.take(m) == f(input.take(m))
        }
    &&& forall|y: Seq<E>| y.len() == m ==> (#[trigger] f(y)).len() == m
}

/// Whether a kernel that is given work for `elements` vectors of
/// `vector_dim` scalars, and reads a buffer that starts with `y`, leaves `f`
/// of `y` at the start of the buffer that it writes. `f` may be longer or
/// shorter than `y`.
pub open spec fn makes<E>(
    kernel: Kernel<E>,
    f: spec_fn(Seq<E>) -> Seq<E>,
    y: Seq<E>,
    elements: usize,
    vector_dim: usize,
) -> bool {
    forall|pass: StagePass, input: Seq<E>, before: Seq<E>|
        covers(pass, elements, vector_dim) && starts_with(input, y) && before.len() >= f(y).len()
            ==> {
            let after = #[trigger] kernel(pass, input, before);
            after.len() == before.len() && starts_with(after, f(y))
        }
}

/// Whether a buffer has `y` at its start.
pub open spec fn starts_with<E>(buffer: Seq<E>, y: Seq<E>) -> bool {
    y.len() <= buffer.len() && buffer.take(y.len() as int) == y
}

/// What a chain of functions makes of a sequence, the first function first.
pub open spec fn chained<E>(fs: Seq<spec_fn(Seq<E>) -> Seq<E>>, y: Seq<E>) -> Seq<E>
    decreases fs.len(),
{
    if fs.len() == 0 {
        y
    } else {
        (fs.last())(chained(fs.drop_last(), y))
    }
}

/// The kernel of a stage with the identity shader: each invocation copies one
/// scalar, if both buffers reach that far. A stage that encodes its own copy
/// copies all of them.
pub open spec fn identity_kernel<E>(pass: StagePass, input: Seq<E>, before: Seq<E>) -> Seq<E> {
    let invocations = match pass.work {
        StageWork::Dispatch { groups, .. } => groups as int * 64,
        StageWork::Encode => input.len() as int,
    };
    Seq::new(
        before.len(),
        |i: int|
            if i < invocations && i < input.len() {
                input[i]
            } else {
                before[i]
            },
    )
}

} // verus!
