//! Why a pipeline refuses a request.

use vstd::prelude::*;
use vstd::string::*;

verus! {

/// `anyhow::Error`, the error of a custom stage, carried unread.
#[verifier::external_type_specification]
#[verifier::external_body]
pub struct ExAnyhowError(anyhow::Error);

/// Why a pipeline could not be built, or refused a request.
#[derive(Debug)]
pub enum PipelineError {
    /// A vector dimension of zero.
    ZeroVectorDim,
    /// A batch size of zero.
    ZeroBatchSize,
    /// A pipeline without stages.
    NoStages,
    /// A stage whose vector dimension is not that of the first stage.
    VectorDimMismatch { stage: String, found: usize, expected: usize },
    /// A stage whose batch size is not that of the first stage.
    BatchSizeMismatch { stage: String, found: usize, expected: usize },
    /// Input without data.
    EmptyInput,
    /// Input that does not consist of whole vectors.
    PartialVector { bytes: usize, element_size: usize, vector_dim: usize },
    /// Input that does not fit in the buffers of the first stage.
    InputTooLarge { bytes: usize, capacity: usize },
    /// A stage index beyond the last buffer pair.
    StageOutOfBounds { index: usize, max: usize },
    /// A custom stage failed.
    Stage(anyhow::Error),
}

/// The character of a decimal digit.
pub open spec fn digit(d: nat) -> char {
    ('0' as u32 + d) as char
}

/// `n` in decimal notation.
pub open spec fn decimal(n: nat) -> Seq<char>
    decreases n,
{
    if n < 10 {
        seq![digit(n)]
    } else {
        decimal(n / 10).push(digit(n % 10))
    }
}

fn digit_text(d: usize) -> (text: &'static str)
    requires
        d < 10,
    ensures
        text@ == seq![digit(d as nat)],
{
    let text = match d {
        0 => "0",
        1 => "1",
        2 => "2",
        3 => "3",
        4 => "4",
        5 => "5",
        6 => "6",
        7 => "7",
        8 => "8",
        _ => "9",
    };
    proof {
        reveal_strlit("0");
        reveal_strlit("1");
        reveal_strlit("2");
        reveal_strlit("3");
        reveal_strlit("4");
        reveal_strlit("5");
        reveal_strlit("6");
        reveal_strlit("7");
        reveal_strlit("8");
        reveal_strlit("9");
    }
    assert(text@ =~= seq![digit(d as nat)]);
    text
}

/// Appends `n` in decimal notation.
fn append_decimal(text: &mut String, n: usize)
    ensures
        final(text)@ == old(text)@ + decimal(n as nat),
    decreases n,
{
    if n < 10 {
        text.append(digit_text(n));
    } else {
        append_decimal(text, n / 10);
        text.append(digit_text(n % 10));
        assert(text@ =~= old(text)@ + decimal(n as nat));
    }
}

/// `head`, `a`, `mid`, `b`, `tail` joined, both numbers in decimal notation.
fn with_numbers(head: String, a: usize, mid: &str, b: usize, tail: &str) -> (text: String)
    ensures
        text@ == head@ + decimal(a as nat) + mid@ + decimal(b as nat) + tail@,
{
    let mut text = head;
    append_decimal(&mut text, a);
    text.append(mid);
    append_decimal(&mut text, b);
    text.append(tail);
    text
}

/// `before`, `name`, `after` joined.
fn with_name(before: &str, name: &str, after: &str) -> (text: String)
    ensures
        text@ == before@ + name@ + after@,
{
    let mut text = String::from_str(before);
    text.append(name);
    text.append(after);
    text
}

impl PipelineError {
    /// The message of an error, or nothing where a custom stage brought its
    /// own error.
    pub open spec fn text(&self) -> Option<Seq<char>> {
        match self {
            PipelineError::ZeroVectorDim => Some("Vector dimension must be at least 1"@),
            PipelineError::ZeroBatchSize => Some("Batch size must be at least 1"@),
            PipelineError::NoStages => Some("Pipeline must have at least one stage"@),
            PipelineError::VectorDimMismatch { stage, found, expected } => Some(
                "All stages must have the same vector dimension. Stage '"@ + stage@ + "' has "@
                    + decimal(*found as nat) + ", expected "@ + decimal(*expected as nat) + ""@,
            ),
            PipelineError::BatchSizeMismatch { stage, found, expected } => Some(
                "All stages must have the same batch size. Stage '"@ + stage@ + "' has "@ + decimal(
                    *found as nat,
                ) + ", expected "@ + decimal(*expected as nat) + ""@,
            ),
            PipelineError::EmptyInput => Some("Input data cannot be empty"@),
            PipelineError::PartialVector { bytes, element_size, vector_dim } => Some(
                "Input byte size "@ + decimal(*bytes as nat) + " is not a multiple of element size "@
                    + decimal(*element_size as nat) + " (vector_dim "@ + decimal(*vector_dim as nat)
                    + " * F32_SIZE 4)"@,
            ),
            PipelineError::InputTooLarge { bytes, capacity } => Some(
                "Input size "@ + decimal(*bytes as nat) + " bytes exceeds stage 0 buffer size "@
                    + decimal(*capacity as nat) + " bytes"@,
            ),
            PipelineError::StageOutOfBounds { index, max } => Some(
                "Stage index "@ + decimal(*index as nat) + " out of bounds (max "@ + decimal(
                    *max as nat,
                ) + ")"@,
            ),
            PipelineError::Stage(_) => None,
        }
    }

    /// The message of this error. The error of a custom stage speaks for
    /// itself: there the result is `None`.
    pub fn message(&self) -> (message: Option<String>)
        ensures
            message is Some <==> self.text() is Some,
            message matches Some(m) ==> m@ == self.text()->0,
    {
        match self {
            PipelineError::ZeroVectorDim => Some(
                String::from_str("Vector dimension must be at least 1"),
            ),
            PipelineError::ZeroBatchSize => Some(String::from_str("Batch size must be at least 1")),
            PipelineError::NoStages => Some(
                String::from_str("Pipeline must have at least one stage"),
            ),
            PipelineError::VectorDimMismatch { stage, found, expected } => {
                let head = with_name(
                    "All stages must have the same vector dimension. Stage '",
                    stage.as_str(),
                    "' has ",
                );
                Some(with_numbers(head, *found, ", expected ", *expected, ""))
            },
            PipelineError::BatchSizeMismatch { stage, found, expected } => {
                let head = with_name(
                    "All stages must have the same batch size. Stage '",
                    stage.as_str(),
                    "' has ",
                );
                Some(with_numbers(head, *found, ", expected ", *expected, ""))
            },
            PipelineError::EmptyInput => Some(String::from_str("Input data cannot be empty")),
            PipelineError::PartialVector { bytes, element_size, vector_dim } => {
                let mut text = with_numbers(
                    String::from_str("Input byte size "),
                    *bytes,
                    " is not a multiple of element size ",
                    *element_size,
                    " (vector_dim ",
                );
                append_decimal(&mut text, *vector_dim);
                text.append(" * F32_SIZE 4)");
                Some(text)
            },
            PipelineError::InputTooLarge { bytes, capacity } => Some(
                with_numbers(
                    String::from_str("Input size "),
                    *bytes,
                    " bytes exceeds stage 0 buffer size ",
                    *capacity,
                    " bytes",
                ),
            ),
            PipelineError::StageOutOfBounds { index, max } => Some(
                with_numbers(
                    String::from_str("Stage index "),
                    *index,
                    " out of bounds (max ",
                    *max,
                    ")",
                ),
            ),
            PipelineError::Stage(_) => None,
        }
    }
}

} // verus!
