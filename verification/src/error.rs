//! Failures that abort a request.

use vstd::prelude::*;

verus! {

/// One of the three networks of a pipeline.
#[derive(Debug, Clone, Copy, PartialEq, Eq, Structural)]
pub enum Network {
    VisionEncoder,
    EmbedTokens,
    Decoder,
}

/// Why a request was rejected. Every variant is fatal for the request in
/// flight; nothing is retried inside the library.
#[derive(Debug, Clone, Copy, PartialEq, Eq, Structural)]
pub enum FastVLMError {
    /// The pixel buffer is shorter than `width * height * 4` bytes.
    ImageShape { actual: usize, expected: u128 },
    /// The image cannot be resized: a buffer would be too large, or a side
    /// too long to resample.
    ImageTooLarge,
    /// Two tensors that must agree on a dimension do not.
    TensorShapeMismatch,
    /// The tokenizer refused the text or the token ids.
    Tokenization,
    /// A run of `network` failed. The caller, who runs the networks, reports
    /// a failed run under this tag.
    InferenceEngine { network: Network },
}

} // verus!
