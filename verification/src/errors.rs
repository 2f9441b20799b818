//! The pipeline's error taxonomy. Every stage fails with one tagged variant;
//! no stage retries, and no partial result is returned alongside an error.

use vstd::prelude::*;

verus! {

/// One terminal failure of the embedding pipeline.
///
/// Variants that carry a `String` hold the underlying cause as reported by the
/// collaborator that failed; `UnsupportedOutputShapeError` carries the shape
/// that the model actually produced.
#[derive(Debug)]
pub enum EmbedError {
    /// The tokenizer definition could not be read or parsed.
    TokenizerLoadError(String),
    /// Encoding a batch of texts failed.
    EncodingError(String),
    /// Row lengths are inconsistent within a batch.
    ShapeError,
    /// The model definition could not be loaded into a session.
    ModelLoadError(String),
    /// A run was requested while no session is installed.
    SessionNotInitialized,
    /// The model's output was not shaped (batch, sequence_length, hidden_size).
    UnsupportedOutputShapeError(Vec<usize>),
    /// An input tensor could not be constructed.
    TensorConstructionError(String),
    /// The inference call itself failed or returned no usable output.
    InferenceError(String),
}

} // verus!
