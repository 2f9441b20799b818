//! Batch text-embedding pipeline: tokenization with padding and truncation,
//! tensor assembly for an inference engine, an exclusively-locked inference
//! session, and supporting checks for attention-masked mean pooling.

pub mod errors;
pub mod tokenize;
pub mod tensor;
pub mod session;

pub use errors::EmbedError;
pub use session::{embed_raw, init_onnx_session, run_inference, OnnxState, RawOutput};
pub use tensor::{
    assemble_tensors, to_embedding_input, valid_token_counts, validate_output_shape,
    AssembledTensors, EmbeddingInput,
};
pub use tokenize::{build_padded_batch, tokenize_batch, TokenizationOutput};
