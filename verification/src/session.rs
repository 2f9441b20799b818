//! Inference session manager: at most one live session, held behind one
//! exclusive lock that covers both initialize-or-replace and run. A run
//! borrows the session for the whole inference call, so all inference is
//! serialized through the lock; initialization is a stop-the-world event for
//! the shared session.

use vstd::prelude::*;

use ort::session::SessionInputValue;
use ort::value::Tensor;

use crate::errors::EmbedError;
use crate::tensor::{assemble_tensors, consistent_shape, AssembledTensors, EmbeddingInput};

verus! {

#[verifier::external_type_specification]
#[verifier::external_body]
pub struct ExSession(ort::session::Session);

#[verifier::external_type_specification]
#[verifier::external_body]
#[verifier::reject_recursive_types(T)]
pub struct ExMutex<T: ?Sized>(std::sync::Mutex<T>);

#[verifier::external_type_specification]
#[verifier::external_body]
pub struct ExSessionInputValue<'v>(ort::session::SessionInputValue<'v>);

/// The process-wide inference state: at most one session, behind one
/// exclusive lock. Replacing the session releases the prior one first.
pub struct OnnxState {
    pub session: std::sync::Mutex<Option<ort::session::Session>>,
}

/// Opaque carrier for the model's raw `"token_embeddings"` output. Its
/// floating-point contents cannot be represented here, so the value is handed
/// out untouched for the caller to extract and pool.
#[verifier::external_body]
pub struct RawOutput {
    pub value: ort::value::DynValue,
}

/// Relies on ort's `Session::builder()` and `SessionBuilder::commit_from_file`:
/// together they load a model graph from the given path into a fresh session.
/// The state's lock is held for the whole replacement: any prior session is
/// dropped before the new one is built, and on a build failure the state is
/// left holding no session, never a half-initialized one. Every failure is
/// reported as `ModelLoadError`. Caveat: the engine's runtime library must
/// already have been set up (the entry point's bootstrap); if it has not and
/// the dynamically loaded runtime cannot be found, ort's API access panics
/// inside this call rather than returning an error.
#[verifier::external_body]
pub fn init_onnx_session(model_path: String, state: &OnnxState) -> (r: Result<(), EmbedError>)
    ensures
        r matches Err(e) ==> e is ModelLoadError,
{
    let le = |e: ort::Error| EmbedError::ModelLoadError(e.to_string());
    let mut guard = state.session.lock().map_err(|e| EmbedError::ModelLoadError(e.to_string()))?;
    *guard = None;
    let mut builder = ort::session::Session::builder().map_err(le)?;
    *guard = Some(builder.commit_from_file(&model_path).map_err(le)?);
    Ok(())
}

/// Relies on std's `Mutex::lock`: reports whether the state held a session at
/// the moment of the check. Only a fast-fail hint — the run itself re-checks
/// under the same lock it runs with.
#[verifier::external_body]
fn has_session(state: &OnnxState) -> bool {
    state.session.lock().map(|g| g.is_some()).unwrap_or(false)
}

/// Relies on ort's `Tensor::from_array`: wraps one flat i64 buffer as a
/// 2-D (batch, sequence_length) input tensor for the engine, paired with the
/// given input name unchanged.
#[verifier::external_body]
fn make_input(name: &'static str, flat: Vec<i64>, batch: usize, seq_len: usize) -> (r: Result<
    (&'static str, ort::session::SessionInputValue<'static>),
    EmbedError,
>)
    ensures
        r matches Ok(p) ==> p.0@ == name@,
        r matches Err(e) ==> e is TensorConstructionError,
{
    let t = Tensor::<i64>::from_array(([batch, seq_len], flat));
    match t {
        Ok(t) => Ok((name, SessionInputValue::from(t))),
        Err(e) => Err(EmbedError::TensorConstructionError(e.to_string())),
    }
}

/// Relies on ort's `Session::run` and `SessionOutputs::remove`. The state's
/// lock is held from the session presence check to the extraction of the
/// `"token_embeddings"` output, so one inference call owns the session
/// exclusively for its whole duration; a missing session is reported as
/// `SessionNotInitialized` before the engine is touched.
#[verifier::external_body]
fn run_session(
    state: &OnnxState,
    inputs: Vec<(&'static str, ort::session::SessionInputValue<'static>)>,
) -> (r: Result<RawOutput, EmbedError>)
    ensures
        r matches Err(e) ==> (e is SessionNotInitialized || e is InferenceError),
{
    let ie = |e: ort::Error| EmbedError::InferenceError(e.to_string());
    let mut guard = state.session.lock().map_err(|e| EmbedError::InferenceError(e.to_string()))?;
    let session = guard.as_mut().ok_or(EmbedError::SessionNotInitialized)?;
    let mut outputs = session.run(inputs).map_err(ie)?;
    outputs.remove("token_embeddings").map(|value| RawOutput { value }).ok_or(
        EmbedError::InferenceError(String::from("missing token_embeddings")),
    )
}

/// Run one inference call over an assembled batch. An empty batch
/// short-circuits: it yields no raw output and the session is never touched,
/// not even to check that it exists. A non-empty batch wraps the three named
/// input tensors only once a session is known to be present, then borrows the
/// session for the whole run and yields the raw `"token_embeddings"` value.
pub fn run_inference(state: &OnnxState, tensors: AssembledTensors) -> (r: Result<
    Option<RawOutput>,
    EmbedError,
>)
    ensures
        tensors.batch == 0 ==> (r matches Ok(v) && v is None),
        r matches Ok(v) && v is None ==> tensors.batch == 0,
        r matches Err(e) ==> tensors.batch > 0 && (e is SessionNotInitialized
            || e is TensorConstructionError || e is InferenceError),
{
    if tensors.batch == 0 {
        return Ok(None);
    }
    if !has_session(state) {
        return Err(EmbedError::SessionNotInitialized);
    }
    let mut inputs: Vec<(&'static str, ort::session::SessionInputValue<'static>)> = Vec::new();
    match make_input("input_ids", tensors.input_ids, tensors.batch, tensors.seq_len) {
        Ok(p) => inputs.push(p),
        Err(e) => return Err(e),
    }
    match make_input("attention_mask", tensors.attention_mask, tensors.batch, tensors.seq_len) {
        Ok(p) => inputs.push(p),
        Err(e) => return Err(e),
    }
    match make_input("token_type_ids", tensors.token_type_ids, tensors.batch, tensors.seq_len) {
        Ok(p) => inputs.push(p),
        Err(e) => return Err(e),
    }
    match run_session(state, inputs) {
        Ok(value) => Ok(Some(value)),
        Err(e) => Err(e),
    }
}

/// Check and flatten a promoted batch, then run one inference call over it.
/// An inconsistent batch is rejected with `ShapeError` before the session is
/// touched; an empty batch yields no raw output without invoking inference;
/// no partial result ever accompanies an error.
pub fn embed_raw(state: &OnnxState, input: &EmbeddingInput) -> (r: Result<
    Option<RawOutput>,
    EmbedError,
>)
    ensures
        (r matches Err(e) && e is ShapeError) <==> !consistent_shape(*input),
        (consistent_shape(*input) && input.input_ids@.len() == 0) ==> (r matches Ok(v)
            && v is None),
        (r matches Ok(v) && v is None) ==> input.input_ids@.len() == 0,
        r matches Err(e) ==> (e is ShapeError || e is SessionNotInitialized
            || e is TensorConstructionError || e is InferenceError),
{
    let tensors = match assemble_tensors(input) {
        Ok(t) => t,
        Err(e) => return Err(e),
    };
    run_inference(state, tensors)
}

} // verus!
