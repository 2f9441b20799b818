//! Tensor assembly stage: promote a tokenized batch to the inference engine's
//! signed 64-bit domain, check that the batch is rectangular, flatten it into
//! contiguous row-major buffers, validate the model's output shape, and count
//! the valid (attention-masked) tokens of each row for pooling.

use vstd::prelude::*;

use crate::errors::EmbedError;
use crate::tokenize::TokenizationOutput;

verus! {

/// A tokenized batch promoted to the signed 64-bit integer domain that the
/// inference engine expects.
pub struct EmbeddingInput {
    pub input_ids: Vec<Vec<i64>>,
    pub attention_mask: Vec<Vec<i64>>,
    pub token_type_ids: Vec<Vec<i64>>,
}

/// The three flattened row-major buffers fed to the engine, with the
/// (batch, sequence_length) shape they were flattened under.
pub struct AssembledTensors {
    pub input_ids: Vec<i64>,
    pub attention_mask: Vec<i64>,
    pub token_type_ids: Vec<i64>,
    pub batch: usize,
    pub seq_len: usize,
}

/// The row length an input batch claims: that of its first id row.
pub open spec fn input_row_len(input: EmbeddingInput) -> int {
    if input.input_ids@.len() > 0 {
        input.input_ids@[0]@.len() as int
    } else {
        0
    }
}

/// A batch is consistent when all three matrices have one row per input and
/// every row has the batch's common length.
pub open spec fn consistent_shape(input: EmbeddingInput) -> bool {
    &&& input.attention_mask@.len() == input.input_ids@.len()
    &&& input.token_type_ids@.len() == input.input_ids@.len()
    &&& forall|i: int|
        0 <= i < input.input_ids@.len() ==> (#[trigger] input.input_ids@[i])@.len()
            == input_row_len(input)
    &&& forall|i: int|
        0 <= i < input.input_ids@.len() ==> (#[trigger] input.attention_mask@[i])@.len()
            == input_row_len(input)
    &&& forall|i: int|
        0 <= i < input.input_ids@.len() ==> (#[trigger] input.token_type_ids@[i])@.len()
            == input_row_len(input)
}

/// Widen every entry of a matrix from u32 to i64.
#[verifier::loop_isolation(false)]
fn widen_matrix(m: &Vec<Vec<u32>>) -> (out: Vec<Vec<i64>>)
    ensures
        out@.len() == m@.len(),
        forall|i: int| 0 <= i < m@.len() ==> (#[trigger] out@[i])@.len() == m@[i]@.len(),
        forall|i: int, j: int|
            0 <= i < m@.len() && 0 <= j < m@[i]@.len() ==> #[trigger] out@[i]@[j] == m@[i]@[j]
                as i64,
{
    let mut out: Vec<Vec<i64>> = Vec::new();
    let mut i: usize = 0;
    while i < m.len()
        invariant
            i <= m@.len(),
            out@.len() == i as int,
            forall|k: int| 0 <= k < i as int ==> (#[trigger] out@[k])@.len() == m@[k]@.len(),
            forall|k: int, j: int|
                0 <= k < i as int && 0 <= j < m@[k]@.len() ==> #[trigger] out@[k]@[j] == m@[k]@[j]
                    as i64,
        decreases m@.len() - i,
    {
        let src = &m[i];
        let mut row: Vec<i64> = Vec::new();
        let mut j: usize = 0;
        while j < src.len()
            invariant
                j <= src@.len(),
                row@.len() == j as int,
                forall|q: int| 0 <= q < j as int ==> #[trigger] row@[q] == src@[q] as i64,
            decreases src@.len() - j,
        {
            row.push(src[j] as i64);
            j += 1;
        }
        out.push(row);
        i += 1;
    }
    out
}

/// Promote a tokenized batch to the signed 64-bit domain, entry by entry.
pub fn to_embedding_input(t: &TokenizationOutput) -> (out: EmbeddingInput)
    ensures
        out.input_ids@.len() == t.input_ids@.len(),
        out.attention_mask@.len() == t.attention_mask@.len(),
        out.token_type_ids@.len() == t.token_type_ids@.len(),
        forall|i: int|
            0 <= i < t.input_ids@.len() ==> (#[trigger] out.input_ids@[i])@.len()
                == t.input_ids@[i]@.len(),
        forall|i: int|
            0 <= i < t.attention_mask@.len() ==> (#[trigger] out.attention_mask@[i])@.len()
                == t.attention_mask@[i]@.len(),
        forall|i: int|
            0 <= i < t.token_type_ids@.len() ==> (#[trigger] out.token_type_ids@[i])@.len()
                == t.token_type_ids@[i]@.len(),
        forall|i: int, j: int|
            0 <= i < t.input_ids@.len() && 0 <= j < t.input_ids@[i]@.len()
                ==> #[trigger] out.input_ids@[i]@[j] == t.input_ids@[i]@[j] as i64,
        forall|i: int, j: int|
            0 <= i < t.attention_mask@.len() && 0 <= j < t.attention_mask@[i]@.len()
                ==> #[trigger] out.attention_mask@[i]@[j] == t.attention_mask@[i]@[j] as i64,
        forall|i: int, j: int|
            0 <= i < t.token_type_ids@.len() && 0 <= j < t.token_type_ids@[i]@.len()
                ==> #[trigger] out.token_type_ids@[i]@[j] == t.token_type_ids@[i]@[j] as i64,
{
    EmbeddingInput {
        input_ids: widen_matrix(&t.input_ids),
        attention_mask: widen_matrix(&t.attention_mask),
        token_type_ids: widen_matrix(&t.token_type_ids),
    }
}

/// A row-major index stays within the buffer that holds `n` rows.
proof fn lemma_row_major_index(k: int, q: int, n: int, seq: int)
    by (nonlinear_arith)
    requires
        0 <= k < n,
        0 <= q < seq,
    ensures
        0 <= k * seq + q,
        k * seq + q < n * seq,
{
}

/// Flatten a rectangular matrix into one contiguous row-major buffer.
#[verifier::loop_isolation(false)]
fn flatten_matrix(rows: &Vec<Vec<i64>>, seq_len: usize) -> (flat: Vec<i64>)
    requires
        forall|i: int| 0 <= i < rows@.len() ==> (#[trigger] rows@[i])@.len() == seq_len as int,
    ensures
        flat@.len() == rows@.len() * seq_len as int,
        forall|b: int, t: int|
            0 <= b < rows@.len() && 0 <= t < seq_len as int ==> #[trigger] rows@[b]@[t] == flat@[b
                * seq_len as int + t],
{
    let mut flat: Vec<i64> = Vec::new();
    let mut b: usize = 0;
    while b < rows.len()
        invariant
            b <= rows@.len(),
            flat@.len() == b as int * seq_len as int,
            forall|k: int, t: int|
                0 <= k < b as int && 0 <= t < seq_len as int ==> #[trigger] rows@[k]@[t] == flat@[k
                    * seq_len as int + t],
        decreases rows@.len() - b,
    {
        let src = &rows[b];
        let mut t: usize = 0;
        while t < seq_len
            invariant
                t <= seq_len,
                flat@.len() == b as int * seq_len as int + t as int,
                forall|k: int, q: int|
                    0 <= k < b as int && 0 <= q < seq_len as int ==> #[trigger] rows@[k]@[q]
                        == flat@[k * seq_len as int + q],
                forall|q: int|
                    0 <= q < t as int ==> #[trigger] src@[q] == flat@[b as int * seq_len as int
                        + q],
            decreases seq_len - t,
        {
            flat.push(src[t]);
            proof {
                assert forall|k: int, q: int|
                    0 <= k < b as int && 0 <= q < seq_len as int implies #[trigger] rows@[k]@[q]
                    == flat@[k * seq_len as int + q] by {
                    lemma_row_major_index(k, q, b as int, seq_len as int);
                }
            }
            t += 1;
        }
        b += 1;
        proof {
            assert(b as int * seq_len as int == (b as int - 1) * seq_len as int + seq_len as int)
                by (nonlinear_arith);
            assert forall|k: int, q: int|
                0 <= k < b as int && 0 <= q < seq_len as int implies #[trigger] rows@[k]@[q]
                == flat@[k * seq_len as int + q] by {
                lemma_row_major_index(k, q, b as int, seq_len as int);
                if k == b as int - 1 {
                    assert(k * seq_len as int == (b as int - 1) * seq_len as int);
                }
            }
        }
    }
    flat
}

/// Check that a promoted batch is rectangular and flatten it into the three
/// contiguous row-major buffers the engine takes, with its shape descriptor.
/// An inconsistent batch is rejected with `ShapeError`; an empty batch
/// assembles to empty buffers with batch size 0.
#[verifier::loop_isolation(false)]
pub fn assemble_tensors(input: &EmbeddingInput) -> (r: Result<AssembledTensors, EmbedError>)
    ensures
        r is Ok <==> consistent_shape(*input),
        r matches Err(e) ==> e is ShapeError,
        r matches Ok(a) ==> {
            &&& a.batch == input.input_ids@.len()
            &&& a.seq_len as int == input_row_len(*input)
            &&& a.input_ids@.len() == a.batch as int * a.seq_len as int
            &&& a.attention_mask@.len() == a.batch as int * a.seq_len as int
            &&& a.token_type_ids@.len() == a.batch as int * a.seq_len as int
            &&& forall|b: int, t: int|
                0 <= b < a.batch as int && 0 <= t < a.seq_len as int
                    ==> #[trigger] input.input_ids@[b]@[t] == a.input_ids@[b * a.seq_len as int + t]
            &&& forall|b: int, t: int|
                0 <= b < a.batch as int && 0 <= t < a.seq_len as int
                    ==> #[trigger] input.attention_mask@[b]@[t] == a.attention_mask@[b
                    * a.seq_len as int + t]
            &&& forall|b: int, t: int|
                0 <= b < a.batch as int && 0 <= t < a.seq_len as int
                    ==> #[trigger] input.token_type_ids@[b]@[t] == a.token_type_ids@[b
                    * a.seq_len as int + t]
        },
{
    let batch = input.input_ids.len();
    if input.attention_mask.len() != batch || input.token_type_ids.len() != batch {
        return Err(EmbedError::ShapeError);
    }
    let seq_len = if batch > 0 {
        input.input_ids[0].len()
    } else {
        0
    };
    let mut i: usize = 0;
    while i < batch
        invariant
            i <= batch,
            forall|k: int|
                0 <= k < i as int ==> (#[trigger] input.input_ids@[k])@.len() == seq_len as int,
            forall|k: int|
                0 <= k < i as int ==> (#[trigger] input.attention_mask@[k])@.len()
                    == seq_len as int,
            forall|k: int|
                0 <= k < i as int ==> (#[trigger] input.token_type_ids@[k])@.len()
                    == seq_len as int,
        decreases batch - i,
    {
        if input.input_ids[i].len() != seq_len || input.attention_mask[i].len() != seq_len
            || input.token_type_ids[i].len() != seq_len {
            return Err(EmbedError::ShapeError);
        }
        i += 1;
    }
    Ok(
        AssembledTensors {
            input_ids: flatten_matrix(&input.input_ids, seq_len),
            attention_mask: flatten_matrix(&input.attention_mask, seq_len),
            token_type_ids: flatten_matrix(&input.token_type_ids, seq_len),
            batch,
            seq_len,
        },
    )
}

/// The raw hidden-state buffer matches the pipeline's expectation when it is
/// rank-3 with the input's batch and sequence length, and the flat data holds
/// exactly batch * sequence_length * hidden_size values.
pub open spec fn expected_output_shape(
    shape: Seq<usize>,
    batch: int,
    seq_len: int,
    data_len: int,
) -> bool {
    &&& shape.len() == 3
    &&& shape[0] as int == batch
    &&& shape[1] as int == seq_len
    &&& data_len == batch * seq_len * (shape[2] as int)
}

/// Validate the model's reported output shape against the input's shape and
/// the length of the flat output buffer, returning the hidden size. Anything
/// but a matching rank-3 shape is rejected with `UnsupportedOutputShapeError`
/// carrying the observed shape.
pub fn validate_output_shape(shape: Vec<usize>, batch: usize, seq_len: usize, data_len: usize) -> (r:
    Result<usize, EmbedError>)
    ensures
        r is Ok <==> expected_output_shape(shape@, batch as int, seq_len as int, data_len as int),
        r matches Ok(h) ==> shape@.len() == 3 && h == shape@[2],
        r matches Err(e) ==> e matches EmbedError::UnsupportedOutputShapeError(s) && s@ == shape@,
{
    if shape.len() != 3 {
        return Err(EmbedError::UnsupportedOutputShapeError(shape));
    }
    let h = shape[2];
    if shape[0] != batch || shape[1] != seq_len {
        return Err(EmbedError::UnsupportedOutputShapeError(shape));
    }
    if batch == 0 || seq_len == 0 || h == 0 {
        proof {
            assert(batch as int * seq_len as int * (h as int) == 0) by (nonlinear_arith)
                requires
                    batch == 0 || seq_len == 0 || h == 0,
            ;
        }
        if data_len == 0 {
            return Ok(h);
        } else {
            return Err(EmbedError::UnsupportedOutputShapeError(shape));
        }
    }
    let bs = match batch.checked_mul(seq_len) {
        Some(p) => p,
        None => {
            proof {
                assert(batch as int * seq_len as int * (h as int) > usize::MAX as int)
                    by (nonlinear_arith)
                    requires
                        batch as int * seq_len as int > usize::MAX as int,
                        h >= 1,
                ;
            }
            return Err(EmbedError::UnsupportedOutputShapeError(shape));
        },
    };
    let total = match bs.checked_mul(h) {
        Some(p) => p,
        None => {
            return Err(EmbedError::UnsupportedOutputShapeError(shape));
        },
    };
    if total == data_len {
        Ok(h)
    } else {
        Err(EmbedError::UnsupportedOutputShapeError(shape))
    }
}

/// How many entries of a mask row are exactly 1 — the row's valid tokens.
pub open spec fn ones_count(row: Seq<i64>) -> int
    decreases row.len(),
{
    if row.len() == 0 {
        0
    } else {
        ones_count(row.drop_last()) + if row.last() == 1i64 {
            1int
        } else {
            0int
        }
    }
}

/// The positions of a mask row that contribute to pooling, in traversal
/// order: exactly those whose entry is 1.
pub open spec fn masked_positions(row: Seq<i64>) -> Seq<int>
    decreases row.len(),
{
    if row.len() == 0 {
        Seq::empty()
    } else if row.last() == 1i64 {
        masked_positions(row.drop_last()).push(row.len() - 1)
    } else {
        masked_positions(row.drop_last())
    }
}

/// Law (padding invariance, integer side): extending a mask row with padding
/// entries (none equal to 1) changes neither which positions contribute to
/// pooling nor their order, nor the valid-token divisor. Two differently
/// padded encodings of the same tokens therefore feed the pooling stage the
/// same addends in the same order and divide by the same count.
pub proof fn lemma_padding_invariant_mask(mask: Seq<i64>, pad: Seq<i64>)
    requires
        forall|t: int| 0 <= t < pad.len() ==> pad[t] != 1i64,
    ensures
        ones_count(mask + pad) == ones_count(mask),
        masked_positions(mask + pad) == masked_positions(mask),
    decreases pad.len(),
{
    if pad.len() == 0 {
        assert(mask + pad =~= mask);
    } else {
        assert((mask + pad).drop_last() =~= mask + pad.drop_last());
        assert((mask + pad).last() == pad.last());
        lemma_padding_invariant_mask(mask, pad.drop_last());
    }
}

/// Law: a fully-masked row (no entry equal to 1) has no valid tokens, so the
/// pooling stage must not divide its accumulator — the row stays all zeros.
pub proof fn lemma_fully_masked_count_zero(row: Seq<i64>)
    requires
        forall|t: int| 0 <= t < row.len() ==> row[t] != 1i64,
    ensures
        ones_count(row) == 0,
    decreases row.len(),
{
    if row.len() > 0 {
        lemma_fully_masked_count_zero(row.drop_last());
    }
}

/// Count the valid tokens of every mask row: the divisor of the masked mean.
#[verifier::loop_isolation(false)]
pub fn valid_token_counts(mask: &Vec<Vec<i64>>) -> (counts: Vec<usize>)
    ensures
        counts@.len() == mask@.len(),
        forall|b: int|
            0 <= b < mask@.len() ==> (#[trigger] counts@[b]) as int == ones_count(mask@[b]@),
{
    let mut counts: Vec<usize> = Vec::new();
    let mut b: usize = 0;
    while b < mask.len()
        invariant
            b <= mask@.len(),
            counts@.len() == b as int,
            forall|k: int|
                0 <= k < b as int ==> (#[trigger] counts@[k]) as int == ones_count(mask@[k]@),
        decreases mask@.len() - b,
    {
        let row = &mask[b];
        let mut count: usize = 0;
        let mut t: usize = 0;
        while t < row.len()
            invariant
                t <= row@.len(),
                count <= t,
                count as int == ones_count(row@.take(t as int)),
            decreases row@.len() - t,
        {
            proof {
                assert(row@.take(t + 1).drop_last() =~= row@.take(t as int));
                assert(row@.take(t + 1).last() == row@[t as int]);
            }
            if row[t] == 1i64 {
                count += 1;
            }
            t += 1;
        }
        proof {
            assert(row@.take(row@.len() as int) =~= row@);
        }
        counts.push(count);
        b += 1;
    }
    counts
}

} // verus!
