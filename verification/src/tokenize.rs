//! Tokenization stage: turn raw texts into a batch of equal-length rows of
//! token ids, attention-mask entries and segment ids.
//!
//! The outside tokenizer produces one variable-length encoding per text; this
//! module truncates each encoding to the configured maximum by dropping from
//! the tail, pads every row to the batch's longest kept length rounded up to
//! the next multiple of 8, and fixes every segment id at 0.

use vstd::prelude::*;

use crate::errors::EmbedError;

verus! {

/// A batch of tokenized rows. All three matrices have one row per input text,
/// and within a batch every row has the same length.
pub struct TokenizationOutput {
    pub input_ids: Vec<Vec<u32>>,
    pub attention_mask: Vec<Vec<u32>>,
    pub token_type_ids: Vec<Vec<u32>>,
}

/// Length a row keeps after truncation: its own length, capped at `max_length`.
pub open spec fn kept_len(raw_len: int, max_length: int) -> int {
    if raw_len <= max_length {
        raw_len
    } else {
        max_length
    }
}

/// `n` rounded up to the next multiple of 8.
pub open spec fn round_up8(n: int) -> int {
    if n % 8 == 0 {
        n
    } else {
        n + (8 - n % 8)
    }
}

/// The longest post-truncation id-row length over a batch of encodings.
pub open spec fn longest_kept(encodings: Seq<(Vec<u32>, Vec<u32>)>, max_length: int) -> int
    decreases encodings.len(),
{
    if encodings.len() == 0 {
        0
    } else {
        let rest = longest_kept(encodings.drop_last(), max_length);
        let last = kept_len(encodings.last().0@.len() as int, max_length);
        if last > rest {
            last
        } else {
            rest
        }
    }
}

/// The common row length of the padded batch: the longest kept length,
/// rounded up to the next multiple of 8.
pub open spec fn target_len(encodings: Seq<(Vec<u32>, Vec<u32>)>, max_length: int) -> int {
    round_up8(longest_kept(encodings, max_length))
}

/// A row truncated to its kept length and padded with zeros up to `target`.
pub open spec fn padded_row(row: Seq<u32>, max_length: int, target: int) -> Seq<u32> {
    row.take(kept_len(row.len() as int, max_length)) + Seq::new(
        (target - kept_len(row.len() as int, max_length)) as nat,
        |j: int| 0u32,
    )
}

pub proof fn lemma_round_up8_bounds(n: int)
    requires
        n >= 0,
    ensures
        round_up8(n) % 8 == 0,
        n <= round_up8(n),
        round_up8(n) <= n + 7,
{
}

pub proof fn lemma_round_up8_le_multiple(n: int, m: int)
    requires
        0 <= n <= m,
        m % 8 == 0,
    ensures
        round_up8(n) <= m,
{
    if n % 8 != 0 {
        assert((n - n % 8) % 8 == 0);
        assert(m - (n - n % 8) >= 8);
    }
}

pub proof fn lemma_longest_kept_ge_each(
    encodings: Seq<(Vec<u32>, Vec<u32>)>,
    max_length: int,
    i: int,
)
    requires
        0 <= i < encodings.len(),
    ensures
        kept_len(encodings[i].0@.len() as int, max_length) <= longest_kept(encodings, max_length),
    decreases encodings.len(),
{
    if i == encodings.len() - 1 {
    } else {
        lemma_longest_kept_ge_each(encodings.drop_last(), max_length, i);
    }
}

pub proof fn lemma_longest_kept_le_max(encodings: Seq<(Vec<u32>, Vec<u32>)>, max_length: int)
    requires
        max_length >= 0,
    ensures
        0 <= longest_kept(encodings, max_length) <= max_length,
    decreases encodings.len(),
{
    if encodings.len() > 0 {
        lemma_longest_kept_le_max(encodings.drop_last(), max_length);
    }
}

/// Law: the padded row length of a batch is a multiple of 8, at least every
/// row's post-truncation length, and — when the configured maximum is itself a
/// multiple of 8 — at most that maximum.
pub proof fn lemma_padding_length_policy(encodings: Seq<(Vec<u32>, Vec<u32>)>, max_length: int)
    requires
        max_length >= 0,
        max_length % 8 == 0,
    ensures
        target_len(encodings, max_length) % 8 == 0,
        forall|i: int|
            0 <= i < encodings.len() ==> kept_len(
                (#[trigger] encodings[i]).0@.len() as int,
                max_length,
            ) <= target_len(encodings, max_length),
        target_len(encodings, max_length) <= max_length,
{
    let longest = longest_kept(encodings, max_length);
    lemma_longest_kept_le_max(encodings, max_length);
    lemma_round_up8_bounds(longest);
    lemma_round_up8_le_multiple(longest, max_length);
    assert forall|i: int| 0 <= i < encodings.len() implies kept_len(
        (#[trigger] encodings[i]).0@.len() as int,
        max_length,
    ) <= target_len(encodings, max_length) by {
        lemma_longest_kept_ge_each(encodings, max_length, i);
    }
}

/// Law: an encoding with more tokens than the maximum keeps exactly
/// `max_length` of them, and the kept part is the encoding's own prefix of
/// that length — the excess is trimmed from the tail.
pub proof fn lemma_truncation_policy(row: Seq<u32>, max_length: int, target: int)
    requires
        row.len() > max_length >= 0,
        max_length <= target,
    ensures
        kept_len(row.len() as int, max_length) == max_length,
        padded_row(row, max_length, target).len() == target,
        padded_row(row, max_length, target).take(max_length) == row.take(max_length),
{
    assert(padded_row(row, max_length, target).take(max_length) =~= row.take(max_length));
}

/// A mask row of the shape this stage produces: 1 at the first `k` positions
/// (the real tokens), 0 at every later position (the padding).
pub open spec fn ones_then_zeros(row: Seq<u32>, k: int) -> bool {
    &&& 0 <= k <= row.len()
    &&& forall|j: int| 0 <= j < k ==> row[j] == 1u32
    &&& forall|j: int| k <= j < row.len() ==> row[j] == 0u32
}

/// The same shape without naming the boundary: every entry is 0 or 1, and
/// every 1 stands before every 0 — real tokens first, then only padding.
pub open spec fn ones_then_zeros_row(row: Seq<u32>) -> bool {
    &&& forall|j: int| 0 <= j < row.len() ==> ((#[trigger] row[j]) == 1u32 || row[j] == 0u32)
    &&& forall|a: int, b: int|
        #![trigger row[a], row[b]]
        0 <= a <= b < row.len() && row[b] == 1u32 ==> row[a] == 1u32
}

/// Law: for an all-ones attention mask, the padded row marks exactly the
/// post-truncation token count — 1 at the first `kept_len` positions, 0 at
/// every padding position. With the truncation law, a row longer than the
/// maximum therefore keeps exactly `max_length` real tokens, the excess
/// trimmed from the tail.
pub proof fn lemma_mask_marks_kept_tokens(raw: Seq<u32>, max_length: int, target: int)
    requires
        forall|j: int| 0 <= j < raw.len() ==> raw[j] == 1u32,
        max_length >= 0,
        kept_len(raw.len() as int, max_length) <= target,
    ensures
        ones_then_zeros(
            padded_row(raw, max_length, target),
            kept_len(raw.len() as int, max_length),
        ),
{
}

/// Law: within a batch, an encoding with more tokens than the maximum keeps
/// exactly `max_length` of them under the batch's own padded length, with the
/// excess trimmed from the tail; and when its raw attention mask marks every
/// position (as the encoder produces), the padded mask row marks exactly the
/// first `max_length` positions as real tokens and every later one as padding.
pub proof fn lemma_truncation_in_batch(
    encodings: Seq<(Vec<u32>, Vec<u32>)>,
    max_length: int,
    i: int,
)
    requires
        0 <= i < encodings.len(),
        encodings[i].0@.len() > max_length >= 0,
    ensures
        kept_len(encodings[i].0@.len() as int, max_length) == max_length,
        padded_row(encodings[i].0@, max_length, target_len(encodings, max_length)).take(max_length)
            == encodings[i].0@.take(max_length),
        (encodings[i].1@.len() == encodings[i].0@.len() && (forall|j: int|
            0 <= j < encodings[i].1@.len() ==> encodings[i].1@[j] == 1u32)) ==> ones_then_zeros(
            padded_row(encodings[i].1@, max_length, target_len(encodings, max_length)),
            max_length,
        ),
{
    lemma_longest_kept_ge_each(encodings, max_length, i);
    lemma_round_up8_bounds(longest_kept(encodings, max_length));
    lemma_truncation_policy(encodings[i].0@, max_length, target_len(encodings, max_length));
    if encodings[i].1@.len() == encodings[i].0@.len() && (forall|j: int|
        0 <= j < encodings[i].1@.len() ==> encodings[i].1@[j] == 1u32) {
        lemma_mask_marks_kept_tokens(encodings[i].1@, max_length, target_len(encodings, max_length));
    }
}

/// Truncate every encoding to `max_length`, pad the batch to its longest kept
/// length rounded up to a multiple of 8, and fix every segment id at 0.
#[verifier::loop_isolation(false)]
pub fn build_padded_batch(encodings: &Vec<(Vec<u32>, Vec<u32>)>, max_length: usize) -> (out:
    TokenizationOutput)
    requires
        max_length <= usize::MAX - 7,
        forall|i: int|
            0 <= i < encodings@.len() ==> (#[trigger] encodings@[i]).1@.len()
                == encodings@[i].0@.len(),
    ensures
        out.input_ids@.len() == encodings@.len(),
        out.attention_mask@.len() == encodings@.len(),
        out.token_type_ids@.len() == encodings@.len(),
        forall|i: int|
            0 <= i < encodings@.len() ==> (#[trigger] out.input_ids@[i])@ == padded_row(
                encodings@[i].0@,
                max_length as int,
                target_len(encodings@, max_length as int),
            ),
        forall|i: int|
            0 <= i < encodings@.len() ==> (#[trigger] out.attention_mask@[i])@ == padded_row(
                encodings@[i].1@,
                max_length as int,
                target_len(encodings@, max_length as int),
            ),
        forall|i: int|
            0 <= i < encodings@.len() ==> (#[trigger] out.token_type_ids@[i])@ == Seq::new(
                target_len(encodings@, max_length as int) as nat,
                |j: int| 0u32,
            ),
        forall|i: int|
            0 <= i < encodings@.len() ==> (#[trigger] out.input_ids@[i])@.len() == target_len(
                encodings@,
                max_length as int,
            ),
        forall|i: int|
            0 <= i < encodings@.len() ==> (#[trigger] out.attention_mask@[i])@.len() == target_len(
                encodings@,
                max_length as int,
            ),
{
    let n = encodings.len();
    let mut longest: usize = 0;
    let mut i: usize = 0;
    while i < n
        invariant
            i <= n,
            longest == longest_kept(encodings@.take(i as int), max_length as int),
            longest <= max_length,
        decreases n - i,
    {
        let len_i = encodings[i].0.len();
        let kept = if len_i <= max_length {
            len_i
        } else {
            max_length
        };
        if kept > longest {
            longest = kept;
        }
        proof {
            assert(encodings@.take(i + 1).drop_last() =~= encodings@.take(i as int));
            assert(encodings@.take(i + 1).last() == encodings@[i as int]);
        }
        i += 1;
    }
    proof {
        assert(encodings@.take(n as int) =~= encodings@);
    }
    let target = if longest % 8 == 0 {
        longest
    } else {
        longest + (8 - longest % 8)
    };
    proof {
        assert(target == target_len(encodings@, max_length as int));
        lemma_round_up8_bounds(longest as int);
        assert forall|k: int| 0 <= k < n implies kept_len(
            (#[trigger] encodings@[k]).0@.len() as int,
            max_length as int,
        ) <= target as int by {
            lemma_longest_kept_ge_each(encodings@, max_length as int, k);
        }
    }
    let mut input_ids: Vec<Vec<u32>> = Vec::new();
    let mut attention_mask: Vec<Vec<u32>> = Vec::new();
    let mut token_type_ids: Vec<Vec<u32>> = Vec::new();
    let mut i: usize = 0;
    while i < n
        invariant
            i <= n,
            input_ids@.len() == i as int,
            attention_mask@.len() == i as int,
            token_type_ids@.len() == i as int,
            forall|k: int|
                0 <= k < i as int ==> (#[trigger] input_ids@[k])@ == padded_row(
                    encodings@[k].0@,
                    max_length as int,
                    target as int,
                ),
            forall|k: int|
                0 <= k < i as int ==> (#[trigger] attention_mask@[k])@ == padded_row(
                    encodings@[k].1@,
                    max_length as int,
                    target as int,
                ),
            forall|k: int|
                0 <= k < i as int ==> (#[trigger] token_type_ids@[k])@ == Seq::new(
                    target as nat,
                    |j: int| 0u32,
                ),
        decreases n - i,
    {
        let ids_src = &encodings[i].0;
        let mask_src = &encodings[i].1;
        let len_i = ids_src.len();
        let kept = if len_i <= max_length {
            len_i
        } else {
            max_length
        };
        proof {
            assert(kept_len(encodings@[i as int].0@.len() as int, max_length as int)
                == kept as int);
            assert(kept as int <= target as int);
        }
        let mut ids_row: Vec<u32> = Vec::new();
        let mut mask_row: Vec<u32> = Vec::new();
        let mut seg_row: Vec<u32> = Vec::new();
        let mut j: usize = 0;
        while j < kept
            invariant
                j <= kept,
                ids_row@ == ids_src@.take(j as int),
                mask_row@ == mask_src@.take(j as int),
            decreases kept - j,
        {
            ids_row.push(ids_src[j]);
            mask_row.push(mask_src[j]);
            proof {
                assert(ids_src@.take(j + 1) =~= ids_src@.take(j as int).push(ids_src@[j as int]));
                assert(mask_src@.take(j + 1) =~= mask_src@.take(j as int).push(
                    mask_src@[j as int],
                ));
            }
            j += 1;
        }
        while j < target
            invariant
                kept <= j <= target,
                ids_row@ == ids_src@.take(kept as int) + Seq::new((j - kept) as nat, |q: int| 0u32),
                mask_row@ == mask_src@.take(kept as int) + Seq::new(
                    (j - kept) as nat,
                    |q: int| 0u32,
                ),
            decreases target - j,
        {
            ids_row.push(0u32);
            mask_row.push(0u32);
            proof {
                let pads = Seq::new((j - kept) as nat, |q: int| 0u32);
                let pads1 = Seq::new((j + 1 - kept) as nat, |q: int| 0u32);
                assert((ids_src@.take(kept as int) + pads).push(0u32) =~= ids_src@.take(
                    kept as int,
                ) + pads1);
                assert((mask_src@.take(kept as int) + pads).push(0u32) =~= mask_src@.take(
                    kept as int,
                ) + pads1);
            }
            j += 1;
        }
        let mut q: usize = 0;
        while q < target
            invariant
                q <= target,
                seg_row@ == Seq::new(q as nat, |r: int| 0u32),
            decreases target - q,
        {
            seg_row.push(0u32);
            proof {
                assert(Seq::new(q as nat, |r: int| 0u32).push(0u32) =~= Seq::new(
                    (q + 1) as nat,
                    |r: int| 0u32,
                ));
            }
            q += 1;
        }
        proof {
            assert(ids_row@ =~= padded_row(
                encodings@[i as int].0@,
                max_length as int,
                target as int,
            ));
            assert(mask_row@ =~= padded_row(
                encodings@[i as int].1@,
                max_length as int,
                target as int,
            ));
        }
        input_ids.push(ids_row);
        attention_mask.push(mask_row);
        token_type_ids.push(seg_row);
        i += 1;
    }
    TokenizationOutput { input_ids, attention_mask, token_type_ids }
}

#[verifier::external_type_specification]
#[verifier::external_body]
pub struct ExTokenizer(tokenizers::Tokenizer);

/// Relies on tokenizers' `Tokenizer::from_file`: it reads a tokenizer
/// definition from the given path and parses it, failing if the file cannot
/// be read or parsed.
#[verifier::external_body]
fn load_tokenizer(path: &String) -> (r: Result<tokenizers::Tokenizer, EmbedError>)
    ensures
        r matches Err(e) ==> e is TokenizerLoadError,
{
    tokenizers::Tokenizer::from_file(path).map_err(|e| EmbedError::TokenizerLoadError(e.to_string()))
}

/// Relies on tokenizers' `with_padding`, `with_truncation` and
/// `Tokenizer::encode_batch` with special tokens enabled. Any padding or
/// truncation the tokenizer carries (for instance from its definition file)
/// is cleared first: this stage owns both policies, and a file-borne
/// truncation whose stride reaches its effective maximum would otherwise
/// panic inside the encode call. Encoding then returns one raw, unpadded
/// encoding per input text; every encoding keeps its ids and its attention
/// mask at the same length, and every attention-mask entry is 1 (a real
/// token) — zeros are introduced only by this module's own padding.
#[verifier::external_body]
fn encode_pairs(tokenizer: &mut tokenizers::Tokenizer, texts: Vec<String>) -> (r: Result<
    Vec<(Vec<u32>, Vec<u32>)>,
    EmbedError,
>)
    ensures
        r matches Ok(encs) ==> encs@.len() == texts@.len(),
        r matches Ok(encs) ==> forall|i: int|
            0 <= i < encs@.len() ==> (#[trigger] encs@[i]).1@.len() == encs@[i].0@.len(),
        r matches Ok(encs) ==> forall|i: int, j: int|
            0 <= i < encs@.len() && 0 <= j < encs@[i].1@.len() ==> (#[trigger] encs@[i].1@[j])
                == 1u32,
        r matches Err(e) ==> e is EncodingError,
{
    tokenizer.with_padding(None);
    let _ = tokenizer.with_truncation(None).map_err(|e| EmbedError::EncodingError(e.to_string()))?;
    match tokenizer.encode_batch(texts, true) {
        Ok(encodings) => Ok(
            encodings.iter().map(
                |e| (e.get_ids().to_vec(), e.get_attention_mask().to_vec()),
            ).collect(),
        ),
        Err(e) => Err(EmbedError::EncodingError(e.to_string())),
    }
}

/// The common row length of a padded batch: the length of its first row, or 0
/// for an empty batch.
pub open spec fn batch_row_len(out: TokenizationOutput) -> int {
    if out.input_ids@.len() > 0 {
        out.input_ids@[0]@.len() as int
    } else {
        0
    }
}

/// Tokenize a batch of texts with the tokenizer found at `tokenizer_path`:
/// encode every text (with the model's special tokens), truncate each row to
/// `max_length` from the tail, pad the batch to its longest kept length
/// rounded up to a multiple of 8, and fix every segment id at 0.
pub fn tokenize_batch(texts: Vec<String>, tokenizer_path: String, max_length: usize) -> (r: Result<
    TokenizationOutput,
    EmbedError,
>)
    requires
        max_length <= usize::MAX - 7,
    ensures
        r matches Ok(out) ==> {
            &&& out.input_ids@.len() == texts@.len()
            &&& out.attention_mask@.len() == texts@.len()
            &&& out.token_type_ids@.len() == texts@.len()
            &&& batch_row_len(out) % 8 == 0
            &&& 0 <= batch_row_len(out) <= round_up8(max_length as int)
            &&& forall|i: int|
                0 <= i < texts@.len() ==> (#[trigger] out.input_ids@[i])@.len() == batch_row_len(
                    out,
                )
            &&& forall|i: int|
                0 <= i < texts@.len() ==> (#[trigger] out.attention_mask@[i])@.len()
                    == batch_row_len(out)
            &&& forall|i: int|
                0 <= i < texts@.len() ==> (#[trigger] out.token_type_ids@[i])@ == Seq::new(
                    batch_row_len(out) as nat,
                    |j: int| 0u32,
                )
            &&& forall|i: int|
                0 <= i < texts@.len() ==> ones_then_zeros_row((#[trigger] out.attention_mask@[i])@)
        },
        r matches Err(e) ==> (e is TokenizerLoadError || e is EncodingError),
{
    let mut tokenizer = match load_tokenizer(&tokenizer_path) {
        Ok(t) => t,
        Err(e) => return Err(e),
    };
    let encodings = match encode_pairs(&mut tokenizer, texts) {
        Ok(encs) => encs,
        Err(e) => return Err(e),
    };
    let out = build_padded_batch(&encodings, max_length);
    proof {
        let target = target_len(encodings@, max_length as int);
        lemma_longest_kept_le_max(encodings@, max_length as int);
        lemma_round_up8_bounds(longest_kept(encodings@, max_length as int));
        lemma_round_up8_bounds(target);
        lemma_round_up8_bounds(max_length as int);
        lemma_round_up8_le_multiple(
            longest_kept(encodings@, max_length as int),
            round_up8(max_length as int),
        );
        assert forall|i: int| 0 <= i < encodings@.len() implies ones_then_zeros_row(
            (#[trigger] out.attention_mask@[i])@,
        ) by {
            lemma_longest_kept_ge_each(encodings@, max_length as int, i);
            let kept = kept_len(encodings@[i].1@.len() as int, max_length as int);
            lemma_mask_marks_kept_tokens(encodings@[i].1@, max_length as int, target);
            assert(ones_then_zeros(out.attention_mask@[i]@, kept));
        }
    }
    Ok(out)
}

} // verus!
