//! End-to-end checks of the tokenization, assembly, validation and session
//! stages on concrete values.

use embedder::{
    assemble_tensors, build_padded_batch, embed_raw, to_embedding_input, tokenize_batch,
    valid_token_counts, validate_output_shape, EmbedError, EmbeddingInput, OnnxState,
    TokenizationOutput,
};

fn fresh_state() -> OnnxState {
    OnnxState { session: std::sync::Mutex::new(None) }
}

#[test]
fn single_row_pads_to_multiple_of_eight() {
    let encodings = vec![(vec![101u32, 7592, 2088, 102], vec![1u32, 1, 1, 1])];
    let out = build_padded_batch(&encodings, 256);
    assert_eq!(out.input_ids.len(), 1);
    assert_eq!(out.attention_mask.len(), 1);
    assert_eq!(out.token_type_ids.len(), 1);
    assert_eq!(out.input_ids[0], vec![101, 7592, 2088, 102, 0, 0, 0, 0]);
    assert_eq!(out.attention_mask[0], vec![1, 1, 1, 1, 0, 0, 0, 0]);
    assert_eq!(out.token_type_ids[0], vec![0; 8]);
}

#[test]
fn long_row_truncates_to_max_length_from_tail() {
    let ids: Vec<u32> = (0..300).collect();
    let mask = vec![1u32; 300];
    let out = build_padded_batch(&vec![(ids.clone(), mask)], 256);
    assert_eq!(out.input_ids[0].len(), 256);
    assert_eq!(out.input_ids[0][..], ids[..256]);
    assert_eq!(out.attention_mask[0], vec![1u32; 256]);
}

#[test]
fn batch_pads_to_longest_kept_row() {
    let encodings = vec![
        (vec![5u32, 6, 7], vec![1u32, 1, 1]),
        (vec![9u32; 10], vec![1u32; 10]),
    ];
    let out = build_padded_batch(&encodings, 256);
    assert_eq!(out.input_ids[0].len(), 16);
    assert_eq!(out.input_ids[1].len(), 16);
    assert_eq!(out.input_ids[0][..3], [5, 6, 7]);
    assert_eq!(out.input_ids[0][3..], [0u32; 13]);
    assert_eq!(out.attention_mask[0][..3], [1, 1, 1]);
    assert_eq!(out.attention_mask[0][3..], [0u32; 13]);
    assert_eq!(out.attention_mask[1][..10], [1u32; 10][..]);
}

#[test]
fn padding_length_is_multiple_of_eight_and_bounded() {
    let out = build_padded_batch(&vec![(vec![3u32; 9], vec![1u32; 9])], 16);
    assert_eq!(out.input_ids[0].len(), 16);
    let capped = build_padded_batch(&vec![(vec![3u32; 9], vec![1u32; 9])], 8);
    assert_eq!(capped.input_ids[0].len(), 8);
    assert_eq!(capped.input_ids[0], vec![3u32; 8]);
}

#[test]
fn truncated_row_mask_marks_exactly_max_tokens() {
    let long: Vec<u32> = (0..30).collect();
    let encodings = vec![(long.clone(), vec![1u32; 30]), (vec![7u32, 8], vec![1u32, 1])];
    let out = build_padded_batch(&encodings, 20);
    assert_eq!(out.input_ids[0].len(), 24);
    assert_eq!(out.input_ids[0][..20], long[..20]);
    assert_eq!(out.attention_mask[0], [vec![1u32; 20], vec![0u32; 4]].concat());
    assert_eq!(out.attention_mask[1], [vec![1u32; 2], vec![0u32; 22]].concat());
}

#[test]
fn empty_batch_tokenizes_to_no_rows() {
    let out = build_padded_batch(&vec![], 256);
    assert_eq!(out.input_ids.len(), 0);
    assert_eq!(out.attention_mask.len(), 0);
    assert_eq!(out.token_type_ids.len(), 0);
}

#[test]
fn missing_tokenizer_file_reports_load_error() {
    let r = tokenize_batch(
        vec![String::from("hello world")],
        String::from("no/such/tokenizer.json"),
        256,
    );
    assert!(matches!(r, Err(EmbedError::TokenizerLoadError(_))));
}

#[test]
fn widening_preserves_every_entry() {
    let t = TokenizationOutput {
        input_ids: vec![vec![4_000_000_000u32, 7]],
        attention_mask: vec![vec![1u32, 0]],
        token_type_ids: vec![vec![0u32, 0]],
    };
    let widened = to_embedding_input(&t);
    assert_eq!(widened.input_ids, vec![vec![4_000_000_000i64, 7]]);
    assert_eq!(widened.attention_mask, vec![vec![1i64, 0]]);
    assert_eq!(widened.token_type_ids, vec![vec![0i64, 0]]);
}

#[test]
fn flattening_is_row_major() {
    let input = EmbeddingInput {
        input_ids: vec![vec![1i64, 2, 3], vec![4, 5, 6]],
        attention_mask: vec![vec![1i64, 1, 0], vec![1, 0, 0]],
        token_type_ids: vec![vec![0i64, 0, 0], vec![0, 0, 0]],
    };
    let a = assemble_tensors(&input).unwrap();
    assert_eq!(a.batch, 2);
    assert_eq!(a.seq_len, 3);
    assert_eq!(a.input_ids, vec![1, 2, 3, 4, 5, 6]);
    assert_eq!(a.attention_mask, vec![1, 1, 0, 1, 0, 0]);
    assert_eq!(a.token_type_ids, vec![0; 6]);
}

#[test]
fn ragged_batch_is_rejected() {
    let input = EmbeddingInput {
        input_ids: vec![vec![1i64, 2, 3], vec![4, 5]],
        attention_mask: vec![vec![1i64, 1, 1], vec![1, 1]],
        token_type_ids: vec![vec![0i64, 0, 0], vec![0, 0]],
    };
    assert!(matches!(assemble_tensors(&input), Err(EmbedError::ShapeError)));
    let mismatched = EmbeddingInput {
        input_ids: vec![vec![1i64, 2]],
        attention_mask: vec![],
        token_type_ids: vec![vec![0i64, 0]],
    };
    assert!(matches!(assemble_tensors(&mismatched), Err(EmbedError::ShapeError)));
}

#[test]
fn empty_batch_assembles_to_empty_buffers() {
    let input = EmbeddingInput { input_ids: vec![], attention_mask: vec![], token_type_ids: vec![] };
    let a = assemble_tensors(&input).unwrap();
    assert_eq!(a.batch, 0);
    assert_eq!(a.seq_len, 0);
    assert_eq!(a.input_ids.len(), 0);
}

#[test]
fn rank_three_matching_shape_is_accepted() {
    let r = validate_output_shape(vec![2, 4, 3], 2, 4, 24);
    assert_eq!(r.unwrap(), 3);
}

#[test]
fn wrong_rank_or_mismatched_shape_is_rejected() {
    match validate_output_shape(vec![2, 4], 2, 4, 8) {
        Err(EmbedError::UnsupportedOutputShapeError(s)) => assert_eq!(s, vec![2, 4]),
        _ => panic!("expected UnsupportedOutputShapeError"),
    }
    assert!(matches!(
        validate_output_shape(vec![3, 4, 3], 2, 4, 36),
        Err(EmbedError::UnsupportedOutputShapeError(_))
    ));
    assert!(matches!(
        validate_output_shape(vec![2, 4, 3], 2, 4, 23),
        Err(EmbedError::UnsupportedOutputShapeError(_))
    ));
}

#[test]
fn valid_token_counts_skip_masked_positions() {
    let mask = vec![vec![1i64, 1, 1, 0], vec![0i64, 0, 0, 0], vec![1i64, 0, 1, 0]];
    assert_eq!(valid_token_counts(&mask), vec![3, 0, 2]);
}

#[test]
fn padding_does_not_change_valid_counts() {
    let short = vec![vec![1i64, 1, 1]];
    let padded = vec![vec![1i64, 1, 1, 0, 0, 0, 0, 0]];
    let longer = vec![vec![1i64, 1, 1, 0, 0, 0, 0, 0, 0, 0, 0, 0, 0, 0, 0, 0]];
    assert_eq!(valid_token_counts(&short), valid_token_counts(&padded));
    assert_eq!(valid_token_counts(&padded), valid_token_counts(&longer));
}

#[test]
fn empty_batch_skips_inference() {
    let state = fresh_state();
    let input = EmbeddingInput { input_ids: vec![], attention_mask: vec![], token_type_ids: vec![] };
    let r = embed_raw(&state, &input);
    assert!(matches!(r, Ok(None)));
}

#[test]
fn run_before_init_reports_uninitialized_session() {
    let state = fresh_state();
    let input = EmbeddingInput {
        input_ids: vec![vec![101i64, 102]],
        attention_mask: vec![vec![1i64, 1]],
        token_type_ids: vec![vec![0i64, 0]],
    };
    let r = embed_raw(&state, &input);
    assert!(matches!(r, Err(EmbedError::SessionNotInitialized)));
}
