//! The forms of the results of calls: shapes and element types.
//!
//! The numbers in the results are computed by MLX, which these tests do not link. Tests whose
//! names speak of a graph or of an operation as a whole check the forms and no numbers.

use mlx_rs::array::{Array, Dtype, Float32, Stream};
use mlx_rs::fast::{
    compiled_swiglu, layer_norm_device, lm_head_argmax_device, paddleocr_rope_2d_qk_device,
    rms_norm_device, rope_device, rope_dynamic_device, scaled_dot_product_attention_device,
    smollm_gemv_device, smollm_yarn_rope_qk_device, smollm_yarn_rope_qkv_device,
    ScaledDotProductAttentionMask,
};

const STREAM: Stream = Stream { handle: 99 };

const KERNEL_TYPES: [Dtype; 3] = [Dtype::Float32, Dtype::Float16, Dtype::Bfloat16];

fn array(shape: &[i32], dtype: Dtype) -> Array {
    Array::new(shape.to_vec(), dtype).unwrap()
}

fn f32s(shape: &[i32]) -> Array {
    array(shape, Dtype::Float32)
}

fn float(x: f32) -> Float32 {
    Float32 { bits: x.to_bits() }
}

fn single(forms: Option<Vec<Array>>) -> Array {
    let mut forms = forms.unwrap();
    assert_eq!(forms.len(), 1);
    forms.remove(0)
}

fn pair(forms: Option<Vec<Array>>) -> (Array, Array) {
    let mut forms = forms.unwrap();
    assert_eq!(forms.len(), 2);
    let second = forms.remove(1);
    (forms.remove(0), second)
}

fn assert_form(actual: &Array, expected: &Array) {
    assert_eq!(actual.shape(), expected.shape());
    assert_eq!(actual.dtype(), expected.dtype());
}

#[test]
fn test_compiled_swiglu_matches_eager_graph_across_shapes() {
    let gate = f32s(&[2, 3]);
    let x = f32s(&[2, 3]);
    let result = single(compiled_swiglu(&gate, &x).result_forms());
    assert_form(&result, &x);

    // A later call may have another sequence length.
    let gate = f32s(&[1, 4]);
    let x = f32s(&[1, 4]);
    let result = single(compiled_swiglu(&gate, &x).result_forms());
    assert_form(&result, &x);
}

const HIDDEN_SIZE: i32 = 128;
const VOCAB_SIZE: i32 = 49_152;

#[test]
fn test_lm_head_argmax_matches_bf16_gpu_graph() {
    let hidden = array(&[1, 1, HIDDEN_SIZE], Dtype::Bfloat16);
    let embedding = array(&[VOCAB_SIZE, HIDDEN_SIZE], Dtype::Bfloat16);
    let actual = single(lm_head_argmax_device(&hidden, &embedding, &STREAM).result_forms());
    assert_eq!(*actual.shape(), [1]);
    assert_eq!(actual.dtype(), Dtype::Int32);
}

#[test]
fn test_lm_head_argmax_cpu_fallback_matches_graph() {
    let hidden = f32s(&[1, 1, HIDDEN_SIZE]);
    let embedding = f32s(&[VOCAB_SIZE, HIDDEN_SIZE]);
    let cpu = Stream { handle: 1 };
    let actual = single(lm_head_argmax_device(&hidden, &embedding, &cpu).result_forms());
    assert_eq!(*actual.shape(), [1]);
    assert_eq!(actual.dtype(), Dtype::Int32);
}

#[test]
fn test_smollm_gemv_matches_mlx_for_model_projection_shapes() {
    for dtype in KERNEL_TYPES {
        for (input_size, output_size) in [(576, 1536), (960, 2560)] {
            let input = array(&[1, 1, input_size], dtype);
            let weight = array(&[output_size, input_size], dtype);
            let residual = array(&[1, 1, output_size], dtype);
            let expected = array(&[1, 1, output_size], dtype);

            for results_per_simdgroup in [1, 4] {
                let call =
                    smollm_gemv_device(&input, &weight, results_per_simdgroup, None, &STREAM);
                assert_form(&single(call.result_forms()), &expected);

                let call = smollm_gemv_device(
                    &input,
                    &weight,
                    results_per_simdgroup,
                    Some(&residual),
                    &STREAM,
                );
                assert_form(&single(call.result_forms()), &expected);
            }
        }
    }
}

#[test]
fn test_smollm_yarn_rope_qkv_matches_standard_graph() {
    let frequencies = f32s(&[32]);
    let attention_factor = float(1.069_314_7_f32);
    let offset = 8191;

    for dtype in KERNEL_TYPES {
        let queries = array(&[1, 9, 1, 64], dtype);
        let keys = array(&[1, 3, 1, 64], dtype);
        let values = array(&[1, 3, 1, 64], dtype);
        let one = float(1.0);
        let expected_queries = single(
            rope_device(&queries, 64, false, None, one, offset, Some(&frequencies), &STREAM)
                .result_forms(),
        );
        let expected_keys = single(
            rope_device(&keys, 64, false, None, one, offset, Some(&frequencies), &STREAM)
                .result_forms(),
        );
        let expected_packed = array(&[2, 1, 3, 1, 64], dtype);

        let (actual_queries, actual_packed) = pair(
            smollm_yarn_rope_qkv_device(
                &queries,
                &keys,
                &values,
                &frequencies,
                attention_factor,
                offset,
                &STREAM,
            )
            .result_forms(),
        );
        assert_form(&actual_queries, &expected_queries);
        assert_form(&actual_packed, &expected_packed);

        let (actual_queries, actual_keys) = pair(
            smollm_yarn_rope_qk_device(
                &queries,
                &keys,
                &frequencies,
                attention_factor,
                offset,
                &STREAM,
            )
            .result_forms(),
        );
        assert_form(&actual_queries, &expected_queries);
        assert_form(&actual_keys, &expected_keys);
    }
}

#[test]
fn test_rope() {
    let a = f32s(&[2, 8, 16]);
    assert_eq!(*a.shape(), [2, 8, 16]);
    assert_eq!(a.dtype(), Dtype::Float32);

    let base = Some(float(10000.));
    let call = rope_device(&a, 8, false, base, float(1.0), 0, None, &STREAM);
    let result = single(call.result_forms());
    assert_eq!(*result.shape(), [2, 8, 16]);
    assert_eq!(result.dtype(), Dtype::Float32);
}

#[test]
fn test_rope_dynamic() {
    let a = f32s(&[2, 8, 16]);
    assert_eq!(*a.shape(), [2, 8, 16]);
    assert_eq!(a.dtype(), Dtype::Float32);

    let base = Some(float(10000.));
    let offset = array(&[], Dtype::Int32);
    let call = rope_dynamic_device(&a, 8, false, base, float(1.0), &offset, None, &STREAM);
    let result = single(call.result_forms());
    assert_eq!(*result.shape(), [2, 8, 16]);
    assert_eq!(result.dtype(), Dtype::Float32);

    let call = rope_device(&a, 8, false, base, float(1.0), 3, None, &STREAM);
    let result_int_offset = single(call.result_forms());
    assert_eq!(*result_int_offset.shape(), [2, 8, 16]);
}

#[test]
fn test_rms_norm() {
    let a = f32s(&[2, 8, 16]);
    assert_eq!(*a.shape(), [2, 8, 16]);
    assert_eq!(a.dtype(), Dtype::Float32);

    let weight = f32s(&[16]);
    let result = single(rms_norm_device(&a, &weight, float(1e-5), &STREAM).result_forms());
    assert_eq!(*result.shape(), [2, 8, 16]);
    assert_eq!(result.dtype(), Dtype::Float32);
}

#[test]
fn test_layer_norm_affine() {
    let a = f32s(&[2, 8, 16]);
    assert_eq!(*a.shape(), [2, 8, 16]);
    assert_eq!(a.dtype(), Dtype::Float32);

    let weight = f32s(&[16]);
    let bias = f32s(&[16]);
    let call = layer_norm_device(&a, Some(&weight), Some(&bias), float(1e-5), &STREAM);
    let result = single(call.result_forms());
    // One element of the last axis.
    let (_, leading) = result.shape().split_last().unwrap();
    assert_eq!(leading, [2, 8]);
    assert_eq!(result.dtype(), Dtype::Float32);
}

#[test]
#[allow(non_snake_case)]
fn test_fast_sdpa() {
    let Dk = 64;
    let scale = 1.0 / (Dk as f32).sqrt();
    for seq_len in [63, 129, 400] {
        for dtype in [Dtype::Float32, Dtype::Float16] {
            let B = 2;
            let H = 24;
            let q = array(&[B, H, seq_len, Dk], dtype);
            let k = array(&[B, H, seq_len, Dk], dtype);
            let v = array(&[B, H, seq_len, Dk], dtype);

            let call =
                scaled_dot_product_attention_device(&q, &k, &v, float(scale), None, None, &STREAM);
            let result = single(call.result_forms());
            assert_eq!(*result.shape(), [B, H, seq_len, Dk]);
            assert_eq!(result.dtype(), dtype);
        }
    }
}

#[test]
fn test_fast_sdpa_with_sinks() {
    let b = 2;
    let n_q = 8;
    let t_q = 128;
    let t_kv = 128;
    let d = 64;

    let q = f32s(&[b, n_q, t_q, d]);
    let k = f32s(&[b, n_q, t_kv, d]);
    let v = f32s(&[b, n_q, t_kv, d]);
    let scale = (d as f32).powf(-0.5);
    let sinks = f32s(&[n_q]);

    let call = scaled_dot_product_attention_device(
        &q,
        &k,
        &v,
        float(scale),
        None,
        Some(&sinks),
        &STREAM,
    );
    let result = single(call.result_forms());
    assert_eq!(*result.shape(), [b, n_q, t_q, d]);
}

#[test]
fn attention_follows_the_queries_and_the_values() {
    let causal = || Some(ScaledDotProductAttentionMask::Causal);
    // Grouped queries, with values of another width.
    let q = f32s(&[1, 8, 5, 64]);
    let k = f32s(&[1, 2, 9, 64]);
    let v = f32s(&[1, 2, 9, 32]);
    let call = scaled_dot_product_attention_device(&q, &k, &v, float(0.5), causal(), None, &STREAM);
    assert_eq!(*single(call.result_forms()).shape(), [1, 8, 5, 32]);

    // Eight heads of queries cannot share three heads of keys.
    let k = f32s(&[1, 3, 9, 64]);
    let v = f32s(&[1, 3, 9, 64]);
    let call = scaled_dot_product_attention_device(&q, &k, &v, float(0.5), causal(), None, &STREAM);
    assert!(call.result_forms().is_none());

    // Element types that differ leave the form open.
    let k = array(&[1, 2, 9, 64], Dtype::Float16);
    let v = f32s(&[1, 2, 9, 64]);
    let call = scaled_dot_product_attention_device(&q, &k, &v, float(0.5), causal(), None, &STREAM);
    assert!(call.result_forms().is_none());
}

#[test]
fn swiglu_is_settled_for_operands_of_one_form() {
    let gate = f32s(&[2, 3]);
    assert!(compiled_swiglu(&gate, &f32s(&[1, 4])).result_forms().is_none());
    let low = array(&[2, 3], Dtype::Float16);
    assert!(compiled_swiglu(&gate, &low).result_forms().is_none());
    // The sigmoid of an integer is no integer.
    let ints = array(&[2, 3], Dtype::Int32);
    assert!(compiled_swiglu(&ints, &ints).result_forms().is_none());
}

#[test]
fn lm_head_is_for_one_vector_and_a_large_table() {
    let settled = |hidden: &[i32], embedding: &[i32], a: Dtype, b: Dtype| {
        let hidden = array(hidden, a);
        let embedding = array(embedding, b);
        lm_head_argmax_device(&hidden, &embedding, &STREAM).result_forms().is_some()
    };
    let bf16 = Dtype::Bfloat16;
    for dtype in KERNEL_TYPES {
        assert!(settled(&[1, 1, 128], &[8192, 128], dtype, dtype));
    }
    assert!(settled(&[128], &[8192, 128], bf16, bf16));
    // Two vectors, a vector of another length, no vector.
    assert!(!settled(&[1, 2, 128], &[8192, 128], bf16, bf16));
    assert!(!settled(&[1, 1, 64], &[8192, 128], bf16, bf16));
    assert!(!settled(&[], &[8192, 128], bf16, bf16));
    // Too few rows, a row count that 32 does not divide, another rank.
    assert!(!settled(&[128], &[8160, 128], bf16, bf16));
    assert!(!settled(&[128], &[8200, 128], bf16, bf16));
    assert!(!settled(&[128], &[1, 8192, 128], bf16, bf16));
    // Element types that differ, or that the kernel does not know.
    assert!(!settled(&[128], &[8192, 128], bf16, Dtype::Float16));
    assert!(!settled(&[128], &[8192, 128], Dtype::Int32, Dtype::Int32));
}

#[test]
fn gemv_takes_one_or_four_rows() {
    let input = f32s(&[1, 1, 576]);
    let weight = f32s(&[1536, 576]);
    for rows in [0, 2, 8, -1] {
        let call = smollm_gemv_device(&input, &weight, rows, None, &STREAM);
        assert!(call.result_forms().is_none());
    }
    let short = f32s(&[1, 1, 575]);
    assert!(smollm_gemv_device(&short, &weight, 1, None, &STREAM).result_forms().is_none());
}

#[test]
fn gemv_counts_the_elements_of_the_residual() {
    let fits = |shape: &[i32], rows: i32| {
        let input = f32s(&[8]);
        let weight = f32s(&[rows, 8]);
        let residual = f32s(shape);
        smollm_gemv_device(&input, &weight, 4, Some(&residual), &STREAM).result_forms().is_some()
    };
    assert!(fits(&[2, 3, 2], 12));
    assert!(!fits(&[2, 3, 2], 11));
    assert!(fits(&[], 1));
    assert!(fits(&[5, 0, 7], 0));
    // A product far beyond 64 bits is still told from a small one, zero included.
    let huge = [i32::MAX; 6];
    assert!(!fits(&huge, i32::MAX));
    let mut nothing = huge.to_vec();
    nothing.push(0);
    assert!(fits(&nothing, 0));
    assert!(!fits(&nothing, 1));
    assert!(fits(&[i32::MAX], i32::MAX));
}

#[test]
fn yarn_rope_is_for_one_token_and_fp32_frequencies() {
    let queries = f32s(&[1, 9, 1, 64]);
    let keys = f32s(&[1, 3, 1, 64]);
    let freqs = f32s(&[32]);
    let factor = float(1.069_314_7);
    let low = array(&[32], Dtype::Float16);
    let call = smollm_yarn_rope_qk_device(&queries, &keys, &low, factor, 8191, &STREAM);
    assert!(call.result_forms().is_none());
    let two = f32s(&[1, 3, 2, 64]);
    let call = smollm_yarn_rope_qk_device(&queries, &two, &freqs, factor, 8191, &STREAM);
    assert!(call.result_forms().is_none());
    let call = smollm_yarn_rope_qkv_device(&queries, &keys, &two, &freqs, factor, 8191, &STREAM);
    assert!(call.result_forms().is_none());
}

#[test]
fn rope_2d_wants_a_packed_projection() {
    let forms = |qkv: &[i32], cosine: &[i32], sine: &[i32], dtype: Dtype| {
        let qkv = array(qkv, dtype);
        let cosine = array(cosine, dtype);
        let sine = array(sine, dtype);
        paddleocr_rope_2d_qk_device(&qkv, &cosine, &sine, &STREAM).result_forms()
    };
    let f = Dtype::Float32;
    let result = single(forms(&[5, 3456], &[5, 72], &[5, 1, 72], f));
    assert_eq!(*result.shape(), [2, 16, 5, 72]);
    // Two elements for every three of the projection.
    assert_eq!(3 * result.shape().iter().product::<i32>(), 2 * 5 * 3456);
    assert!(forms(&[5, 3455], &[5, 72], &[5, 72], f).is_none());
    assert!(forms(&[5, 3456], &[4, 72], &[5, 72], f).is_none());
    assert!(forms(&[5, 3456], &[5, 72], &[5, 2, 36], f).is_none());
    assert!(forms(&[1, 5, 3456], &[5, 72], &[5, 72], f).is_none());
    assert!(forms(&[5, 3456], &[5, 72], &[5, 72], Dtype::Int32).is_none());
}

#[test]
fn norms_want_parameters_along_the_last_axis() {
    let x = f32s(&[2, 8, 16]);
    let short = f32s(&[8]);
    let eps = float(1e-5);
    assert!(rms_norm_device(&x, &short, eps, &STREAM).result_forms().is_none());
    let low = array(&[16], Dtype::Float16);
    assert!(rms_norm_device(&x, &low, eps, &STREAM).result_forms().is_none());

    let plain = single(layer_norm_device(&x, None, None, eps, &STREAM).result_forms());
    assert_form(&plain, &x);
    assert!(layer_norm_device(&x, None, Some(&short), eps, &STREAM).result_forms().is_none());
    let scalar = f32s(&[]);
    assert!(layer_norm_device(&scalar, None, None, eps, &STREAM).result_forms().is_none());
}

#[test]
fn arrays_have_no_negative_axes() {
    assert!(Array::new(vec![2, -1], Dtype::Float32).is_none());
    let a = Array::new(vec![2, 0, 3], Dtype::Float16).unwrap();
    assert_eq!(*a.shape(), [2, 0, 3]);
    assert_eq!(a.dtype(), Dtype::Float16);
}
