use mlx_rs::array::{optional_float, ArrayArg, Float32, Stream};
use mlx_rs::error::outcome;
use mlx_rs::fast::{
    compiled_swiglu, layer_norm_device, lm_head_argmax_device, paddleocr_rope_2d_qk_device,
    rms_norm_device, rope_device, rope_dynamic_device, scaled_dot_product_attention_device,
    smollm_gemv_device, smollm_yarn_rope_qk_device, smollm_yarn_rope_qkv_device, Call, IntoOption,
    ScaledDotProductAttentionMask,
};

const STREAM: Stream = Stream { handle: 99 };

type Mask<'a> = ScaledDotProductAttentionMask<'a, u32>;

fn float(x: f32) -> Float32 {
    Float32 { bits: x.to_bits() }
}

fn given(arg: &ArrayArg<'_, u32>) -> Option<u32> {
    match arg {
        ArrayArg::Given(a) => Some(**a),
        ArrayArg::Empty => None,
    }
}

#[test]
fn swiglu_hands_over_gate_and_x() {
    let call = compiled_swiglu(&1, &2);
    assert_eq!(call.result_count(), 1);
    match call {
        Call::CompiledSwiglu { gate, x } => assert_eq!((gate, x), (&1, &2)),
        _ => unreachable!(),
    }
}

#[test]
fn lm_head_hands_over_hidden_and_embedding() {
    let call = lm_head_argmax_device(&1, &2, &STREAM);
    assert_eq!(call.result_count(), 1);
    match call {
        Call::LmHeadArgmax { hidden, embedding, stream } => {
            assert_eq!((hidden, embedding, stream), (&1, &2, STREAM));
        }
        _ => unreachable!(),
    }
}

#[test]
fn gemv_hands_over_an_optional_residual() {
    for rows in [1, 4, 3] {
        for added in [None, Some(&7)] {
            match smollm_gemv_device(&1, &2, rows, added, &STREAM) {
                Call::SmollmGemv { input, weight, residual, results_per_simdgroup, stream } => {
                    assert_eq!((input, weight), (&1, &2));
                    assert_eq!(given(&residual), added.copied());
                    assert_eq!(results_per_simdgroup, rows);
                    assert_eq!(stream, STREAM);
                }
                _ => unreachable!(),
            }
        }
    }
}

#[test]
fn yarn_rope_hands_over_factor_and_offset() {
    let factor = float(1.069_314_7);
    let call = smollm_yarn_rope_qkv_device(&1, &2, &3, &4, factor, 8191, &STREAM);
    assert_eq!(call.result_count(), 2);
    match call {
        Call::SmollmYarnRopeQkv {
            queries,
            keys,
            values,
            freqs,
            attention_factor,
            offset,
            stream,
        } => {
            assert_eq!((queries, keys, values, freqs), (&1, &2, &3, &4));
            assert_eq!((attention_factor, offset, stream), (factor, 8191, STREAM));
        }
        _ => unreachable!(),
    }

    let call = smollm_yarn_rope_qk_device(&1, &2, &4, factor, 8191, &STREAM);
    assert_eq!(call.result_count(), 2);
    match call {
        Call::SmollmYarnRopeQk { queries, keys, freqs, attention_factor, offset, stream } => {
            assert_eq!((queries, keys, freqs), (&1, &2, &4));
            assert_eq!((attention_factor, offset, stream), (factor, 8191, STREAM));
        }
        _ => unreachable!(),
    }
}

#[test]
fn rope_tells_an_absent_base_from_zero() {
    match rope_device(&1, 8, false, Some(float(10000.0)), float(1.0), 3, None, &STREAM) {
        Call::Rope { array, dimensions, traditional, base, scale, offset, freqs, stream } => {
            assert_eq!(array, &1);
            assert_eq!((dimensions, traditional, offset), (8, false, 3));
            assert_eq!((base.value, base.has_value), (float(10000.0), true));
            assert_eq!(scale, float(1.0));
            assert_eq!(given(&freqs), None);
            assert_eq!(stream, STREAM);
        }
        _ => unreachable!(),
    }
    match rope_device(&1, 8, true, None, float(1.0), 0, Some(&2), &STREAM) {
        Call::Rope { base, freqs, traditional, .. } => {
            assert_eq!((base.value, base.has_value), (float(0.0), false));
            assert_eq!(given(&freqs), Some(2));
            assert!(traditional);
        }
        _ => unreachable!(),
    }
    assert_ne!(optional_float(None), optional_float(Some(float(0.0))));
}

#[test]
fn rope_dynamic_takes_its_offset_as_an_array() {
    let base = Some(float(10000.0));
    match rope_dynamic_device(&1, 8, false, base, float(1.0), &5, Some(&2), &STREAM) {
        Call::RopeDynamic { array, dimensions, traditional, base, scale, offset, freqs, stream } => {
            assert_eq!((array, offset), (&1, &5));
            assert_eq!((dimensions, traditional), (8, false));
            assert_eq!((base.value, base.has_value), (float(10000.0), true));
            assert_eq!(scale, float(1.0));
            assert_eq!(given(&freqs), Some(2));
            assert_eq!(stream, STREAM);
        }
        _ => unreachable!(),
    }
}

#[test]
fn rope_2d_hands_over_projection_cosine_and_sine() {
    match paddleocr_rope_2d_qk_device(&1, &2, &3, &STREAM) {
        Call::PaddleocrRope2dQk { qkv, cosine, sine, stream } => {
            assert_eq!((qkv, cosine, sine, stream), (&1, &2, &3, STREAM));
        }
        _ => unreachable!(),
    }
}

#[test]
fn norms_hand_over_their_parameters() {
    let eps = float(1e-5);
    match rms_norm_device(&1, &2, eps, &STREAM) {
        Call::RmsNorm { x, weight, eps: e, stream } => {
            assert_eq!((x, weight, e, stream), (&1, &2, eps, STREAM));
        }
        _ => unreachable!(),
    }
    for (scaled, shifted) in [(None, None), (Some(&2), None), (None, Some(&3)), (Some(&2), Some(&3))]
    {
        match layer_norm_device(&1, scaled, shifted, eps, &STREAM) {
            Call::LayerNorm { x, weight, bias, eps: e, stream } => {
                assert_eq!((x, e, stream), (&1, eps, STREAM));
                assert_eq!(given(&weight), scaled.copied());
                assert_eq!(given(&bias), shifted.copied());
            }
            _ => unreachable!(),
        }
    }
}

/// The mode and the array by which a mask is handed over.
fn told<'a>(mask: impl IntoOption<Mask<'a>>) -> (String, Option<u32>) {
    match scaled_dot_product_attention_device(&1, &2, &3, float(0.5), mask, Some(&8), &STREAM) {
        Call::ScaledDotProductAttention {
            queries,
            keys,
            values,
            scale,
            mask_mode,
            mask,
            sinks,
            stream,
        } => {
            assert_eq!((queries, keys, values), (&1, &2, &3));
            assert_eq!(scale, float(0.5));
            assert_eq!(given(&sinks), Some(8));
            assert_eq!(stream, STREAM);
            (mask_mode.to_string(), given(&mask))
        }
        _ => unreachable!(),
    }
}

#[test]
fn attention_masks_are_told_apart() {
    assert_eq!(told(None), (String::new(), None));
    assert_eq!(told(Some(Mask::Causal)), ("causal".to_string(), None));
    assert_eq!(told(Some(Mask::from(&4))), (String::new(), Some(4)));
    // An array given as the mask itself.
    assert_eq!(told(&4), (String::new(), Some(4)));

    let option: Option<Mask> = (&4).into_option();
    assert!(matches!(option, Some(ScaledDotProductAttentionMask::Array(4))));
    let (mode, mask) = Mask::Causal.as_mode_and_mask();
    assert_eq!(mode, "causal");
    assert_eq!(given(&mask), None);
    let (mode, mask) = Mask::Array(&4).as_mode_and_mask();
    assert_eq!(mode, "");
    assert_eq!(given(&mask), Some(4));
}

#[test]
fn absent_sinks_are_handed_over_as_the_empty_array() {
    let none: Option<Mask> = None;
    match scaled_dot_product_attention_device(&1, &2, &3, float(0.5), none, None, &STREAM) {
        Call::ScaledDotProductAttention { sinks, .. } => assert_eq!(given(&sinks), None),
        _ => unreachable!(),
    }
}

#[test]
fn an_answer_counts_only_under_the_status_of_success() {
    assert_eq!(outcome(0, 5, String::new()).unwrap(), 5);
    assert_eq!(outcome(1, 5, "[rope] failed".to_string()).unwrap_err().what, "[rope] failed");
    assert_eq!(outcome(-1, (), "other".to_string()).unwrap_err().what, "other");
}
