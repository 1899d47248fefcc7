use mlx_rs::array::{Array, Dtype, Stream};
use mlx_rs::fast::paddleocr_rope_2d_qk_device;
use mlx_rs::rope_2d::{place_at, rotation_term, Place, RotationTerm};

/// A dense row-major array of 32-bit floating-point numbers.
#[derive(Clone)]
struct Dense {
    shape: Vec<i32>,
    values: Vec<f32>,
}

impl Dense {
    fn from_slice(values: &[f32], shape: &[i32]) -> Dense {
        let size: i32 = shape.iter().product();
        assert_eq!(size as usize, values.len());
        Dense { shape: shape.to_vec(), values: values.to_vec() }
    }

    fn full(shape: &[i32], value: f32) -> Dense {
        let size: i32 = shape.iter().product();
        Dense { shape: shape.to_vec(), values: vec![value; size as usize] }
    }

    fn reshape(&self, shape: &[i32]) -> Dense {
        Dense::from_slice(&self.values, shape)
    }

    fn strides(&self) -> Vec<usize> {
        let mut strides = vec![1usize; self.shape.len()];
        for axis in (1..self.shape.len()).rev() {
            strides[axis - 1] = strides[axis] * self.shape[axis] as usize;
        }
        strides
    }

    fn coordinates(&self, flat: usize) -> Vec<usize> {
        let strides = self.strides();
        let mut rest = flat;
        strides
            .iter()
            .map(|stride| {
                let coordinate = rest / stride;
                rest %= stride;
                coordinate
            })
            .collect()
    }

    fn transpose_axes(&self, axes: &[usize]) -> Dense {
        let strides = self.strides();
        let shape: Vec<i32> = axes.iter().map(|&axis| self.shape[axis]).collect();
        let result = Dense::full(&shape, 0.0);
        let values = (0..result.values.len())
            .map(|flat| {
                let place = result.coordinates(flat);
                let source: usize = axes
                    .iter()
                    .zip(&place)
                    .map(|(&axis, &coordinate)| strides[axis] * coordinate)
                    .sum();
                self.values[source]
            })
            .collect();
        Dense { shape, values }
    }

    fn last_axis(&self, range: std::ops::Range<usize>) -> Dense {
        let width = *self.shape.last().unwrap() as usize;
        let values = self
            .values
            .chunks(width)
            .flat_map(|row| row[range.clone()].to_vec())
            .collect();
        let mut shape = self.shape.clone();
        *shape.last_mut().unwrap() = range.len() as i32;
        Dense { shape, values }
    }

    fn concatenate_last(&self, other: &Dense) -> Dense {
        let width = *self.shape.last().unwrap() as usize;
        let other_width = *other.shape.last().unwrap() as usize;
        let values = self
            .values
            .chunks(width)
            .zip(other.values.chunks(other_width))
            .flat_map(|(left, right)| [left, right].concat())
            .collect();
        let mut shape = self.shape.clone();
        *shape.last_mut().unwrap() = (width + other_width) as i32;
        Dense { shape, values }
    }

    fn negated(&self) -> Dense {
        Dense { shape: self.shape.clone(), values: self.values.iter().map(|v| -v).collect() }
    }

    /// The product with an array of the same rank whose axes may have the length one.
    fn times(&self, other: &Dense) -> Dense {
        let strides = other.strides();
        let values = (0..self.values.len())
            .map(|flat| {
                let source: usize = self
                    .coordinates(flat)
                    .iter()
                    .zip(&other.shape)
                    .zip(&strides)
                    .map(|((&c, &len), &stride)| if len == 1 { 0 } else { c * stride })
                    .sum();
                self.values[flat] * other.values[source]
            })
            .collect();
        Dense { shape: self.shape.clone(), values }
    }

    fn plus(&self, other: &Dense) -> Dense {
        assert_eq!(self.shape, other.shape);
        let values = self.values.iter().zip(&other.values).map(|(a, b)| a + b).collect();
        Dense { shape: self.shape.clone(), values }
    }

    fn described(&self, dtype: Dtype) -> Array {
        Array::new(self.shape.clone(), dtype).unwrap()
    }

    fn rounded(&self, round: fn(f32) -> f32) -> Dense {
        Dense { shape: self.shape.clone(), values: self.values.iter().map(|&v| round(v)).collect() }
    }
}

/// The fused rotation: the form from the call, the elements from the rotation terms.
fn paddleocr_rope_2d_qk(qkv: &Dense, cosine: &Dense, sine: &Dense, dtype: Dtype) -> (Dense, Dtype) {
    let (q, c, s) = (qkv.described(dtype), cosine.described(dtype), sine.described(dtype));
    let stream = Stream { handle: 7 };
    let call = paddleocr_rope_2d_qk_device(&q, &c, &s, &stream);
    let forms = call.result_forms().unwrap();
    assert_eq!(forms.len(), 1);
    let tokens = qkv.shape[0] as u64;
    let size: i32 = forms[0].shape().iter().product();
    let values: Vec<f32> = (0..size as u64)
        .map(|position| {
            let term = rotation_term(tokens, position);
            let partner = qkv.values[term.partner as usize];
            let partner = if term.negate { -partner } else { partner };
            qkv.values[term.direct as usize] * cosine.values[term.trig as usize]
                + partner * sine.values[term.trig as usize]
        })
        .collect();
    (Dense::from_slice(&values, forms[0].shape()), forms[0].dtype())
}

fn assert_matches(label: &str, fused: &Dense, expected: &Dense, token_count: usize) {
    assert_eq!(fused.shape, expected.shape);
    let fused_values = &fused.values;
    let expected_values = &expected.values;
    let (flat_index, max_difference) = fused_values
        .iter()
        .zip(expected_values)
        .enumerate()
        .map(|(index, (actual, expected))| (index, (actual - expected).abs()))
        .max_by(|(_, left), (_, right)| left.total_cmp(right))
        .unwrap();
    let per_kind = 16 * token_count * 72;
    let kind = flat_index / per_kind;
    let within_kind = flat_index % per_kind;
    let head = within_kind / (token_count * 72);
    let within_head = within_kind % (token_count * 72);
    let token = within_head / 72;
    let dim = within_head % 72;
    assert_eq!(
        place_at(token_count as u64, flat_index as u64),
        Place { kind: kind as u64, head: head as u64, token: token as u64, dim: dim as u64 }
    );
    assert!(
        max_difference < 1e-5,
        "{label}: max difference was {max_difference} at \
         [kind={kind}, head={head}, token={token}, dim={dim}] \
         (fused={}, expected={})",
        fused_values[flat_index],
        expected_values[flat_index],
    );
}

#[test]
fn test_paddleocr_rope_2d_qk_matches_composed_graph() {
    let token_count = 2_i32;
    let qkv_values = (0..token_count * 3456)
        .map(|value| value as f32 * 0.001 - 2.0)
        .collect::<Vec<_>>();
    let cosine_values = (0..token_count * 72)
        .map(|value| 0.25 + value as f32 * 0.0001)
        .collect::<Vec<_>>();
    let sine_values = (0..token_count * 72)
        .map(|value| -0.5 + value as f32 * 0.0002)
        .collect::<Vec<_>>();
    let qkv = Dense::from_slice(&qkv_values, &[token_count, 3456]);
    let cosine_input = Dense::from_slice(&cosine_values, &[token_count, 1, 72]);
    let sine_input = Dense::from_slice(&sine_values, &[token_count, 1, 72]);

    let qk = qkv
        .last_axis(0..2304)
        .reshape(&[token_count, 2, 16, 72])
        .transpose_axes(&[1, 2, 0, 3]);
    let first = qk.last_axis(0..36);
    let second = qk.last_axis(36..72);
    let rotated = second.negated().concatenate_last(&first);
    let cosine = cosine_input.reshape(&[1, 1, token_count, 72]);
    let sine = sine_input.reshape(&[1, 1, token_count, 72]);
    let composed = qk.times(&cosine).plus(&rotated.times(&sine));

    let (fused, _) = paddleocr_rope_2d_qk(&qkv, &cosine_input, &sine_input, Dtype::Float32);
    assert_matches("general rotation", &fused, &composed, token_count as usize);

    let identity_cosine = Dense::full(&[token_count, 1, 72], 1.0);
    let identity_sine = Dense::full(&[token_count, 1, 72], 0.0);
    let identity_cosine_broadcast = identity_cosine.reshape(&[1, 1, token_count, 72]);
    let identity_sine_broadcast = identity_sine.reshape(&[1, 1, token_count, 72]);
    let identity_expected =
        qk.times(&identity_cosine_broadcast).plus(&rotated.times(&identity_sine_broadcast));
    let (identity_fused, _) =
        paddleocr_rope_2d_qk(&qkv, &identity_cosine, &identity_sine, Dtype::Float32);
    assert_matches(
        "identity rotation",
        &identity_fused,
        &identity_expected,
        token_count as usize,
    );

    let rotation_cosine = Dense::full(&[token_count, 1, 72], 0.0);
    let rotation_sine = Dense::full(&[token_count, 1, 72], 1.0);
    let rotation_cosine_broadcast = rotation_cosine.reshape(&[1, 1, token_count, 72]);
    let rotation_sine_broadcast = rotation_sine.reshape(&[1, 1, token_count, 72]);
    let rotation_expected =
        qk.times(&rotation_cosine_broadcast).plus(&rotated.times(&rotation_sine_broadcast));
    let (rotation_fused, _) =
        paddleocr_rope_2d_qk(&qkv, &rotation_cosine, &rotation_sine, Dtype::Float32);
    assert_matches(
        "pure rotation",
        &rotation_fused,
        &rotation_expected,
        token_count as usize,
    );
}

/// Drops the last `bits` bits of a number's significand, with the round-half-even rule.
fn rounded_off(value: f32, bits: u32) -> f32 {
    let pattern = value.to_bits();
    let odd = (pattern >> bits) & 1;
    let half = (1u32 << (bits - 1)) - 1 + odd;
    f32::from_bits(((pattern + half) >> bits) << bits)
}

/// What a number of the range of these tests becomes as FP16.
fn as_float16(value: f32) -> f32 {
    if value.abs() < 6.103515625e-5 {
        let steps = (value * 16777216.0).round();
        steps / 16777216.0
    } else {
        rounded_off(value, 13)
    }
}

/// What a number becomes as BF16.
fn as_bfloat16(value: f32) -> f32 {
    rounded_off(value, 16)
}

#[test]
fn test_paddleocr_rope_2d_qk_accepts_low_precision_inputs() {
    let token_count = 2_i32;
    let qkv = Dense::from_slice(
        &(0..token_count * 3456)
            .map(|value| value as f32 * 0.001 - 2.0)
            .collect::<Vec<_>>(),
        &[token_count, 3456],
    );
    let cosine = Dense::full(&[token_count, 1, 72], 1.0);
    let sine = Dense::full(&[token_count, 1, 72], 0.125);

    let roundings: [(Dtype, fn(f32) -> f32); 2] =
        [(Dtype::Float16, as_float16), (Dtype::Bfloat16, as_bfloat16)];
    for (dtype, round) in roundings {
        let (output, output_dtype) = paddleocr_rope_2d_qk(
            &qkv.rounded(round),
            &cosine.rounded(round),
            &sine.rounded(round),
            dtype,
        );
        assert_eq!(output.shape, [2, 16, token_count, 72]);
        assert_eq!(output_dtype, dtype);

        let output = output.rounded(round);
        assert!(output.values.iter().all(|value| value.is_finite()));
    }
}

#[test]
fn rotation_terms_of_single_elements() {
    // Query, head 0, token 0, first half: the partner is 36 elements on, and negated.
    assert_eq!(
        rotation_term(2, 0),
        RotationTerm { direct: 0, partner: 36, negate: true, trig: 0 }
    );
    // The same head, second half.
    assert_eq!(
        rotation_term(2, 40),
        RotationTerm { direct: 40, partner: 4, negate: false, trig: 40 }
    );
    // Query, head 0, token 1, dim 5.
    assert_eq!(
        rotation_term(2, 72 + 5),
        RotationTerm { direct: 3456 + 5, partner: 3456 + 41, negate: true, trig: 77 }
    );
    // Key, head 15, token 1, dim 71: the last element.
    assert_eq!(
        rotation_term(2, 2 * 16 * 2 * 72 - 1),
        RotationTerm { direct: 3456 + 2303, partner: 3456 + 2267, negate: false, trig: 143 }
    );
    // The largest number of tokens that a shape can hold.
    let tokens = i32::MAX as u64;
    let last = rotation_term(tokens, 2 * 16 * tokens * 72 - 1);
    assert_eq!(last.direct, (tokens - 1) * 3456 + 2303);
    assert_eq!(last.trig, tokens * 72 - 1);
}

#[test]
fn values_are_left_alone_and_every_query_and_key_is_used_once() {
    let tokens = 3u64;
    let mut uses = vec![0; 3 * 3456];
    for position in 0..2 * 16 * tokens * 72 {
        uses[rotation_term(tokens, position).direct as usize] += 1;
    }
    for (index, count) in uses.iter().enumerate() {
        let expected = if index % 3456 < 2304 { 1 } else { 0 };
        assert_eq!(*count, expected, "element {index}");
    }
}

#[test]
fn rotating_twice_negates() {
    let tokens = 2u64;
    for position in 0..2 * 16 * tokens * 72 {
        let once = rotation_term(tokens, position);
        let other = if once.negate { position + 36 } else { position - 36 };
        let twice = rotation_term(tokens, other);
        assert_eq!(twice.partner, once.direct);
        assert_eq!(twice.direct, once.partner);
        assert_ne!(twice.negate, once.negate);
    }
}

#[test]
fn places_of_single_elements() {
    assert_eq!(place_at(1, 0), Place { kind: 0, head: 0, token: 0, dim: 0 });
    assert_eq!(place_at(5, 16 * 5 * 72), Place { kind: 1, head: 0, token: 0, dim: 0 });
    assert_eq!(place_at(5, 3 * 5 * 72 + 4 * 72 + 71), Place { kind: 0, head: 3, token: 4, dim: 71 });
}
