//! The shapes and element types that the fused operations take and give.
//!
//! What stands here is a model of the documentation, not of MLX, which alone decides whether an
//! operation succeeds and what comes of it. The form of the results is settled here for inputs
//! that an operation documents and whose element types agree and are FP32, FP16 or BF16. Where
//! they differ, or are others, MLX chooses the element type of the result, and the form is left
//! open.

use crate::array::{is_shape, size_of, Array, ArrayArg, ArrayView, Dtype};
use crate::fast::Call;
use crate::rope_2d::{result_len, HEADS, HEAD_DIM, PACKED_ROW};
use vstd::prelude::*;

verus! {

/// Several forms as the contracts see them.
pub open spec fn forms_view(forms: Seq<Array>) -> Seq<ArrayView> {
    Seq::new(forms.len(), |i: int| forms[i]@)
}

/// Whether an array of this shape contains one vector of `k` elements and nothing else.
pub open spec fn one_vector(shape: Seq<i32>, k: int) -> bool {
    &&& shape.len() >= 1
    &&& shape.last() == k
    &&& forall|i: int| 0 <= i < shape.len() - 1 ==> #[trigger] shape[i] == 1
}

/// Whether the form of `silu(gate) * x` is settled: the operands have one form. What MLX
/// broadcasts or converts is left open.
pub open spec fn swiglu_inputs(gate: ArrayView, x: ArrayView) -> bool {
    &&& gate == x
    &&& gate.dtype.kernel_float()
}

/// Whether the form of a normalized array is settled: it has a last axis, and elements of the
/// kernels' types.
pub open spec fn normalized(x: ArrayView) -> bool {
    &&& x.shape.len() >= 1
    &&& x.dtype.kernel_float()
}

/// Whether a parameter of a normalization has one element for each along the last axis of `x`,
/// as is documented, and of the type of `x`, without which the form is left open.
pub open spec fn along_last_axis(x: ArrayView, p: ArrayView) -> bool {
    &&& normalized(x)
    &&& p.shape.len() == 1
    &&& p.shape[0] == x.shape.last()
    &&& p.dtype == x.dtype
}

/// The same of a parameter that may be left out.
pub open spec fn along_last_axis_if_given(x: ArrayView, p: ArrayArg<'_, Array>) -> bool {
    match p {
        ArrayArg::Given(a) => along_last_axis(x, a@),
        ArrayArg::Empty => normalized(x),
    }
}

/// Whether an array holds one token of 64 elements for each head: `[B, heads, 1, 64]`.
pub open spec fn one_token_of_64(shape: Seq<i32>) -> bool {
    shape.len() == 4 && shape[2] == 1 && shape[3] == 64
}

/// Whether an array holds 72 cosines or sines for each of `tokens` tokens: `[L, 72]` or
/// `[L, 1, 72]`.
pub open spec fn trig_of_72(shape: Seq<i32>, tokens: i32) -> bool {
    ||| shape.len() == 2 && shape[0] == tokens && shape[1] == 72
    ||| shape.len() == 3 && shape[0] == tokens && shape[1] == 1 && shape[2] == 72
}

/// Whether `argmax(hidden @ embedding.T)` is for these arrays: one vector, at least 8192 rows, a
/// row count that 32 divides, and matching FP32, FP16 or BF16 elements.
pub open spec fn lm_head_inputs(hidden: ArrayView, embedding: ArrayView) -> bool {
    &&& embedding.shape.len() == 2
    &&& embedding.shape[0] >= 8192
    &&& embedding.shape[0] % 32 == 0
    &&& one_vector(hidden.shape, embedding.shape[1] as int)
    &&& hidden.dtype == embedding.dtype
    &&& hidden.dtype.kernel_float()
}

/// Whether the single-vector matrix product is for these arrays and this tile, and its form is
/// settled: the element types agree.
pub open spec fn gemv_inputs(
    input: ArrayView,
    weight: ArrayView,
    residual: ArrayArg<'_, Array>,
    results_per_simdgroup: i32,
) -> bool {
    &&& weight.shape.len() == 2
    &&& one_vector(input.shape, weight.shape[1] as int)
    &&& input.dtype == weight.dtype
    &&& input.dtype.kernel_float()
    &&& match residual {
        ArrayArg::Given(a) => size_of(a@.shape) == weight.shape[0] && a@.dtype == weight.dtype,
        ArrayArg::Empty => true,
    }
    &&& results_per_simdgroup == 1 || results_per_simdgroup == 4
}

/// Whether the one-token rotation is for these queries, keys and frequencies, and its form is
/// settled: queries and keys agree in their element type.
pub open spec fn yarn_inputs(queries: ArrayView, keys: ArrayView, freqs: ArrayView) -> bool {
    &&& one_token_of_64(queries.shape)
    &&& one_token_of_64(keys.shape)
    &&& queries.shape[0] == keys.shape[0]
    &&& queries.dtype == keys.dtype
    &&& queries.dtype.kernel_float()
    &&& freqs.dtype is Float32
}

/// Whether the two-dimensional rotation is for these arrays.
pub open spec fn rope_2d_inputs(qkv: ArrayView, cosine: ArrayView, sine: ArrayView) -> bool {
    &&& qkv.shape.len() == 2
    &&& qkv.shape[1] == 3456
    &&& trig_of_72(cosine.shape, qkv.shape[0])
    &&& trig_of_72(sine.shape, qkv.shape[0])
    &&& cosine.dtype == qkv.dtype
    &&& sine.dtype == qkv.dtype
    &&& qkv.dtype.kernel_float()
}

/// Whether attention is for these arrays: queries `[B, H, L, D]`, keys `[B, G, S, D]` and
/// values `[B, G, S, E]`, where each of the `G` heads of keys serves equally many of the `H`
/// heads of queries; and whether its form is settled: the element types agree.
pub open spec fn attention_inputs(queries: ArrayView, keys: ArrayView, values: ArrayView) -> bool {
    &&& queries.shape.len() == 4
    &&& keys.shape.len() == 4
    &&& values.shape.len() == 4
    &&& queries.shape[0] == keys.shape[0] == values.shape[0]
    &&& keys.shape[1] == values.shape[1]
    &&& keys.shape[1] > 0
    &&& queries.shape[1] % keys.shape[1] == 0
    &&& keys.shape[2] == values.shape[2]
    &&& queries.shape[3] == keys.shape[3]
    &&& queries.dtype == keys.dtype
    &&& queries.dtype == values.dtype
    &&& queries.dtype.kernel_float()
}

/// The form of an array after a rotation, settled for the kernels' element types.
pub open spec fn rotated_form(array: ArrayView) -> Option<Seq<ArrayView>> {
    if array.dtype.kernel_float() {
        Some(seq![array])
    } else {
        None
    }
}

impl<'a> Call<'a, Array> {
    /// The forms of the results of a call, in their order, where they are settled.
    ///
    /// They follow the documented formulas. The shape `[1]` of an index is known of a `hidden` of
    /// shape `[1, 1, K]`, and the shape of a matrix product of an `input` of shape `[1, 1, K]`;
    /// for other shapes that contain one vector this model takes the same.
    pub open spec fn forms(self) -> Option<Seq<ArrayView>> {
        match self {
            Call::CompiledSwiglu { gate, x } => if swiglu_inputs(gate@, x@) {
                Some(seq![gate@])
            } else {
                None
            },
            Call::LmHeadArgmax { hidden, embedding, .. } => if lm_head_inputs(hidden@, embedding@) {
                Some(seq![ArrayView { shape: seq![1i32], dtype: Dtype::Int32 }])
            } else {
                None
            },
            Call::SmollmGemv {
                input,
                weight,
                residual,
                results_per_simdgroup,
                ..
            } => if gemv_inputs(input@, weight@, residual, results_per_simdgroup) {
                Some(
                    seq![
                        ArrayView {
                            shape: input@.shape.drop_last().push(weight@.shape[0]),
                            dtype: input@.dtype,
                        },
                    ],
                )
            } else {
                None
            },
            Call::SmollmYarnRopeQkv { queries, keys, values, freqs, .. } => if yarn_inputs(
                queries@,
                keys@,
                freqs@,
            ) && values@ == keys@ {
                Some(
                    seq![
                        queries@,
                        ArrayView { shape: seq![2i32] + keys@.shape, dtype: keys@.dtype },
                    ],
                )
            } else {
                None
            },
            Call::SmollmYarnRopeQk { queries, keys, freqs, .. } => if yarn_inputs(
                queries@,
                keys@,
                freqs@,
            ) {
                Some(seq![queries@, keys@])
            } else {
                None
            },
            Call::Rope { array, .. } => rotated_form(array@),
            Call::RopeDynamic { array, .. } => rotated_form(array@),
            Call::PaddleocrRope2dQk { qkv, cosine, sine, .. } => if rope_2d_inputs(
                qkv@,
                cosine@,
                sine@,
            ) {
                Some(
                    seq![
                        ArrayView {
                            shape: seq![2i32, 16i32, qkv@.shape[0], 72i32],
                            dtype: qkv@.dtype,
                        },
                    ],
                )
            } else {
                None
            },
            Call::ScaledDotProductAttention { queries, keys, values, .. } => if attention_inputs(
                queries@,
                keys@,
                values@,
            ) {
                Some(
                    seq![
                        ArrayView {
                            shape: queries@.shape.drop_last().push(values@.shape[3]),
                            dtype: queries@.dtype,
                        },
                    ],
                )
            } else {
                None
            },
            Call::RmsNorm { x, weight, .. } => if along_last_axis(x@, weight@) {
                Some(seq![x@])
            } else {
                None
            },
            Call::LayerNorm { x, weight, bias, .. } => if along_last_axis_if_given(x@, weight)
                && along_last_axis_if_given(x@, bias) {
                Some(seq![x@])
            } else {
                None
            },
        }
    }
}

/// Whether two shapes are the same.
fn same_shape(a: &Vec<i32>, b: &Vec<i32>) -> (r: bool)
    ensures
        r == (a@ == b@),
{
    if a.len() != b.len() {
        return false;
    }
    let mut i: usize = 0;
    while i < a.len()
        invariant
            i <= a@.len(),
            a@.len() == b@.len(),
            forall|j: int| 0 <= j < i ==> a@[j] == b@[j],
        decreases a@.len() - i,
    {
        if a[i] != b[i] {
            return false;
        }
        i += 1;
    }
    assert(a@ =~= b@);
    true
}

/// Whether two arrays have the same form.
fn same_form(a: &Array, b: &Array) -> (r: bool)
    ensures
        r == (a@ == b@),
{
    same_shape(a.shape(), b.shape()) && a.dtype() == b.dtype()
}

/// Whether an array of this shape contains one vector of `k` elements and nothing else.
fn is_one_vector(shape: &Vec<i32>, k: i32) -> (r: bool)
    ensures
        r == one_vector(shape@, k as int),
{
    if shape.len() == 0 || shape[shape.len() - 1] != k {
        return false;
    }
    let mut i: usize = 0;
    while i < shape.len() - 1
        invariant
            1 <= shape@.len(),
            i <= shape@.len() - 1,
            forall|j: int| 0 <= j < i ==> #[trigger] shape@[j] == 1,
        decreases shape@.len() - i,
    {
        if shape[i] != 1 {
            return false;
        }
        i += 1;
    }
    true
}

/// A shape with an axis of length zero holds nothing.
proof fn lemma_size_with_zero(shape: Seq<i32>, i: int)
    requires
        0 <= i < shape.len(),
        shape[i] == 0,
    ensures
        size_of(shape) == 0,
    decreases shape.len(),
{
    if i < shape.len() - 1 {
        lemma_size_with_zero(shape.drop_last(), i);
        assert(shape.drop_last()[i] == 0);
        assert(0 * shape.last() == 0);
    } else {
        assert(size_of(shape.drop_last()) * 0 == 0) by (nonlinear_arith);
    }
}

/// More axes of positive length hold no less.
proof fn lemma_size_grows(shape: Seq<i32>, i: int)
    requires
        0 <= i <= shape.len(),
        forall|j: int| 0 <= j < shape.len() ==> #[trigger] shape[j] >= 1,
    ensures
        1 <= size_of(shape.take(i)) <= size_of(shape),
    decreases shape.len(),
{
    if i < shape.len() {
        let shorter = shape.drop_last();
        assert(shorter.take(i) =~= shape.take(i));
        lemma_size_grows(shorter, i);
        assert(size_of(shorter) <= size_of(shorter) * shape.last()) by (nonlinear_arith)
            requires
                size_of(shorter) >= 1,
                shape.last() >= 1,
        ;
    } else {
        assert(shape.take(i) =~= shape);
        if shape.len() > 0 {
            let shorter = shape.drop_last();
            lemma_size_grows(shorter, shorter.len() as int);
            assert(shorter.take(shorter.len() as int) =~= shorter);
            assert(1 <= size_of(shorter) * shape.last()) by (nonlinear_arith)
                requires
                    size_of(shorter) >= 1,
                    shape.last() >= 1,
            ;
        }
    }
}

/// Whether an array of this shape contains `n` elements.
fn contains_elements(shape: &Vec<i32>, n: i32) -> (r: bool)
    requires
        is_shape(shape@),
    ensures
        r == (size_of(shape@) == n),
{
    let mut i: usize = 0;
    while i < shape.len()
        invariant
            i <= shape@.len(),
            is_shape(shape@),
            forall|j: int| 0 <= j < i ==> #[trigger] shape@[j] >= 1,
        decreases shape@.len() - i,
    {
        if shape[i] == 0 {
            proof {
                lemma_size_with_zero(shape@, i as int);
            }
            return n == 0;
        }
        i += 1;
    }
    let mut size: i64 = 1;
    let mut i: usize = 0;
    while i < shape.len()
        invariant
            i <= shape@.len(),
            1 <= size <= i32::MAX,
            size == size_of(shape@.take(i as int)),
            forall|j: int| 0 <= j < shape@.len() ==> #[trigger] shape@[j] >= 1,
        decreases shape@.len() - i,
    {
        let axis: i32 = shape[i];
        assert(1 <= size * axis <= i32::MAX * i32::MAX) by (nonlinear_arith)
            requires
                1 <= size <= i32::MAX,
                1 <= axis <= i32::MAX,
        ;
        size = size * (axis as i64);
        assert(size == size_of(shape@.take(i + 1))) by {
            assert(shape@.take(i + 1).drop_last() =~= shape@.take(i as int));
        }
        if size > i32::MAX as i64 {
            proof {
                lemma_size_grows(shape@, i + 1);
            }
            return false;
        }
        i += 1;
    }
    assert(shape@.take(shape@.len() as int) =~= shape@);
    size == n as i64
}

/// Whether an array holds one token of 64 elements for each head.
fn is_one_token_of_64(shape: &Vec<i32>) -> (r: bool)
    ensures
        r == one_token_of_64(shape@),
{
    shape.len() == 4 && shape[2] == 1 && shape[3] == 64
}

/// Whether an array holds 72 cosines or sines for each of `tokens` tokens.
fn is_trig_of_72(shape: &Vec<i32>, tokens: i32) -> (r: bool)
    ensures
        r == trig_of_72(shape@, tokens),
{
    if shape.len() == 2 {
        shape[0] == tokens && shape[1] == 72
    } else {
        shape.len() == 3 && shape[0] == tokens && shape[1] == 1 && shape[2] == 72
    }
}

/// Whether a normalization is for this array.
fn is_normalized(x: &Array) -> (r: bool)
    ensures
        r == normalized(x@),
{
    x.shape().len() >= 1 && x.dtype().is_kernel_float()
}

/// Whether a parameter of a normalization has one element for each along the last axis of `x`.
fn fits_last_axis(x: &Array, p: &Array) -> (r: bool)
    ensures
        r == along_last_axis(x@, p@),
{
    let axes = x.shape();
    let own = p.shape();
    is_normalized(x) && own.len() == 1 && own[0] == axes[axes.len() - 1] && p.dtype() == x.dtype()
}

/// The same of a parameter that may be left out.
fn fits_last_axis_if_given(x: &Array, p: &ArrayArg<'_, Array>) -> (r: bool)
    ensures
        r == along_last_axis_if_given(x@, *p),
{
    match p {
        ArrayArg::Given(a) => fits_last_axis(x, a),
        ArrayArg::Empty => is_normalized(x),
    }
}

/// Whether `argmax(hidden @ embedding.T)` is for these arrays.
fn are_lm_head_inputs(hidden: &Array, embedding: &Array) -> (r: bool)
    ensures
        r == lm_head_inputs(hidden@, embedding@),
{
    let rows = embedding.shape();
    rows.len() == 2 && rows[0] >= 8192 && rows[0] % 32 == 0 && is_one_vector(
        hidden.shape(),
        rows[1],
    ) && hidden.dtype() == embedding.dtype() && hidden.dtype().is_kernel_float()
}

/// Whether the single-vector matrix product is for these arrays and this tile.
fn are_gemv_inputs(
    input: &Array,
    weight: &Array,
    residual: &ArrayArg<'_, Array>,
    results_per_simdgroup: i32,
) -> (r: bool)
    ensures
        r == gemv_inputs(input@, weight@, *residual, results_per_simdgroup),
{
    let matrix = weight.shape();
    if matrix.len() != 2 || !is_one_vector(input.shape(), matrix[1]) || input.dtype()
        != weight.dtype() || !input.dtype().is_kernel_float() {
        return false;
    }
    let added = match residual {
        ArrayArg::Given(a) => contains_elements(a.shape(), matrix[0]) && a.dtype()
            == weight.dtype(),
        ArrayArg::Empty => true,
    };
    added && (results_per_simdgroup == 1 || results_per_simdgroup == 4)
}

/// Whether the one-token rotation is for these queries, keys and frequencies.
fn are_yarn_inputs(queries: &Array, keys: &Array, freqs: &Array) -> (r: bool)
    ensures
        r == yarn_inputs(queries@, keys@, freqs@),
{
    let q = queries.shape();
    let k = keys.shape();
    is_one_token_of_64(q) && is_one_token_of_64(k) && q[0] == k[0] && queries.dtype()
        == keys.dtype() && queries.dtype().is_kernel_float() && freqs.dtype() == Dtype::Float32
}

/// Whether the two-dimensional rotation is for these arrays.
fn are_rope_2d_inputs(qkv: &Array, cosine: &Array, sine: &Array) -> (r: bool)
    ensures
        r == rope_2d_inputs(qkv@, cosine@, sine@),
{
    let packed = qkv.shape();
    packed.len() == 2 && packed[1] == PACKED_ROW && is_trig_of_72(cosine.shape(), packed[0])
        && is_trig_of_72(sine.shape(), packed[0]) && cosine.dtype() == qkv.dtype()
        && sine.dtype() == qkv.dtype() && qkv.dtype().is_kernel_float()
}

/// Whether attention is for these arrays.
fn are_attention_inputs(queries: &Array, keys: &Array, values: &Array) -> (r: bool)
    ensures
        r == attention_inputs(queries@, keys@, values@),
{
    let q = queries.shape();
    let k = keys.shape();
    let v = values.shape();
    q.len() == 4 && k.len() == 4 && v.len() == 4 && q[0] == k[0] && k[0] == v[0] && k[1] == v[1]
        && k[1] > 0 && q[1] % k[1] == 0 && k[2] == v[2] && q[3] == k[3] && queries.dtype()
        == keys.dtype() && queries.dtype() == values.dtype() && queries.dtype().is_kernel_float()
}

/// The axes of an array.
fn axes_of(a: &Array) -> (r: Vec<i32>)
    ensures
        r@ == a@.shape,
        is_shape(r@),
{
    let shape = a.shape();
    let r = shape.clone();
    assert(r@ =~= shape@);
    r
}

/// The form of an array.
fn array_form(a: &Array) -> (r: Array)
    ensures
        r@ == a@,
{
    Array::from_parts(axes_of(a), a.dtype())
}

/// The form of an array with another length of its last axis.
fn with_last_axis(a: &Array, len: i32) -> (r: Array)
    requires
        a@.shape.len() >= 1,
        len >= 0,
    ensures
        r@ == (ArrayView { shape: a@.shape.drop_last().push(len), dtype: a@.dtype }),
{
    let mut shape = axes_of(a);
    shape.pop();
    shape.push(len);
    Array::from_parts(shape, a.dtype())
}

/// The form of two arrays of one form, stacked along a new first axis.
fn stacked_pair(a: &Array) -> (r: Array)
    ensures
        r@ == (ArrayView { shape: seq![2i32] + a@.shape, dtype: a@.dtype }),
{
    let mut shape = axes_of(a);
    shape.insert(0, 2);
    assert(shape@ =~= seq![2i32] + a@.shape);
    assert(is_shape(shape@)) by {
        assert forall|i: int| 0 <= i < shape@.len() implies #[trigger] shape@[i] >= 0 by {
            if i > 0 {
                assert(shape@[i] == a@.shape[i - 1]);
            }
        }
    }
    Array::from_parts(shape, a.dtype())
}

/// One form, as the forms of a call.
fn one(form: Array) -> (r: Option<Vec<Array>>)
    ensures
        r matches Some(v) && forms_view(v@) == seq![form@],
{
    let v = vec![form];
    assert(forms_view(v@) =~= seq![form@]);
    Some(v)
}

/// Two forms, as the forms of a call.
fn two(first: Array, second: Array) -> (r: Option<Vec<Array>>)
    ensures
        r matches Some(v) && forms_view(v@) == seq![first@, second@],
{
    let v = vec![first, second];
    assert(forms_view(v@) =~= seq![first@, second@]);
    Some(v)
}

/// The form of an array after a rotation, settled for the kernels' element types.
fn rotated(array: &Array) -> (r: Option<Vec<Array>>)
    ensures
        r is Some <==> rotated_form(array@) is Some,
        r matches Some(v) ==> rotated_form(array@) == Some(forms_view(v@)),
{
    if array.dtype().is_kernel_float() {
        one(array_form(array))
    } else {
        None
    }
}

impl<'a> Call<'a, Array> {
    /// The forms of the results of the call, in their order; `None` where the inputs are not ones
    /// that the operation documents, or where their element types leave the form open.
    ///
    /// The forms are the documented ones, but for two that are assumed: the shape `[1]` of
    /// [`Call::LmHeadArgmax`] for a `hidden`, and the shape of [`Call::SmollmGemv`] for an
    /// `input`, that contains one vector in another shape than `[1, 1, K]`.
    pub fn result_forms(&self) -> (r: Option<Vec<Array>>)
        ensures
            r is Some <==> self.forms() is Some,
            r matches Some(v) ==> self.forms() == Some(forms_view(v@)),
            r matches Some(v) ==> v@.len() == (self.forms()->0).len(),
            r matches Some(v) ==> forall|i: int|
                0 <= i < v@.len() ==> #[trigger] v@[i]@ == (self.forms()->0)[i],
    {
        match self {
            Call::CompiledSwiglu { gate, x } => if same_form(gate, x)
                && gate.dtype().is_kernel_float() {
                one(array_form(gate))
            } else {
                None
            },
            Call::LmHeadArgmax { hidden, embedding, .. } => if are_lm_head_inputs(
                hidden,
                embedding,
            ) {
                let shape: Vec<i32> = vec![1];
                assert(shape@ =~= seq![1i32]);
                one(Array::from_parts(shape, Dtype::Int32))
            } else {
                None
            },
            Call::SmollmGemv {
                input,
                weight,
                residual,
                results_per_simdgroup,
                ..
            } => if are_gemv_inputs(input, weight, residual, *results_per_simdgroup) {
                one(with_last_axis(input, weight.shape()[0]))
            } else {
                None
            },
            Call::SmollmYarnRopeQkv { queries, keys, values, freqs, .. } => if are_yarn_inputs(
                queries,
                keys,
                freqs,
            ) && same_form(values, keys) {
                two(array_form(queries), stacked_pair(keys))
            } else {
                None
            },
            Call::SmollmYarnRopeQk { queries, keys, freqs, .. } => if are_yarn_inputs(
                queries,
                keys,
                freqs,
            ) {
                two(array_form(queries), array_form(keys))
            } else {
                None
            },
            Call::Rope { array, .. } => rotated(array),
            Call::RopeDynamic { array, .. } => rotated(array),
            Call::PaddleocrRope2dQk { qkv, cosine, sine, .. } => if are_rope_2d_inputs(
                qkv,
                cosine,
                sine,
            ) {
                let shape: Vec<i32> = vec![2, HEADS, qkv.shape()[0], HEAD_DIM];
                assert(shape@ =~= seq![2i32, 16i32, qkv@.shape[0], 72i32]);
                one(Array::from_parts(shape, qkv.dtype()))
            } else {
                None
            },
            Call::ScaledDotProductAttention {
                queries,
                keys,
                values,
                ..
            } => if are_attention_inputs(queries, keys, values) {
                one(with_last_axis(queries, values.shape()[3]))
            } else {
                None
            },
            Call::RmsNorm { x, weight, .. } => if fits_last_axis(x, weight) {
                one(array_form(x))
            } else {
                None
            },
            Call::LayerNorm { x, weight, bias, .. } => if fits_last_axis_if_given(x, weight)
                && fits_last_axis_if_given(x, bias) {
                one(array_form(x))
            } else {
                None
            },
        }
    }
}

/// The number of elements along a first axis and the others.
proof fn lemma_size_first(shape: Seq<i32>)
    requires
        shape.len() >= 1,
    ensures
        size_of(shape) == shape[0] * size_of(shape.drop_first()),
    decreases shape.len(),
{
    let rest = shape.drop_first();
    if shape.len() == 1 {
        assert(shape.drop_last() =~= Seq::<i32>::empty());
        assert(rest =~= Seq::<i32>::empty());
        assert(size_of(shape.drop_last()) == 1);
        assert(size_of(rest) == 1);
    } else {
        lemma_size_first(shape.drop_last());
        assert(shape.drop_last().drop_first() =~= rest.drop_last());
        assert(rest.last() == shape.last());
        let inner = size_of(rest.drop_last());
        assert(shape[0] * inner * shape.last() == shape[0] * (inner * shape.last()))
            by (nonlinear_arith);
    }
}

/// An array that contains one vector of `k` elements has `k` elements.
pub proof fn lemma_one_vector_size(shape: Seq<i32>, k: int)
    requires
        one_vector(shape, k),
    ensures
        size_of(shape) == k,
    decreases shape.len(),
{
    if shape.len() == 1 {
        assert(shape.drop_last() =~= Seq::<i32>::empty());
        assert(size_of(shape.drop_last()) == 1);
    } else {
        assert forall|i: int| 0 <= i < shape.drop_last().len() implies #[trigger] shape.drop_last()[i]
            == 1 by {
            assert(shape[i] == 1);
        }
        assert(one_vector(shape.drop_last(), 1));
        lemma_one_vector_size(shape.drop_last(), 1);
    }
}

/// Two arrays of one shape, stacked along a new first axis, hold twice as many elements as one.
proof fn lemma_stacked_size(shape: Seq<i32>)
    ensures
        size_of(seq![2i32] + shape) == size_of(shape) + size_of(shape),
{
    let stacked = seq![2i32] + shape;
    lemma_size_first(stacked);
    assert(stacked.drop_first() =~= shape);
    let n = size_of(shape);
    assert(stacked[0] * n == n + n) by (nonlinear_arith)
        requires
            stacked[0] == 2,
    ;
}

/// The documented form of the packed keys and values holds as many elements as the keys and the values together, in
/// the shape `[2, B, kv_heads, 1, 64]`.
pub proof fn lemma_packed_kv(call: Call<'_, Array>)
    requires
        call is SmollmYarnRopeQkv,
        call.forms() is Some,
    ensures
        (call.forms()->0).len() == 2,
        (call.forms()->0)[0] == call->SmollmYarnRopeQkv_queries@,
        (call.forms()->0)[1].shape == seq![
            2i32,
            call->SmollmYarnRopeQkv_keys@.shape[0],
            call->SmollmYarnRopeQkv_keys@.shape[1],
            1i32,
            64i32,
        ],
        size_of((call.forms()->0)[1].shape) == size_of(call->SmollmYarnRopeQkv_keys@.shape)
            + size_of(call->SmollmYarnRopeQkv_values@.shape),
{
    let keys = call->SmollmYarnRopeQkv_keys@;
    let values = call->SmollmYarnRopeQkv_values@;
    assert(values == keys);
    lemma_stacked_size(keys.shape);
    assert((call.forms()->0)[1].shape == seq![2i32] + keys.shape);
}

/// The documented form of the two-dimensional rotation leaves out the values: it has two
/// elements for every three of the projection, as many as the element map of
/// [`crate::rope_2d`] makes.
pub proof fn lemma_rope_2d_size(call: Call<'_, Array>)
    requires
        call is PaddleocrRope2dQk,
        call.forms() is Some,
    ensures
        call matches Call::PaddleocrRope2dQk { qkv, cosine, sine, .. } && {
            let tokens = qkv@.shape[0] as int;
            let forms = call.forms()->0;
            &&& forms.len() == 1
            &&& size_of(forms[0].shape) == result_len(tokens)
            &&& size_of(qkv@.shape) == tokens * 3456
            &&& size_of(cosine@.shape) == tokens * 72
            &&& size_of(sine@.shape) == tokens * 72
            &&& 3 * size_of(forms[0].shape) == 2 * size_of(qkv@.shape)
        },
{
    reveal_with_fuel(size_of, 5);
    if let Call::PaddleocrRope2dQk { qkv, cosine, sine, .. } = call {
        let tokens = qkv@.shape[0] as int;
        assert(1 * 2 * 16 * tokens * 72 == 2304 * tokens) by (nonlinear_arith);
        assert(2 * 16 * tokens * 72 == 2304 * tokens) by (nonlinear_arith);
        assert(1 * tokens == tokens);
        assert(tokens * 1 == tokens);
    }
}

/// A call has as many forms as the function answers arrays.
pub proof fn lemma_a_form_for_each_result(call: Call<'_, Array>)
    requires
        call.forms() is Some,
    ensures
        (call.forms()->0).len() == call.results(),
{
}

/// The matrix product is documented for both tiles of a launch alike, and with one form.
pub proof fn lemma_tiles_agree(one_row: Call<'_, Array>, four_rows: Call<'_, Array>)
    requires
        one_row matches Call::SmollmGemv { results_per_simdgroup, .. }
            && results_per_simdgroup == 1,
        four_rows matches Call::SmollmGemv { results_per_simdgroup, .. }
            && results_per_simdgroup == 4,
        one_row->SmollmGemv_input == four_rows->SmollmGemv_input,
        one_row->SmollmGemv_weight == four_rows->SmollmGemv_weight,
        one_row->SmollmGemv_residual == four_rows->SmollmGemv_residual,
    ensures
        one_row.forms() == four_rows.forms(),
{
}

/// Where the form of a rotation is settled it is that of what is rotated, whether the offset is
/// a number or an array.
pub proof fn lemma_rotation_keeps_form(fixed: Call<'_, Array>, dynamic: Call<'_, Array>)
    requires
        fixed is Rope,
        dynamic is RopeDynamic,
        fixed->Rope_array == dynamic->RopeDynamic_array,
    ensures
        fixed.forms() is Some ==> fixed.forms() == Some(seq![fixed->Rope_array@]),
        dynamic.forms() == fixed.forms(),
{
}

/// The rotated queries have one documented form, whether the keys are packed with the values or not.
pub proof fn lemma_queries_agree(packed: Call<'_, Array>, unpacked: Call<'_, Array>)
    requires
        packed is SmollmYarnRopeQkv,
        unpacked is SmollmYarnRopeQk,
        packed->SmollmYarnRopeQkv_queries == unpacked->SmollmYarnRopeQk_queries,
        packed->SmollmYarnRopeQkv_keys == unpacked->SmollmYarnRopeQk_keys,
        packed->SmollmYarnRopeQkv_freqs == unpacked->SmollmYarnRopeQk_freqs,
        packed.forms() is Some,
    ensures
        unpacked.forms() is Some,
        (unpacked.forms()->0)[0] == (packed.forms()->0)[0],
{
}

} // verus!
