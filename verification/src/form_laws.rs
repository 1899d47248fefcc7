//! What the documented forms of the operations obey, stated of the arguments alone.

use crate::array::{size_of, Array, ArrayArg, Float32, OptionalFloat, Stream};
use crate::fast::Call;
use crate::forms::lemma_one_vector_size;
use vstd::prelude::*;

verus! {

/// The shape of the product of matrices, of the shapes `[.., L, D]` and `[.., D, S]`: the rows
/// of the first and the columns of the second.
pub open spec fn product_shape(a: Seq<i32>, b: Seq<i32>) -> Seq<i32> {
    a.update(a.len() - 1, b[b.len() - 1])
}

/// A shape with its last two axes exchanged.
pub open spec fn transposed_shape(a: Seq<i32>) -> Seq<i32> {
    a.update(a.len() - 1, a[a.len() - 2]).update(a.len() - 2, a[a.len() - 1])
}

/// A product of matrices keeps the rows of the first and takes the columns of the second, and
/// the axes before them stay.
pub proof fn lemma_product_shape(a: Seq<i32>, b: Seq<i32>)
    requires
        a.len() >= 2,
        b.len() == a.len(),
    ensures
        product_shape(a, b).len() == a.len(),
        product_shape(a, b).last() == b.last(),
        forall|i: int| 0 <= i < a.len() - 1 ==> #[trigger] product_shape(a, b)[i] == a[i],
        transposed_shape(a).len() == a.len(),
        transposed_shape(a).last() == a[a.len() - 2],
        transposed_shape(a)[a.len() - 2] == a.last(),
        forall|i: int|
            0 <= i < a.len() - 2 ==> #[trigger] transposed_shape(a)[i] == a[i],
{
}

/// Attention is settled for four axes each, in one batch, of one of the kernels' element types,
/// where keys and values agree in their heads and their length, queries and keys in their width,
/// and the heads of the keys divide those of the queries. It then gives one row for each query
/// row, as wide as the values, for each head of the queries.
pub proof fn lemma_attention_form(
    queries: &Array,
    keys: &Array,
    values: &Array,
    scale: Float32,
    mask_mode: &'static str,
    mask: ArrayArg<'_, Array>,
    sinks: ArrayArg<'_, Array>,
    stream: Stream,
)
    ensures
        ({
            let call = Call::ScaledDotProductAttention {
                queries,
                keys,
                values,
                scale,
                mask_mode,
                mask,
                sinks,
                stream,
            };
            let (q, k, v) = (queries@.shape, keys@.shape, values@.shape);
            &&& call.forms() is Some <==> {
                &&& q.len() == 4 && k.len() == 4 && v.len() == 4
                &&& q[0] == k[0] && q[0] == v[0]
                &&& k[1] == v[1] && k[1] > 0 && q[1] % k[1] == 0
                &&& k[2] == v[2]
                &&& q[3] == k[3]
                &&& keys@.dtype == queries@.dtype && values@.dtype == queries@.dtype
                &&& queries@.dtype is Float32 || queries@.dtype is Float16
                    || queries@.dtype is Bfloat16
            }
            &&& call.forms() is Some ==> {
                &&& (call.forms()->0).len() == 1
                &&& (call.forms()->0)[0].shape == seq![q[0], q[1], q[2], v[3]]
                &&& (call.forms()->0)[0].dtype == queries@.dtype
            }
        }),
{
    let call = Call::ScaledDotProductAttention {
        queries,
        keys,
        values,
        scale,
        mask_mode,
        mask,
        sinks,
        stream,
    };
    if call.forms() is Some {
        let (q, v) = (queries@.shape, values@.shape);
        assert((call.forms()->0)[0].shape =~= seq![q[0], q[1], q[2], v[3]]);
    }
}

/// The form of attention is that of `(Q @ K.T) @ V`: two products of matrices, for each head of
/// the queries.
pub proof fn lemma_attention_is_two_products(
    queries: &Array,
    keys: &Array,
    values: &Array,
    scale: Float32,
    mask_mode: &'static str,
    mask: ArrayArg<'_, Array>,
    sinks: ArrayArg<'_, Array>,
    stream: Stream,
)
    ensures
        ({
            let call = Call::ScaledDotProductAttention {
                queries,
                keys,
                values,
                scale,
                mask_mode,
                mask,
                sinks,
                stream,
            };
            let weights = product_shape(queries@.shape, transposed_shape(keys@.shape));
            call.forms() is Some ==> {
                &&& weights.last() == values@.shape[values@.shape.len() - 2]
                &&& (call.forms()->0)[0].shape == product_shape(weights, values@.shape)
            }
        }),
{
    lemma_attention_form(queries, keys, values, scale, mask_mode, mask, sinks, stream);
    let call = Call::ScaledDotProductAttention {
        queries,
        keys,
        values,
        scale,
        mask_mode,
        mask,
        sinks,
        stream,
    };
    if call.forms() is Some {
        let weights = product_shape(queries@.shape, transposed_shape(keys@.shape));
        assert((call.forms()->0)[0].shape =~= product_shape(weights, values@.shape));
    }
}

/// How many keys there are, how they are grouped, what is masked and which sinks there are does
/// not show in the form of attention: calls with the same queries, and values of the same width,
/// agree.
pub proof fn lemma_attention_forgets_the_keys(a: Call<'_, Array>, b: Call<'_, Array>)
    requires
        a is ScaledDotProductAttention,
        b is ScaledDotProductAttention,
        a->ScaledDotProductAttention_queries@ == b->ScaledDotProductAttention_queries@,
        a->ScaledDotProductAttention_values@.shape.last()
            == b->ScaledDotProductAttention_values@.shape.last(),
        a.forms() is Some,
        b.forms() is Some,
    ensures
        a.forms() == b.forms(),
{
}

/// The matrix product is settled for a matrix `[N, K]` and one vector of K elements, a residual
/// of N elements or none, one or four rows for each SIMD group, and one of the kernels' element
/// types throughout. Its form is that of the input with N elements in the place of the K, with
/// or without a residual and whatever the shape of that is.
pub proof fn lemma_gemv_form(
    input: &Array,
    weight: &Array,
    residual: ArrayArg<'_, Array>,
    results_per_simdgroup: i32,
    stream: Stream,
)
    ensures
        ({
            let call = Call::SmollmGemv { input, weight, residual, results_per_simdgroup, stream };
            let (x, w) = (input@.shape, weight@.shape);
            &&& call.forms() is Some <==> {
                &&& w.len() == 2
                &&& x.len() >= 1 && x[x.len() - 1] == w[1]
                &&& forall|i: int| 0 <= i < x.len() - 1 ==> #[trigger] x[i] == 1
                &&& weight@.dtype == input@.dtype
                &&& input@.dtype is Float32 || input@.dtype is Float16 || input@.dtype is Bfloat16
                &&& residual matches ArrayArg::Given(a) ==> {
                    &&& size_of(a@.shape) == w[0]
                    &&& a@.dtype == input@.dtype
                }
                &&& results_per_simdgroup == 1 || results_per_simdgroup == 4
            }
            &&& call.forms() is Some ==> {
                &&& (call.forms()->0).len() == 1
                &&& (call.forms()->0)[0].shape.len() == x.len()
                &&& (call.forms()->0)[0].shape[x.len() - 1] == w[0]
                &&& forall|i: int|
                    0 <= i < x.len() - 1 ==> #[trigger] (call.forms()->0)[0].shape[i] == x[i]
                &&& (call.forms()->0)[0].dtype == input@.dtype
            }
        }),
{
}

/// The form of the matrix product does not depend on the residual.
pub proof fn lemma_gemv_forgets_the_residual(a: Call<'_, Array>, b: Call<'_, Array>)
    requires
        a is SmollmGemv,
        b is SmollmGemv,
        a->SmollmGemv_input@ == b->SmollmGemv_input@,
        a->SmollmGemv_weight@ == b->SmollmGemv_weight@,
        a.forms() is Some,
        b.forms() is Some,
    ensures
        a.forms() == b.forms(),
{
}

/// The matrix product gives as many elements as the matrix has rows, so many as a residual has.
pub proof fn lemma_gemv_size(
    input: &Array,
    weight: &Array,
    residual: ArrayArg<'_, Array>,
    results_per_simdgroup: i32,
    stream: Stream,
)
    requires
        (Call::SmollmGemv { input, weight, residual, results_per_simdgroup, stream }).forms() is Some,
    ensures
        ({
            let call = Call::SmollmGemv { input, weight, residual, results_per_simdgroup, stream };
            &&& size_of((call.forms()->0)[0].shape) == weight@.shape[0]
            &&& residual matches ArrayArg::Given(a) ==> size_of((call.forms()->0)[0].shape)
                == size_of(a@.shape)
        }),
{
    lemma_gemv_form(input, weight, residual, results_per_simdgroup, stream);
    let call = Call::SmollmGemv { input, weight, residual, results_per_simdgroup, stream };
    let shape = (call.forms()->0)[0].shape;
    assert forall|i: int| 0 <= i < shape.len() - 1 implies #[trigger] shape[i] == 1 by {
        assert(input@.shape[i] == 1);
    }
    lemma_one_vector_size(shape, weight@.shape[0] as int);
}

/// The rotation of one token is settled for queries `[B, heads, 1, 64]` and keys
/// `[B, kv_heads, 1, 64]` of one of the kernels' element types, and FP32 frequencies. It gives
/// the rotated queries in the form of the queries, then the rotated keys in the form of the keys.
pub proof fn lemma_yarn_qk_form(
    queries: &Array,
    keys: &Array,
    freqs: &Array,
    attention_factor: Float32,
    offset: i32,
    stream: Stream,
)
    ensures
        ({
            let call = Call::SmollmYarnRopeQk {
                queries,
                keys,
                freqs,
                attention_factor,
                offset,
                stream,
            };
            let (q, k) = (queries@.shape, keys@.shape);
            &&& call.forms() is Some <==> {
                &&& q.len() == 4 && q[2] == 1 && q[3] == 64
                &&& k.len() == 4 && k[2] == 1 && k[3] == 64
                &&& q[0] == k[0]
                &&& queries@.dtype == keys@.dtype
                &&& keys@.dtype is Float32 || keys@.dtype is Float16 || keys@.dtype is Bfloat16
                &&& freqs@.dtype is Float32
            }
            &&& call.forms() is Some ==> {
                &&& (call.forms()->0).len() == 2
                &&& (call.forms()->0)[0].shape == q
                &&& (call.forms()->0)[0].dtype == queries@.dtype
                &&& (call.forms()->0)[1].shape == k
                &&& (call.forms()->0)[1].dtype == keys@.dtype
            }
        }),
{
}

/// Packing is settled where the rotation of the same queries and keys is, and the values have
/// the form of the keys. It gives the same rotated queries and, in the place of the rotated keys,
/// two of their form, one behind the other along a new first axis.
pub proof fn lemma_yarn_qkv_form(
    queries: &Array,
    keys: &Array,
    values: &Array,
    freqs: &Array,
    attention_factor: Float32,
    offset: i32,
    stream: Stream,
)
    ensures
        ({
            let plain = Call::SmollmYarnRopeQk {
                queries,
                keys,
                freqs,
                attention_factor,
                offset,
                stream,
            };
            let call = Call::SmollmYarnRopeQkv {
                queries,
                keys,
                values,
                freqs,
                attention_factor,
                offset,
                stream,
            };
            &&& call.forms() is Some <==> {
                &&& plain.forms() is Some
                &&& values@.shape == keys@.shape
                &&& values@.dtype == keys@.dtype
            }
            &&& call.forms() is Some ==> {
                let packed = (call.forms()->0)[1];
                &&& (call.forms()->0).len() == 2
                &&& (call.forms()->0)[0].shape == queries@.shape
                &&& (call.forms()->0)[0].dtype == queries@.dtype
                &&& packed.shape.len() == 5
                &&& packed.shape[0] == 2
                &&& packed.shape.drop_first() == (plain.forms()->0)[1].shape
                &&& packed.shape.drop_first() == keys@.shape
                &&& packed.dtype == keys@.dtype
            }
        }),
{
    let call = Call::SmollmYarnRopeQkv {
        queries,
        keys,
        values,
        freqs,
        attention_factor,
        offset,
        stream,
    };
    assert((values@.shape == keys@.shape && values@.dtype == keys@.dtype) ==> values@ == keys@);
    if call.forms() is Some {
        assert((call.forms()->0)[1].shape.drop_first() =~= keys@.shape);
    }
}

/// A normalization by the root mean square is settled for an array of one of the kernels' element
/// types that has a last axis, and one weight of that type for each element along it. It keeps
/// the form of what it normalizes.
pub proof fn lemma_rms_norm_keeps_form(x: &Array, weight: &Array, eps: Float32, stream: Stream)
    ensures
        ({
            let call = Call::RmsNorm { x, weight, eps, stream };
            &&& call.forms() is Some <==> {
                &&& x@.shape.len() >= 1
                &&& weight@.shape == seq![x@.shape[x@.shape.len() - 1]]
                &&& weight@.dtype == x@.dtype
                &&& x@.dtype is Float32 || x@.dtype is Float16 || x@.dtype is Bfloat16
            }
            &&& call.forms() is Some ==> {
                &&& (call.forms()->0).len() == 1
                &&& (call.forms()->0)[0].shape == x@.shape
                &&& (call.forms()->0)[0].dtype == x@.dtype
            }
        }),
{
    let call = Call::RmsNorm { x, weight, eps, stream };
    if x@.shape.len() >= 1 {
        let last = x@.shape[x@.shape.len() - 1];
        assert((weight@.shape.len() == 1 && weight@.shape[0] == last) <==> weight@.shape
            =~= seq![last]);
    }
}

/// A layer normalization is settled for an array of one of the kernels' element types that has a
/// last axis, and a weight and a bias, each left out or with one element of that type for each
/// along the last axis. It keeps the form of what it normalizes, whichever of them are given.
pub proof fn lemma_layer_norm_keeps_form(
    x: &Array,
    weight: ArrayArg<'_, Array>,
    bias: ArrayArg<'_, Array>,
    eps: Float32,
    stream: Stream,
)
    ensures
        ({
            let call = Call::LayerNorm { x, weight, bias, eps, stream };
            &&& call.forms() is Some <==> {
                &&& x@.shape.len() >= 1
                &&& x@.dtype is Float32 || x@.dtype is Float16 || x@.dtype is Bfloat16
                &&& weight matches ArrayArg::Given(a) ==> {
                    &&& a@.shape == seq![x@.shape[x@.shape.len() - 1]]
                    &&& a@.dtype == x@.dtype
                }
                &&& bias matches ArrayArg::Given(a) ==> {
                    &&& a@.shape == seq![x@.shape[x@.shape.len() - 1]]
                    &&& a@.dtype == x@.dtype
                }
            }
            &&& call.forms() is Some ==> {
                &&& (call.forms()->0).len() == 1
                &&& (call.forms()->0)[0].shape == x@.shape
                &&& (call.forms()->0)[0].dtype == x@.dtype
            }
        }),
{
    if x@.shape.len() >= 1 {
        let last = x@.shape[x@.shape.len() - 1];
        assert(forall|s: Seq<i32>|
            (#[trigger] s.len() == 1 && s[0] == last) <==> s =~= seq![last]);
    }
}

/// `silu(gate) * x` is settled for operands of one shape and one of the kernels' element types,
/// and keeps both.
pub proof fn lemma_swiglu_keeps_form(gate: &Array, x: &Array)
    ensures
        ({
            let call = Call::CompiledSwiglu { gate, x };
            &&& call.forms() is Some <==> {
                &&& gate@.shape == x@.shape
                &&& gate@.dtype == x@.dtype
                &&& x@.dtype is Float32 || x@.dtype is Float16 || x@.dtype is Bfloat16
            }
            &&& call.forms() is Some ==> {
                &&& (call.forms()->0).len() == 1
                &&& (call.forms()->0)[0].shape == x@.shape
                &&& (call.forms()->0)[0].dtype == x@.dtype
            }
        }),
{
    assert((gate@.shape == x@.shape && gate@.dtype == x@.dtype) ==> gate@ == x@);
}

/// The operands of `silu(gate) * x` may be exchanged without a change of form.
pub proof fn lemma_swiglu_is_symmetric_in_form(gate: &Array, x: &Array)
    ensures
        (Call::CompiledSwiglu { gate, x }).forms() == (Call::CompiledSwiglu {
            gate: x,
            x: gate,
        }).forms(),
{
}

/// The index of the largest logit is settled for one vector of K elements and a table `[N, K]` of
/// at least 8192 rows, in a number that 32 divides, of one of the kernels' element types, the same
/// in both. It is one 32-bit integer.
pub proof fn lemma_lm_head_form(hidden: &Array, embedding: &Array, stream: Stream)
    ensures
        ({
            let call = Call::LmHeadArgmax { hidden, embedding, stream };
            let (h, e) = (hidden@.shape, embedding@.shape);
            &&& call.forms() is Some <==> {
                &&& e.len() == 2
                &&& e[0] >= 8192 && e[0] % 32 == 0
                &&& h.len() >= 1 && h[h.len() - 1] == e[1]
                &&& forall|i: int| 0 <= i < h.len() - 1 ==> #[trigger] h[i] == 1
                &&& embedding@.dtype == hidden@.dtype
                &&& hidden@.dtype is Float32 || hidden@.dtype is Float16
                    || hidden@.dtype is Bfloat16
            }
            &&& call.forms() is Some ==> {
                &&& (call.forms()->0).len() == 1
                &&& (call.forms()->0)[0].shape.len() == 1
                &&& (call.forms()->0)[0].shape[0] == 1
                &&& (call.forms()->0)[0].dtype is Int32
            }
        }),
{
}

/// Rotations are settled for the kernels' element types, and keep the form of what they rotate,
/// whatever the base, the frequencies and the offset, be it a number or an array.
pub proof fn lemma_rope_keeps_form(
    array: &Array,
    dimensions: i32,
    traditional: bool,
    base: OptionalFloat,
    scale: Float32,
    number: i32,
    offset: &Array,
    freqs: ArrayArg<'_, Array>,
    stream: Stream,
)
    ensures
        ({
            let fixed = Call::Rope {
                array,
                dimensions,
                traditional,
                base,
                scale,
                offset: number,
                freqs,
                stream,
            };
            let dynamic = Call::RopeDynamic {
                array,
                dimensions,
                traditional,
                base,
                scale,
                offset,
                freqs,
                stream,
            };
            &&& fixed.forms() is Some <==> (array@.dtype is Float32 || array@.dtype is Float16
                || array@.dtype is Bfloat16)
            &&& fixed.forms() is Some ==> {
                &&& (fixed.forms()->0).len() == 1
                &&& (fixed.forms()->0)[0].shape == array@.shape
                &&& (fixed.forms()->0)[0].dtype == array@.dtype
            }
            &&& dynamic.forms() == fixed.forms()
        }),
{
}

/// The two-dimensional rotation is settled for a projection `[L, 3456]`, and cosines and sines
/// `[L, 72]` or `[L, 1, 72]`, of one of the kernels' element types throughout. It gives queries
/// and keys for 16 heads, L tokens and 72 elements.
pub proof fn lemma_rope_2d_form(qkv: &Array, cosine: &Array, sine: &Array, stream: Stream)
    ensures
        ({
            let call = Call::PaddleocrRope2dQk { qkv, cosine, sine, stream };
            let tokens = qkv@.shape[0];
            &&& call.forms() is Some <==> {
                &&& qkv@.shape == seq![tokens, 3456i32]
                &&& cosine@.shape == seq![tokens, 72i32] || cosine@.shape == seq![
                    tokens,
                    1i32,
                    72i32,
                ]
                &&& sine@.shape == seq![tokens, 72i32] || sine@.shape == seq![tokens, 1i32, 72i32]
                &&& cosine@.dtype == qkv@.dtype && sine@.dtype == qkv@.dtype
                &&& qkv@.dtype is Float32 || qkv@.dtype is Float16 || qkv@.dtype is Bfloat16
            }
            &&& call.forms() is Some ==> {
                &&& (call.forms()->0).len() == 1
                &&& (call.forms()->0)[0].shape == seq![2i32, 16i32, tokens, 72i32]
                &&& (call.forms()->0)[0].dtype == qkv@.dtype
            }
        }),
{
    let tokens = qkv@.shape[0];
    let q = qkv@.shape;
    assert((q.len() == 2 && q[1] == 3456) <==> q =~= seq![tokens, 3456i32]);
    assert(forall|s: Seq<i32>|
        (#[trigger] s.len() == 2 && s[0] == tokens && s[1] == 72) <==> s =~= seq![tokens, 72i32]);
    assert(forall|s: Seq<i32>|
        (#[trigger] s.len() == 3 && s[0] == tokens && s[1] == 1 && s[2] == 72) <==> s =~= seq![
            tokens,
            1i32,
            72i32,
        ]);
}

} // verus!
