//! The fused operations of MLX: what each of them hands to MLX's C interface.
//!
//! Each function turns the arguments of an operation into the [`Call`] that carries it out.
//! The call names the function of the C interface and holds its arguments in their order;
//! what the function answers is read by [`crate::error::outcome`]. Arrays are only handed on,
//! so anything may stand for them.

use crate::array::{
    array_arg, array_arg_of, optional_float, optional_float_of, Array, ArrayArg, Float32,
    OptionalFloat, Stream,
};
use vstd::prelude::*;
use vstd::utf8::*;

verus! {

/// A value that may be given as an option or as what the option would hold.
pub trait IntoOption<T>: Sized {
    /// The option that the value stands for.
    spec fn option_of(self) -> Option<T>;

    /// Turns the value into the option that it stands for.
    fn into_option(self) -> (r: Option<T>)
        ensures
            r == self.option_of(),
    ;
}

impl<T> IntoOption<T> for Option<T> {
    open spec fn option_of(self) -> Option<T> {
        self
    }

    fn into_option(self) -> (r: Option<T>)
        ensures
            r == self,
    {
        self
    }
}

/// The mask mode under which the mask is an array, or there is none.
pub const DEFAULT_MASK_MODE: &'static str = "";

/// The mask mode of causal masking.
pub const CAUSAL_MASK_MODE: &'static str = "causal";

/// Mask modes for scaled dot product attention.
#[derive(Debug)]
pub enum ScaledDotProductAttentionMask<'a, A = Array> {
    /// A single mask array
    Array(&'a A),
    /// Causal masking (no explicit mask array needed)
    Causal,
}

impl<'a, A> From<&'a A> for ScaledDotProductAttentionMask<'a, A> {
    fn from(mask: &'a A) -> (r: ScaledDotProductAttentionMask<'a, A>) {
        ScaledDotProductAttentionMask::Array(mask)
    }
}

impl<'a, A> vstd::std_specs::convert::FromSpecImpl<&'a A> for ScaledDotProductAttentionMask<'a, A> {
    open spec fn obeys_from_spec() -> bool {
        true
    }

    open spec fn from_spec(mask: &'a A) -> ScaledDotProductAttentionMask<'a, A> {
        ScaledDotProductAttentionMask::Array(mask)
    }
}

impl<'a, A> IntoOption<ScaledDotProductAttentionMask<'a, A>> for &'a A {
    open spec fn option_of(self) -> Option<ScaledDotProductAttentionMask<'a, A>> {
        Some(ScaledDotProductAttentionMask::Array(self))
    }

    fn into_option(self) -> (r: Option<ScaledDotProductAttentionMask<'a, A>>)
        ensures
            r == Some(ScaledDotProductAttentionMask::Array(self)),
    {
        Some(ScaledDotProductAttentionMask::Array(self))
    }
}

impl<'a, A> ScaledDotProductAttentionMask<'a, A> {
    /// The name of the mask mode.
    pub open spec fn mode(self) -> Seq<char> {
        match self {
            ScaledDotProductAttentionMask::Array(_) => DEFAULT_MASK_MODE@,
            ScaledDotProductAttentionMask::Causal => CAUSAL_MASK_MODE@,
        }
    }

    /// The mask array.
    pub open spec fn mask(self) -> ArrayArg<'a, A> {
        match self {
            ScaledDotProductAttentionMask::Array(mask) => ArrayArg::Given(mask),
            ScaledDotProductAttentionMask::Causal => ArrayArg::Empty,
        }
    }

    /// The mask mode and the mask array by which MLX is told of the mask.
    pub fn as_mode_and_mask(&self) -> (r: (&'static str, ArrayArg<'a, A>))
        ensures
            r.0@ == self.mode(),
            r.1 == self.mask(),
            *self matches ScaledDotProductAttentionMask::Array(mask) ==> r.0@ == ""@ && r.1
                == ArrayArg::Given(mask),
            *self is Causal ==> r.0@ == "causal"@ && r.1 is Empty,
    {
        match self {
            ScaledDotProductAttentionMask::Array(mask) => (
                DEFAULT_MASK_MODE,
                ArrayArg::Given(mask),
            ),
            ScaledDotProductAttentionMask::Causal => (CAUSAL_MASK_MODE, ArrayArg::Empty),
        }
    }
}

/// The mask mode for a mask that may be absent.
pub open spec fn mask_mode_of<A>(mask: Option<ScaledDotProductAttentionMask<'_, A>>) -> Seq<char> {
    match mask {
        Some(m) => m.mode(),
        None => DEFAULT_MASK_MODE@,
    }
}

/// The mask array for a mask that may be absent.
pub open spec fn mask_array_of<'a, A>(mask: Option<ScaledDotProductAttentionMask<'a, A>>) -> ArrayArg<
    'a,
    A,
> {
    match mask {
        Some(m) => m.mask(),
        None => ArrayArg::Empty,
    }
}

/// An array is handed over as the mask under the empty mode, causal masking under its name and
/// without an array, and no mask under the empty mode and without an array.
pub proof fn lemma_mask_is_handed_over<'a, A>(mask: Option<ScaledDotProductAttentionMask<'a, A>>)
    ensures
        mask_mode_of(mask) == if mask == Some(ScaledDotProductAttentionMask::<'a, A>::Causal) {
            "causal"@
        } else {
            ""@
        },
        mask matches Some(ScaledDotProductAttentionMask::Array(array)) ==> mask_array_of(mask)
            == ArrayArg::Given(array),
        !(mask matches Some(ScaledDotProductAttentionMask::Array(_))) ==> mask_array_of(
            mask,
        ) is Empty,
{
}

/// The mode and the array tell every mask from every other, and from none at all.
pub proof fn lemma_mask_is_told_apart<A>(
    a: Option<ScaledDotProductAttentionMask<'_, A>>,
    b: Option<ScaledDotProductAttentionMask<'_, A>>,
)
    requires
        mask_mode_of(a) == mask_mode_of(b),
        mask_array_of(a) == mask_array_of(b),
    ensures
        a == b,
{
    reveal_strlit("");
    reveal_strlit("causal");
    assert(DEFAULT_MASK_MODE@.len() != CAUSAL_MASK_MODE@.len());
}

/// A mask mode can be handed to C as a string: it holds no NUL byte.
pub proof fn lemma_mask_mode_holds_no_nul<A>(mask: Option<ScaledDotProductAttentionMask<'_, A>>)
    ensures
        !encode_utf8(mask_mode_of(mask)).contains(0),
{
    reveal_strlit("");
    reveal_strlit("causal");
    let mode = mask_mode_of(mask);
    assert(is_ascii_chars(mode));
    is_ascii_chars_encode_utf8(mode);
    assert forall|i: int| 0 <= i < mode.len() implies #[trigger] encode_utf8(mode)[i] != 0 by {
        assert(mode[i] != '\0');
    }
}

/// A mask given as an array is the mask that is made of the array.
pub proof fn lemma_array_as_mask<'a, A>(array: &'a A)
    ensures
        <&'a A as IntoOption<ScaledDotProductAttentionMask<'a, A>>>::option_of(array) == Some(
            <ScaledDotProductAttentionMask<'a, A> as vstd::std_specs::convert::FromSpec<
                &'a A,
            >>::from_spec(array),
        ),
        <&'a A as IntoOption<ScaledDotProductAttentionMask<'a, A>>>::option_of(array) == Some(
            ScaledDotProductAttentionMask::Array(array),
        ),
        mask_mode_of(Some(ScaledDotProductAttentionMask::Array(array))) == mask_mode_of::<A>(None),
        mask_array_of(Some(ScaledDotProductAttentionMask::Array(array))) == array_arg_of(
            Some(array),
        ),
{
}

/// A call of MLX's C interface: the function, and its arguments in their order.
#[allow(inconsistent_fields)]
#[derive(Debug)]
pub enum Call<'a, A> {
    /// `mlx_fast_compiled_swiglu`
    CompiledSwiglu { gate: &'a A, x: &'a A },
    /// `mlx_fast_lm_head_argmax`
    LmHeadArgmax { hidden: &'a A, embedding: &'a A, stream: Stream },
    /// `mlx_fast_smollm_gemv`
    SmollmGemv {
        input: &'a A,
        weight: &'a A,
        residual: ArrayArg<'a, A>,
        results_per_simdgroup: i32,
        stream: Stream,
    },
    /// `mlx_fast_smollm_yarn_rope_qkv`
    SmollmYarnRopeQkv {
        queries: &'a A,
        keys: &'a A,
        values: &'a A,
        freqs: &'a A,
        attention_factor: Float32,
        offset: i32,
        stream: Stream,
    },
    /// `mlx_fast_smollm_yarn_rope_qk`
    SmollmYarnRopeQk {
        queries: &'a A,
        keys: &'a A,
        freqs: &'a A,
        attention_factor: Float32,
        offset: i32,
        stream: Stream,
    },
    /// `mlx_fast_rope`
    Rope {
        array: &'a A,
        dimensions: i32,
        traditional: bool,
        base: OptionalFloat,
        scale: Float32,
        offset: i32,
        freqs: ArrayArg<'a, A>,
        stream: Stream,
    },
    /// `mlx_fast_rope_dynamic`
    RopeDynamic {
        array: &'a A,
        dimensions: i32,
        traditional: bool,
        base: OptionalFloat,
        scale: Float32,
        offset: &'a A,
        freqs: ArrayArg<'a, A>,
        stream: Stream,
    },
    /// `mlx_fast_paddleocr_rope_2d_qk`
    PaddleocrRope2dQk { qkv: &'a A, cosine: &'a A, sine: &'a A, stream: Stream },
    /// `mlx_fast_scaled_dot_product_attention`
    ScaledDotProductAttention {
        queries: &'a A,
        keys: &'a A,
        values: &'a A,
        scale: Float32,
        mask_mode: &'static str,
        mask: ArrayArg<'a, A>,
        sinks: ArrayArg<'a, A>,
        stream: Stream,
    },
    /// `mlx_fast_rms_norm`
    RmsNorm { x: &'a A, weight: &'a A, eps: Float32, stream: Stream },
    /// `mlx_fast_layer_norm`
    LayerNorm {
        x: &'a A,
        weight: ArrayArg<'a, A>,
        bias: ArrayArg<'a, A>,
        eps: Float32,
        stream: Stream,
    },
}

impl<'a, A> Call<'a, A> {
    /// The number of arrays that the function answers.
    pub open spec fn results(self) -> nat {
        if self is SmollmYarnRopeQkv || self is SmollmYarnRopeQk {
            2
        } else {
            1
        }
    }

    /// The number of arrays that the function answers: two where queries and keys are rotated
    /// and come in arrays of their own, one everywhere else.
    pub fn result_count(&self) -> (r: usize)
        ensures
            r == self.results(),
            r == 2 <==> (*self is SmollmYarnRopeQkv || *self is SmollmYarnRopeQk),
            r == 1 || r == 2,
    {
        match self {
            Call::SmollmYarnRopeQkv { .. } | Call::SmollmYarnRopeQk { .. } => 2,
            _ => 1,
        }
    }
}

/// Compute `silu(gate) * x` with a process-wide shapeless compiled function.
///
/// The function is compiled once and kept across calls.
pub fn compiled_swiglu<'a, A>(gate: &'a A, x: &'a A) -> (r: Call<'a, A>)
    ensures
        r == (Call::CompiledSwiglu { gate, x }),
{
    Call::CompiledSwiglu { gate, x }
}

/// Compute `argmax(hidden @ embedding.T)` without materializing full logits.
///
/// `hidden` must contain exactly one vector. `embedding` must be rank 2 with
/// at least 8192 rows and a row count divisible by 32.
pub fn lm_head_argmax_device<'a, A>(
    hidden: &'a A,
    embedding: &'a A,
    stream: &Stream,
) -> (r: Call<'a, A>)
    ensures
        r == (Call::LmHeadArgmax { hidden, embedding, stream: *stream }),
{
    Call::LmHeadArgmax { hidden, embedding, stream: *stream }
}

/// Compute a single-vector row-major matrix product with a fixed SmolLM tile.
///
/// `weight` is `[N, K]`, while `input` must contain one K-element vector.
/// `residual`, when present, must contain N elements. The kernel accepts
/// one or four output rows per SIMD group.
pub fn smollm_gemv_device<'a, A>(
    input: &'a A,
    weight: &'a A,
    results_per_simdgroup: i32,
    residual: Option<&'a A>,
    stream: &Stream,
) -> (r: Call<'a, A>)
    ensures
        r == (Call::SmollmGemv {
            input,
            weight,
            residual: array_arg_of(residual),
            results_per_simdgroup,
            stream: *stream,
        }),
        r matches Call::SmollmGemv { residual: handed, .. } && {
            &&& residual matches Some(a) ==> handed == ArrayArg::Given(a)
            &&& residual is None ==> handed is Empty
        },
{
    Call::SmollmGemv {
        input,
        weight,
        residual: array_arg(residual),
        results_per_simdgroup,
        stream: *stream,
    }
}

/// Fuse SmolLM's one-token YaRN scale and RoPE for Q/K and pack K/V.
///
/// The call answers `(rotated_queries, packed_kv)`, where packed KV has shape
/// `[2, B, kv_heads, 1, 64]`. This specialization requires FP32 frequencies.
pub fn smollm_yarn_rope_qkv_device<'a, A>(
    queries: &'a A,
    keys: &'a A,
    values: &'a A,
    freqs: &'a A,
    attention_factor: Float32,
    offset: i32,
    stream: &Stream,
) -> (r: Call<'a, A>)
    ensures
        r == (Call::SmollmYarnRopeQkv {
            queries,
            keys,
            values,
            freqs,
            attention_factor,
            offset,
            stream: *stream,
        }),
{
    Call::SmollmYarnRopeQkv {
        queries,
        keys,
        values,
        freqs,
        attention_factor,
        offset,
        stream: *stream,
    }
}

/// Fuse SmolLM's one-token YaRN scale and RoPE for Q/K.
///
/// The call answers `(rotated_queries, rotated_keys)`. This specialization requires
/// FP32 frequencies.
pub fn smollm_yarn_rope_qk_device<'a, A>(
    queries: &'a A,
    keys: &'a A,
    freqs: &'a A,
    attention_factor: Float32,
    offset: i32,
    stream: &Stream,
) -> (r: Call<'a, A>)
    ensures
        r == (Call::SmollmYarnRopeQk {
            queries,
            keys,
            freqs,
            attention_factor,
            offset,
            stream: *stream,
        }),
{
    Call::SmollmYarnRopeQk { queries, keys, freqs, attention_factor, offset, stream: *stream }
}

/// Optimized implementation of `NN.RoPE`.
pub fn rope_device<'a, A>(
    array: &'a A,
    dimensions: i32,
    traditional: bool,
    base: Option<Float32>,
    scale: Float32,
    offset: i32,
    freqs: Option<&'a A>,
    stream: &Stream,
) -> (r: Call<'a, A>)
    ensures
        r == (Call::Rope {
            array,
            dimensions,
            traditional,
            base: optional_float_of(base),
            scale,
            offset,
            freqs: array_arg_of(freqs),
            stream: *stream,
        }),
        r matches Call::Rope { base: b, freqs: f, .. } && {
            &&& b.has_value <==> base is Some
            &&& base matches Some(value) ==> b.value == value
            &&& base is None ==> b.value.bits == 0
            &&& freqs matches Some(a) ==> f == ArrayArg::Given(a)
            &&& freqs is None ==> f is Empty
        },
{
    let base = optional_float(base);
    let freqs = array_arg(freqs);
    Call::Rope { array, dimensions, traditional, base, scale, offset, freqs, stream: *stream }
}

/// Optimized implementation of `NN.RoPE` with dynamic (array) offset.
///
/// This variant allows specifying the offset as an array, enabling different
/// offsets for different positions in the input.
pub fn rope_dynamic_device<'a, A>(
    array: &'a A,
    dimensions: i32,
    traditional: bool,
    base: Option<Float32>,
    scale: Float32,
    offset: &'a A,
    freqs: Option<&'a A>,
    stream: &Stream,
) -> (r: Call<'a, A>)
    ensures
        r == (Call::RopeDynamic {
            array,
            dimensions,
            traditional,
            base: optional_float_of(base),
            scale,
            offset,
            freqs: array_arg_of(freqs),
            stream: *stream,
        }),
        r matches Call::RopeDynamic { base: b, freqs: f, .. } && {
            &&& b.has_value <==> base is Some
            &&& base matches Some(value) ==> b.value == value
            &&& base is None ==> b.value.bits == 0
            &&& freqs matches Some(a) ==> f == ArrayArg::Given(a)
            &&& freqs is None ==> f is Empty
        },
{
    let base = optional_float(base);
    let freqs = array_arg(freqs);
    Call::RopeDynamic {
        array,
        dimensions,
        traditional,
        base,
        scale,
        offset,
        freqs,
        stream: *stream,
    }
}

/// Apply PaddleOCR-VL's two-dimensional RoPE to Q and K in a packed QKV
/// projection. The result is ordered as `[Q, K]` with shape `[2, 16, L, 72]`.
///
/// This is a Metal-only fused custom kernel. It accepts matching FP32, FP16,
/// or BF16 `qkv=[L,3456]` and `cosine/sine=[L,72]` or `[L,1,72]`. What each element of
/// the result is made of is modelled in [`crate::rope_2d`].
pub fn paddleocr_rope_2d_qk_device<'a, A>(
    qkv: &'a A,
    cosine: &'a A,
    sine: &'a A,
    stream: &Stream,
) -> (r: Call<'a, A>)
    ensures
        r == (Call::PaddleocrRope2dQk { qkv, cosine, sine, stream: *stream }),
{
    Call::PaddleocrRope2dQk { qkv, cosine, sine, stream: *stream }
}

/// A fast implementation of multi-head attention: `O = softmax(Q @ K.T, dim=-1) @ V`
///
/// Supports multi-head, grouped query and multi-query attention. For the latter two, `keys`
/// and `values` should not be pre-tiled to match `queries`.
pub fn scaled_dot_product_attention_device<
    'a,
    A,
    M: IntoOption<ScaledDotProductAttentionMask<'a, A>>,
>(
    queries: &'a A,
    keys: &'a A,
    values: &'a A,
    scale: Float32,
    mask: M,
    sinks: Option<&'a A>,
    stream: &Stream,
) -> (r: Call<'a, A>)
    ensures
        r matches Call::ScaledDotProductAttention {
            queries: q,
            keys: k,
            values: v,
            scale: c,
            mask_mode,
            mask: m,
            sinks: s,
            stream: t,
        } && {
            &&& q == queries
            &&& k == keys
            &&& v == values
            &&& c == scale
            &&& mask_mode@ == mask_mode_of(mask.option_of())
            &&& m == mask_array_of(mask.option_of())
            &&& mask.option_of() is None ==> mask_mode@ == ""@ && m is Empty
            &&& mask.option_of() matches Some(ScaledDotProductAttentionMask::Array(a))
                ==> mask_mode@ == ""@ && m == ArrayArg::Given(a)
            &&& mask.option_of() == Some(ScaledDotProductAttentionMask::<'a, A>::Causal)
                ==> mask_mode@ == "causal"@ && m is Empty
            &&& sinks matches Some(a) ==> s == ArrayArg::Given(a)
            &&& sinks is None ==> s is Empty
            &&& s == array_arg_of(sinks)
            &&& t == *stream
        },
{
    let (mask_mode, mask) = match mask.into_option() {
        Some(m) => m.as_mode_and_mask(),
        None => (DEFAULT_MASK_MODE, ArrayArg::Empty),
    };
    Call::ScaledDotProductAttention {
        queries,
        keys,
        values,
        scale,
        mask_mode,
        mask,
        sinks: array_arg(sinks),
        stream: *stream,
    }
}

/// Root Mean Square normalization (RMS norm).
///
/// The normalization is with respect to the last axis of the input `x`. The `weight` should
/// be one-dimensional with the same size as the last axis of `x`.
pub fn rms_norm_device<'a, A>(
    x: &'a A,
    weight: &'a A,
    eps: Float32,
    stream: &Stream,
) -> (r: Call<'a, A>)
    ensures
        r == (Call::RmsNorm { x, weight, eps, stream: *stream }),
{
    Call::RmsNorm { x, weight, eps, stream: *stream }
}

/// Layer normalization.
///
/// The normalization is with respect to the last axis of the input `x`. The `weight` and the
/// `bias` should be one-dimensional with the same size as the last axis of `x`. Without a
/// weight no scaling will occur, without a bias no offset.
pub fn layer_norm_device<'a, A>(
    x: &'a A,
    weight: Option<&'a A>,
    bias: Option<&'a A>,
    eps: Float32,
    stream: &Stream,
) -> (r: Call<'a, A>)
    ensures
        r == (Call::LayerNorm {
            x,
            weight: array_arg_of(weight),
            bias: array_arg_of(bias),
            eps,
            stream: *stream,
        }),
        r matches Call::LayerNorm { weight: w, bias: b, .. } && {
            &&& weight matches Some(a) ==> w == ArrayArg::Given(a)
            &&& weight is None ==> w is Empty
            &&& bias matches Some(a) ==> b == ArrayArg::Given(a)
            &&& bias is None ==> b is Empty
        },
{
    Call::LayerNorm {
        x,
        weight: array_arg(weight),
        bias: array_arg(bias),
        eps,
        stream: *stream,
    }
}

} // verus!
