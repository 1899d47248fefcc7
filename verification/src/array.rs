//! What the front end knows of arrays, streams and numbers that live in MLX.

use vstd::prelude::*;

verus! {

/// The element types that the fused operations tell apart.
#[derive(Clone, Copy, Debug, PartialEq, Eq, Structural)]
pub enum Dtype {
    /// 32-bit IEEE floating point.
    Float32,
    /// 16-bit IEEE floating point.
    Float16,
    /// 16-bit brain floating point.
    Bfloat16,
    /// 32-bit signed integers.
    Int32,
    /// Any other element type of MLX.
    Other,
}

impl Dtype {
    /// The element types of the fused kernels: FP32, FP16 and BF16.
    pub open spec fn kernel_float(self) -> bool {
        self is Float32 || self is Float16 || self is Bfloat16
    }

    /// Whether the fused kernels compute on elements of this type.
    pub fn is_kernel_float(self) -> (b: bool)
        ensures
            b == self.kernel_float(),
            b <==> (self is Float32 || self is Float16 || self is Bfloat16),
    {
        match self {
            Dtype::Float32 | Dtype::Float16 | Dtype::Bfloat16 => true,
            _ => false,
        }
    }
}

/// A 32-bit floating-point number, held as its IEEE 754 bit pattern.
///
/// The front end hands such numbers on and never computes with them.
#[derive(Clone, Copy, Debug, PartialEq, Eq, Structural)]
pub struct Float32 {
    pub bits: u32,
}

/// The bit pattern of positive zero.
pub const ZERO_BITS: u32 = 0;

/// A number that may be absent, in the form that MLX's C interface takes it in.
#[derive(Clone, Copy, Debug, PartialEq, Eq, Structural)]
pub struct OptionalFloat {
    pub value: Float32,
    pub has_value: bool,
}

/// What stands for an optional number: an absent one is a zero without a value.
pub open spec fn optional_float_of(x: Option<Float32>) -> OptionalFloat {
    match x {
        Some(value) => OptionalFloat { value, has_value: true },
        None => OptionalFloat { value: Float32 { bits: ZERO_BITS }, has_value: false },
    }
}

/// Brings an optional number into the form of the C interface.
pub fn optional_float(x: Option<Float32>) -> (r: OptionalFloat)
    ensures
        r == optional_float_of(x),
        r.has_value <==> x is Some,
        x matches Some(value) ==> r.value == value,
        x is None ==> r.value.bits == 0,
{
    match x {
        Some(value) => OptionalFloat { value, has_value: true },
        None => OptionalFloat { value: Float32 { bits: ZERO_BITS }, has_value: false },
    }
}

/// The form of the C interface says of a number whether it is there and, where it is, which it
/// is, whatever number it is; in the place of an absent one stands positive zero.
pub proof fn lemma_optional_float_holds_the_number(x: Option<Float32>)
    ensures
        optional_float_of(x).has_value <==> x is Some,
        x matches Some(value) ==> optional_float_of(x).value == value,
        x is None ==> optional_float_of(x).value.bits == 0,
{
}

/// The form of the C interface tells every number from every other, and an absent one from
/// zero.
pub proof fn lemma_optional_float_is_told_apart(a: Option<Float32>, b: Option<Float32>)
    requires
        optional_float_of(a) == optional_float_of(b),
    ensures
        a == b,
{
}

/// The form of an array: its shape and its element type.
///
/// An operation hands its arrays on unread, so anything may stand for them there. Where the
/// forms of arguments and results are spoken of, this does.
#[derive(Debug)]
pub struct Array {
    shape: Vec<i32>,
    dtype: Dtype,
}

/// The form of an array as the contracts see it.
#[verifier::ext_equal]
pub struct ArrayView {
    pub shape: Seq<i32>,
    pub dtype: Dtype,
}

/// Whether no axis has a negative length.
pub open spec fn is_shape(shape: Seq<i32>) -> bool {
    forall|i: int| 0 <= i < shape.len() ==> #[trigger] shape[i] >= 0
}

/// The number of elements in an array of the given shape.
pub open spec fn size_of(shape: Seq<i32>) -> int
    decreases shape.len(),
{
    if shape.len() == 0 {
        1
    } else {
        size_of(shape.drop_last()) * shape.last()
    }
}

/// The axes multiply: no axis makes one element, and a further axis as many times more as it is
/// long.
pub proof fn lemma_size_of_axes(shape: Seq<i32>, axis: i32)
    ensures
        size_of(Seq::<i32>::empty()) == 1,
        size_of(shape.push(axis)) == size_of(shape) * axis,
{
    assert(shape.push(axis).drop_last() =~= shape);
}

/// An array of two axes has rows times columns elements, and exchanging two neighbouring axes
/// changes nothing.
pub proof fn lemma_size_of_neighbours(shape: Seq<i32>, a: i32, b: i32)
    ensures
        size_of(seq![a, b]) == a * b,
        size_of(shape.push(a).push(b)) == size_of(shape.push(b).push(a)),
{
    let none = Seq::<i32>::empty();
    lemma_size_of_axes(none, a);
    lemma_size_of_axes(none.push(a), b);
    assert(seq![a, b] =~= none.push(a).push(b));
    lemma_size_of_axes(shape, a);
    lemma_size_of_axes(shape.push(a), b);
    lemma_size_of_axes(shape, b);
    lemma_size_of_axes(shape.push(b), a);
    let n = size_of(shape);
    assert(n * a * b == n * b * a) by (nonlinear_arith);
}

impl View for Array {
    type V = ArrayView;

    closed spec fn view(&self) -> ArrayView {
        ArrayView { shape: self.shape@, dtype: self.dtype }
    }
}

impl Array {
    #[verifier::type_invariant]
    spec fn valid(self) -> bool {
        is_shape(self.shape@)
    }

    /// The form with these axes and these elements; there is none with an axis of negative
    /// length.
    pub fn new(shape: Vec<i32>, dtype: Dtype) -> (r: Option<Array>)
        ensures
            r is Some <==> is_shape(shape@),
            r is Some <==> (forall|i: int| 0 <= i < shape@.len() ==> #[trigger] shape@[i] >= 0),
            r matches Some(a) ==> a@ == (ArrayView { shape: shape@, dtype }),
            r matches Some(a) ==> a@.shape == shape@ && a@.dtype == dtype,
    {
        let mut i: usize = 0;
        while i < shape.len()
            invariant
                i <= shape@.len(),
                forall|j: int| 0 <= j < i ==> #[trigger] shape@[j] >= 0,
            decreases shape@.len() - i,
        {
            if shape[i] < 0 {
                return None;
            }
            i += 1;
        }
        Some(Array { shape, dtype })
    }

    /// The form with these axes and these elements, where no axis has a negative length.
    pub(crate) fn from_parts(shape: Vec<i32>, dtype: Dtype) -> (r: Array)
        requires
            is_shape(shape@),
        ensures
            r@ == (ArrayView { shape: shape@, dtype }),
    {
        Array { shape, dtype }
    }

    /// The lengths of the axes.
    pub fn shape(&self) -> (r: &Vec<i32>)
        ensures
            r@ == self@.shape,
            is_shape(r@),
            forall|i: int| 0 <= i < r@.len() ==> #[trigger] r@[i] >= 0,
    {
        proof {
            use_type_invariant(self);
        }
        &self.shape
    }

    /// The element type.
    pub fn dtype(&self) -> (r: Dtype)
        ensures
            r == self@.dtype,
    {
        self.dtype
    }
}

/// A stream of MLX on which an operation is to run, known by its handle.
#[derive(Clone, Copy, Debug, PartialEq, Eq, Structural)]
pub struct Stream {
    pub handle: usize,
}

/// An array argument that may be left out.
#[derive(Debug)]
pub enum ArrayArg<'a, A> {
    /// This array.
    Given(&'a A),
    /// The empty array of MLX's C interface, which stands for none.
    Empty,
}

/// What an optional array is handed over as.
pub open spec fn array_arg_of<A>(x: Option<&A>) -> ArrayArg<'_, A> {
    match x {
        Some(a) => ArrayArg::Given(a),
        None => ArrayArg::Empty,
    }
}

/// Brings an optional array into the form in which it is handed over.
pub fn array_arg<'a, A>(x: Option<&'a A>) -> (r: ArrayArg<'a, A>)
    ensures
        r == array_arg_of(x),
        x matches Some(a) ==> r == ArrayArg::Given(a),
        x is None ==> r is Empty,
{
    match x {
        Some(a) => ArrayArg::Given(a),
        None => ArrayArg::Empty,
    }
}

/// An array that is there is handed over itself, and the empty array for none.
pub proof fn lemma_array_arg_is_the_array<A>(a: &A)
    ensures
        array_arg_of(Some(a)) == ArrayArg::Given(a),
        array_arg_of(None::<&A>) is Empty,
{
}

/// What is handed over tells every array from every other, and from none at all.
pub proof fn lemma_array_arg_is_told_apart<A>(a: Option<&A>, b: Option<&A>)
    requires
        array_arg_of(a) == array_arg_of(b),
    ensures
        a == b,
{
}

} // verus!
