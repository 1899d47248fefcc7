//! PaddleOCR-VL's two-dimensional RoPE on a packed QKV projection: which elements of the
//! inputs meet in which element of the result.
//!
//! This is a model of the operation that MLX's kernel carries out, held to the graph of
//! elementary operations that the kernel stands in for.
//!
//! A row of the projection holds the queries, the keys and the values of one token, each as
//! 16 heads of 72 elements. The result holds the rotated queries, then the rotated keys, as
//! an array of shape `[2, 16, L, 72]`.

use vstd::arithmetic::div_mod::*;
use vstd::prelude::*;

verus! {

/// The number of attention heads.
pub const HEADS: i32 = 16;

/// The number of elements of a head.
pub const HEAD_DIM: i32 = 72;

/// The number of elements of one token in the packed projection.
pub const PACKED_ROW: i32 = 3456;

/// A place in the result, by its four axes.
#[derive(Clone, Copy, Debug, PartialEq, Eq, Structural)]
pub struct Place {
    /// 0 for the queries, 1 for the keys.
    pub kind: u64,
    pub head: u64,
    pub token: u64,
    pub dim: u64,
}

/// What one element of the result is made of: the element `direct` of the projection times
/// the element `trig` of the cosines, plus the element `partner` of the projection, negated
/// if `negate` says so, times the element `trig` of the sines. All of them are positions in
/// row-major order.
#[derive(Clone, Copy, Debug, PartialEq, Eq, Structural)]
pub struct RotationTerm {
    pub direct: u64,
    pub partner: u64,
    pub negate: bool,
    pub trig: u64,
}

/// The number of elements of the result for a given number of tokens.
pub open spec fn result_len(tokens: int) -> int {
    2 * 16 * tokens * 72
}

/// The position of a place in the result, in row-major order.
pub open spec fn position_of(tokens: int, kind: int, head: int, token: int, dim: int) -> int {
    ((kind * 16 + head) * tokens + token) * 72 + dim
}

/// The place within its head of the element at a position of the result.
pub open spec fn dim_at(position: int) -> int {
    position % 72
}

/// The token of the element at a position of the result.
pub open spec fn token_at(tokens: int, position: int) -> int {
    position / 72 % tokens
}

/// The head of the element at a position of the result.
pub open spec fn head_at(tokens: int, position: int) -> int {
    position / 72 / tokens % 16
}

/// Whether the element at a position of the result is a query (0) or a key (1).
pub open spec fn kind_at(tokens: int, position: int) -> int {
    position / 72 / tokens / 16
}

/// Where the projection holds element `dim` of the given head of the queries or the keys.
pub open spec fn packed_position(kind: int, head: int, token: int, dim: int) -> int {
    token * 3456 + kind * 1152 + head * 72 + dim
}

/// Where the projection holds the unrotated element of a position of the result.
pub open spec fn direct_at(tokens: int, position: int) -> int {
    packed_position(
        kind_at(tokens, position),
        head_at(tokens, position),
        token_at(tokens, position),
        dim_at(position),
    )
}

/// Where the projection holds the element of the other half of the same head.
pub open spec fn partner_at(tokens: int, position: int) -> int {
    if dim_at(position) < 36 {
        direct_at(tokens, position) + 36
    } else {
        direct_at(tokens, position) - 36
    }
}

/// Whether the element of the other half enters negated.
pub open spec fn negate_at(position: int) -> bool {
    dim_at(position) < 36
}

/// Which cosine and which sine an element of the result is rotated by.
pub open spec fn trig_at(tokens: int, position: int) -> int {
    token_at(tokens, position) * 72 + dim_at(position)
}

/// The axes of a position are within their bounds and give the position back.
proof fn lemma_axes(tokens: int, position: int)
    requires
        0 <= position < result_len(tokens),
    ensures
        tokens > 0,
        0 <= kind_at(tokens, position) < 2,
        0 <= head_at(tokens, position) < 16,
        0 <= token_at(tokens, position) < tokens,
        0 <= dim_at(position) < 72,
        position == position_of(
            tokens,
            kind_at(tokens, position),
            head_at(tokens, position),
            token_at(tokens, position),
            dim_at(position),
        ),
{
    let row = position / 72;
    assert(2 * 16 * tokens * 72 == 32 * 72 * tokens) by (nonlinear_arith);
    assert(tokens > 0);
    assert(0 <= row < 32 * tokens);
    lemma_fundamental_div_mod(row, tokens);
    lemma_mod_bound(row, tokens);
    let heads = row / tokens;
    assert(0 <= heads < 32) by (nonlinear_arith)
        requires
            row == tokens * heads + row % tokens,
            0 <= row < 32 * tokens,
            0 <= row % tokens < tokens,
    ;
    assert(heads == kind_at(tokens, position) * 16 + head_at(tokens, position));
    assert(tokens * heads == heads * tokens) by (nonlinear_arith);
}

/// The axes of the position that four axes give are those axes.
proof fn lemma_axes_of_position(tokens: int, kind: int, head: int, token: int, dim: int)
    requires
        0 <= kind < 2,
        0 <= head < 16,
        0 <= token < tokens,
        0 <= dim < 72,
    ensures
        ({
            let position = position_of(tokens, kind, head, token, dim);
            &&& 0 <= position < result_len(tokens)
            &&& kind_at(tokens, position) == kind
            &&& head_at(tokens, position) == head
            &&& token_at(tokens, position) == token
            &&& dim_at(position) == dim
        }),
{
    let heads = kind * 16 + head;
    let row = heads * tokens + token;
    assert(0 <= row < 32 * tokens) by (nonlinear_arith)
        requires
            row == heads * tokens + token,
            0 <= heads < 32,
            0 <= token < tokens,
    ;
    assert(2 * 16 * tokens * 72 == 32 * 72 * tokens) by (nonlinear_arith);
    lemma_fundamental_div_mod_converse(row, tokens, heads, token);
}

/// The four axes of a position of the result.
pub fn place_at(tokens: u64, position: u64) -> (r: Place)
    requires
        tokens <= i32::MAX,
        position < result_len(tokens as int),
    ensures
        r.kind == kind_at(tokens as int, position as int),
        r.head == head_at(tokens as int, position as int),
        r.token == token_at(tokens as int, position as int),
        r.dim == dim_at(position as int),
        r.kind < 2,
        r.head < 16,
        r.token < tokens,
        r.dim < 72,
        position == position_of(
            tokens as int,
            r.kind as int,
            r.head as int,
            r.token as int,
            r.dim as int,
        ),
        position == ((r.kind * 16 + r.head) * tokens + r.token) * 72 + r.dim,
{
    proof {
        lemma_axes(tokens as int, position as int);
    }
    let row: u64 = position / 72;
    let heads: u64 = row / tokens;
    Place { kind: heads / 16, head: heads % 16, token: row % tokens, dim: position % 72 }
}

/// What the element at a position of the result is made of.
pub fn rotation_term(tokens: u64, position: u64) -> (r: RotationTerm)
    requires
        tokens <= i32::MAX,
        position < result_len(tokens as int),
    ensures
        r.direct == direct_at(tokens as int, position as int),
        r.partner == partner_at(tokens as int, position as int),
        r.negate == negate_at(position as int),
        r.trig == trig_at(tokens as int, position as int),
        r.direct < tokens * 3456,
        r.partner < tokens * 3456,
        r.trig < tokens * 72,
        r.negate ==> r.partner == r.direct + 36,
        !r.negate ==> r.partner == r.direct - 36,
        r.negate <==> position % 72 < 36,
        r.direct % 72 == position % 72,
        r.trig % 72 == position % 72,
        r.direct / 3456 == r.trig / 72,
{
    let place = place_at(tokens, position);
    let direct: u64 = place.token * 3456 + place.kind * 1152 + place.head * 72 + place.dim;
    let negate: bool = place.dim < 36;
    let partner: u64 = if negate {
        direct + 36
    } else {
        direct - 36
    };
    RotationTerm { direct, partner, negate, trig: place.token * 72 + place.dim }
}

/// The operations by which elements are combined. Nothing is asked of them: they may round.
#[verifier::reject_recursive_types(A)]
pub struct Arithmetic<A> {
    pub mul: spec_fn(A, A) -> A,
    pub sum: spec_fn(A, A) -> A,
    pub neg: spec_fn(A) -> A,
}

/// The result of the fused operation by the element map of this module: what [`rotation_term`]
/// names, combined. It models MLX's kernel, which may round otherwise.
pub open spec fn fused<A>(
    ops: Arithmetic<A>,
    tokens: int,
    qkv: Seq<A>,
    cosine: Seq<A>,
    sine: Seq<A>,
) -> Seq<A> {
    Seq::new(
        result_len(tokens) as nat,
        |p: int|
            {
                let partner = qkv[partner_at(tokens, p)];
                (ops.sum)(
                    (ops.mul)(qkv[direct_at(tokens, p)], cosine[trig_at(tokens, p)]),
                    (ops.mul)(
                        if negate_at(p) {
                            (ops.neg)(partner)
                        } else {
                            partner
                        },
                        sine[trig_at(tokens, p)],
                    ),
                )
            },
    )
}

/// Elements `lo..hi` of the last axis of an array whose last axis has the length `width`.
pub open spec fn slice_last<A>(s: Seq<A>, width: int, lo: int, hi: int) -> Seq<A> {
    Seq::new(
        (s.len() / width as nat * (hi - lo)) as nat,
        |i: int| s[i / (hi - lo) * width + lo + i % (hi - lo)],
    )
}

/// Two arrays that agree in all axes but the last, of the lengths `wa` and `wb`, joined along it.
pub open spec fn concatenate_last<A>(a: Seq<A>, wa: int, b: Seq<A>, wb: int) -> Seq<A> {
    Seq::new(
        a.len() + b.len(),
        |i: int|
            {
                let row = i / (wa + wb);
                let column = i % (wa + wb);
                if column < wa {
                    a[row * wa + column]
                } else {
                    b[row * wb + (column - wa)]
                }
            },
    )
}

/// An array of shape `[L, 2, 16, 72]` with its axes in the order `[1, 2, 0, 3]`.
pub open spec fn heads_first<A>(s: Seq<A>, tokens: int) -> Seq<A> {
    Seq::new(
        s.len(),
        |p: int|
            s[((token_at(tokens, p) * 2 + kind_at(tokens, p)) * 16 + head_at(tokens, p)) * 72
                + dim_at(p)],
    )
}

/// The product of an array with one that is broadcast along its leading axes.
pub open spec fn times_broadcast<A>(ops: Arithmetic<A>, a: Seq<A>, b: Seq<A>) -> Seq<A> {
    Seq::new(a.len(), |i: int| (ops.mul)(a[i], b[i % b.len() as int]))
}

/// The queries and the keys of the projection, in the layout of the result.
pub open spec fn queries_and_keys<A>(tokens: int, qkv: Seq<A>) -> Seq<A> {
    heads_first(slice_last(qkv, 3456, 0, 2304), tokens)
}

/// The two halves of every head, exchanged, the one that comes first negated.
pub open spec fn rotate_half<A>(ops: Arithmetic<A>, qk: Seq<A>) -> Seq<A> {
    let first = slice_last(qk, 72, 0, 36);
    let second = slice_last(qk, 72, 36, 72);
    concatenate_last(second.map_values(ops.neg), 36, first, 36)
}

/// The rotation as a graph of elementary operations: slice, reshape, transpose, negate,
/// concatenate, multiply, add.
pub open spec fn composed<A>(
    ops: Arithmetic<A>,
    tokens: int,
    qkv: Seq<A>,
    cosine: Seq<A>,
    sine: Seq<A>,
) -> Seq<A> {
    let qk = queries_and_keys(tokens, qkv);
    let plain = times_broadcast(ops, qk, cosine);
    let turned = times_broadcast(ops, rotate_half(ops, qk), sine);
    Seq::new(plain.len(), |i: int| (ops.sum)(plain[i], turned[i]))
}

/// What the element of the result for a kind, a head, a token and a place within the head is
/// made of, in row-major order `[2, 16, L, 72]`: the same element of the same head and token in
/// the row of that token, which holds 16 heads of 72 queries and then as many keys; the element 36
/// places on, negated, for the first half of a head, and 36 places back for the second; and the
/// cosine and the sine of that token and place.
pub proof fn lemma_element_of_rotation(tokens: int, kind: int, head: int, token: int, dim: int)
    requires
        0 <= kind < 2,
        0 <= head < 16,
        0 <= token < tokens,
        0 <= dim < 72,
    ensures
        ({
            let position = ((kind * 16 + head) * tokens + token) * 72 + dim;
            let source = token * 3456 + kind * 1152 + head * 72 + dim;
            &&& 0 <= position < 2304 * tokens
            &&& result_len(tokens) == 2304 * tokens
            &&& direct_at(tokens, position) == source
            &&& dim < 36 ==> partner_at(tokens, position) == source + 36 && negate_at(position)
            &&& dim >= 36 ==> partner_at(tokens, position) == source - 36 && !negate_at(position)
            &&& trig_at(tokens, position) == token * 72 + dim
            &&& kind_at(tokens, position) == kind
            &&& head_at(tokens, position) == head
            &&& token_at(tokens, position) == token
            &&& dim_at(position) == dim
        }),
{
    lemma_axes_of_position(tokens, kind, head, token, dim);
    assert(2 * 16 * tokens * 72 == 2304 * tokens) by (nonlinear_arith);
}

/// The value of the element of the result for a kind, a head, a token and a place within the
/// head, in terms of the elements of the projection, the cosines and the sines.
pub proof fn lemma_value_of_rotation<A>(
    ops: Arithmetic<A>,
    tokens: int,
    qkv: Seq<A>,
    cosine: Seq<A>,
    sine: Seq<A>,
    kind: int,
    head: int,
    token: int,
    dim: int,
)
    requires
        0 <= kind < 2,
        0 <= head < 16,
        0 <= token < tokens,
        0 <= dim < 72,
    ensures
        ({
            let position = ((kind * 16 + head) * tokens + token) * 72 + dim;
            let source = token * 3456 + kind * 1152 + head * 72 + dim;
            let trig = token * 72 + dim;
            let turned = if dim < 36 {
                (ops.neg)(qkv[source + 36])
            } else {
                qkv[source - 36]
            };
            &&& fused(ops, tokens, qkv, cosine, sine).len() == 2304 * tokens
            &&& fused(ops, tokens, qkv, cosine, sine)[position] == (ops.sum)(
                (ops.mul)(qkv[source], cosine[trig]),
                (ops.mul)(turned, sine[trig]),
            )
        }),
{
    lemma_element_of_rotation(tokens, kind, head, token, dim);
}

/// The shape of the projection, the cosines and the sines of the given number of tokens.
pub open spec fn inputs_fit<A>(tokens: int, qkv: Seq<A>, cosine: Seq<A>, sine: Seq<A>) -> bool {
    &&& tokens >= 0
    &&& qkv.len() == tokens * 3456
    &&& cosine.len() == tokens * 72
    &&& sine.len() == tokens * 72
}

/// The queries and the keys, in the layout of the result, stand in the projection where
/// `direct_at` says.
proof fn lemma_queries_and_keys<A>(tokens: int, qkv: Seq<A>)
    requires
        tokens >= 0,
        qkv.len() == tokens * 3456,
    ensures
        queries_and_keys(tokens, qkv).len() == result_len(tokens),
        forall|p: int|
            0 <= p < result_len(tokens) ==> #[trigger] queries_and_keys(tokens, qkv)[p]
                == qkv[direct_at(tokens, p)],
{
    assert(2 * 16 * tokens * 72 == 2304 * tokens) by (nonlinear_arith);
    let sliced = slice_last(qkv, 3456, 0, 2304);
    assert(sliced.len() == 2304 * tokens);
    assert forall|p: int| 0 <= p < result_len(tokens) implies #[trigger] queries_and_keys(
        tokens,
        qkv,
    )[p] == qkv[direct_at(tokens, p)] by {
        lemma_axes(tokens, p);
        let token = token_at(tokens, p);
        let rest = kind_at(tokens, p) * 1152 + head_at(tokens, p) * 72 + dim_at(p);
        let i = token * 2304 + rest;
        assert(((token * 2 + kind_at(tokens, p)) * 16 + head_at(tokens, p)) * 72 + dim_at(p) == i);
        assert(0 <= rest < 2304);
        assert(i / 2304 == token && i % 2304 == rest);
        assert(sliced[i] == qkv[i / 2304 * 3456 + 0 + i % 2304]);
    }
}

/// The layout of the result puts each query and each key of the projection where its kind, head,
/// token and place within the head say.
pub proof fn lemma_layout_of_queries_and_keys<A>(
    tokens: int,
    qkv: Seq<A>,
    kind: int,
    head: int,
    token: int,
    dim: int,
)
    requires
        qkv.len() == tokens * 3456,
        0 <= kind < 2,
        0 <= head < 16,
        0 <= token < tokens,
        0 <= dim < 72,
    ensures
        queries_and_keys(tokens, qkv).len() == 2304 * tokens,
        queries_and_keys(tokens, qkv)[((kind * 16 + head) * tokens + token) * 72 + dim] == qkv[token
            * 3456 + kind * 1152 + head * 72 + dim],
{
    lemma_element_of_rotation(tokens, kind, head, token, dim);
    lemma_queries_and_keys(tokens, qkv);
}

/// In each row of 72 elements, the first half of what is rotated is the second half of the row,
/// negated, and its second half the first half of the row.
pub proof fn lemma_halves_are_exchanged<A>(
    ops: Arithmetic<A>,
    rows: int,
    qk: Seq<A>,
    row: int,
    dim: int,
)
    requires
        qk.len() == rows * 72,
        0 <= row < rows,
        0 <= dim < 36,
    ensures
        rotate_half(ops, qk).len() == qk.len(),
        rotate_half(ops, qk)[row * 72 + dim] == (ops.neg)(qk[row * 72 + dim + 36]),
        rotate_half(ops, qk)[row * 72 + dim + 36] == qk[row * 72 + dim],
{
    lemma_rotate_half(ops, rows, qk);
    let p = row * 72 + dim;
    assert(p % 72 == dim);
    assert((p + 36) % 72 == dim + 36);
}

/// Exchanging the halves takes each element from the other half of its head.
proof fn lemma_rotate_half<A>(ops: Arithmetic<A>, rows: int, qk: Seq<A>)
    requires
        rows >= 0,
        qk.len() == rows * 72,
    ensures
        rotate_half(ops, qk).len() == qk.len(),
        forall|p: int|
            0 <= p < qk.len() ==> #[trigger] rotate_half(ops, qk)[p] == if p % 72 < 36 {
                (ops.neg)(qk[p + 36])
            } else {
                qk[p - 36]
            },
{
    let first = slice_last(qk, 72, 0, 36);
    let second = slice_last(qk, 72, 36, 72);
    assert(first.len() == rows * 36 && second.len() == rows * 36);
    assert forall|p: int| 0 <= p < qk.len() implies #[trigger] rotate_half(ops, qk)[p]
        == if p % 72 < 36 {
        (ops.neg)(qk[p + 36])
    } else {
        qk[p - 36]
    } by {
        let row = p / 72;
        let column = p % 72;
        if column < 36 {
            let i = row * 36 + column;
            assert(0 <= i < second.len());
            assert(i / 36 == row && i % 36 == column);
            assert(second[i] == qk[p + 36]);
        } else {
            let i = row * 36 + (column - 36);
            assert(0 <= i < first.len());
            assert(i / 36 == row && i % 36 == column - 36);
            assert(first[i] == qk[p - 36]);
        }
    }
}

/// The positions of one head's two halves differ in their place within the head alone.
proof fn lemma_partner(tokens: int, position: int)
    requires
        0 <= position < result_len(tokens),
    ensures
        ({
            let other = if dim_at(position) < 36 {
                position + 36
            } else {
                position - 36
            };
            &&& 0 <= other < result_len(tokens)
            &&& direct_at(tokens, other) == partner_at(tokens, position)
            &&& partner_at(tokens, other) == direct_at(tokens, position)
            &&& negate_at(other) == !negate_at(position)
        }),
{
    lemma_axes(tokens, position);
    let kind = kind_at(tokens, position);
    let head = head_at(tokens, position);
    let token = token_at(tokens, position);
    let dim = dim_at(position);
    if dim < 36 {
        lemma_axes_of_position(tokens, kind, head, token, dim + 36);
    } else {
        lemma_axes_of_position(tokens, kind, head, token, dim - 36);
    }
}

/// The cosine or sine that broadcasting brings to a position is the one of its token and of
/// its place within the head.
proof fn lemma_trig(tokens: int, position: int)
    requires
        0 <= position < result_len(tokens),
    ensures
        position % (tokens * 72) == trig_at(tokens, position),
        0 <= trig_at(tokens, position) < tokens * 72,
{
    lemma_axes(tokens, position);
    let heads = kind_at(tokens, position) * 16 + head_at(tokens, position);
    let trig = trig_at(tokens, position);
    assert(position == heads * (tokens * 72) + trig) by (nonlinear_arith)
        requires
            position == (heads * tokens + token_at(tokens, position)) * 72 + dim_at(position),
            trig == token_at(tokens, position) * 72 + dim_at(position),
    ;
    lemma_fundamental_div_mod_converse(position, tokens * 72, heads, trig);
}

/// The element map of the fused operation and the graph of elementary operations combine the
/// same elements in the same way, so they agree under any arithmetic. Of MLX's kernel, which
/// agrees with the graph up to rounding, nothing is claimed.
pub proof fn lemma_fused_matches_composed<A>(
    ops: Arithmetic<A>,
    tokens: int,
    qkv: Seq<A>,
    cosine: Seq<A>,
    sine: Seq<A>,
)
    requires
        inputs_fit(tokens, qkv, cosine, sine),
    ensures
        fused(ops, tokens, qkv, cosine, sine) == composed(ops, tokens, qkv, cosine, sine),
{
    let qk = queries_and_keys(tokens, qkv);
    lemma_queries_and_keys(tokens, qkv);
    assert(2 * 16 * tokens * 72 == (32 * tokens) * 72) by (nonlinear_arith);
    lemma_rotate_half(ops, 32 * tokens, qk);
    let left = fused(ops, tokens, qkv, cosine, sine);
    let right = composed(ops, tokens, qkv, cosine, sine);
    assert forall|p: int| 0 <= p < left.len() implies left[p] == right[p] by {
        lemma_axes(tokens, p);
        lemma_partner(tokens, p);
        lemma_trig(tokens, p);
        assert(qk[p] == qkv[direct_at(tokens, p)]);
        if negate_at(p) {
            assert(qk[p + 36] == qkv[partner_at(tokens, p)]);
        } else {
            assert(qk[p - 36] == qkv[partner_at(tokens, p)]);
        }
    }
    assert(left =~= right);
}

/// The values of the projection play no part: two projections with the same queries and keys
/// give the same result.
pub proof fn lemma_values_play_no_part<A>(
    ops: Arithmetic<A>,
    tokens: int,
    qkv: Seq<A>,
    other: Seq<A>,
    cosine: Seq<A>,
    sine: Seq<A>,
)
    requires
        inputs_fit(tokens, qkv, cosine, sine),
        inputs_fit(tokens, other, cosine, sine),
        forall|i: int| 0 <= i < qkv.len() && i % 3456 < 2304 ==> #[trigger] qkv[i] == other[i],
    ensures
        fused(ops, tokens, qkv, cosine, sine) == fused(ops, tokens, other, cosine, sine),
{
    let left = fused(ops, tokens, qkv, cosine, sine);
    let right = fused(ops, tokens, other, cosine, sine);
    assert forall|p: int| 0 <= p < left.len() implies left[p] == right[p] by {
        lemma_axes(tokens, p);
        let direct = direct_at(tokens, p);
        let partner = partner_at(tokens, p);
        assert(0 <= direct < qkv.len() && direct % 3456 < 2304);
        assert(0 <= partner < qkv.len() && partner % 3456 < 2304);
        assert(qkv[direct] == other[direct]);
        assert(qkv[partner] == other[partner]);
    }
    assert(left =~= right);
}

/// A position in the projection tells the token, the kind, the head and the place within it.
proof fn lemma_packed_position(kind: int, head: int, token: int, dim: int)
    requires
        0 <= kind < 2,
        0 <= head < 16,
        0 <= token,
        0 <= dim < 72,
    ensures
        ({
            let i = packed_position(kind, head, token, dim);
            &&& token == i / 3456
            &&& kind == i % 3456 / 1152
            &&& head == i % 1152 / 72
            &&& dim == i % 72
        }),
{
    let i = packed_position(kind, head, token, dim);
    let rest = kind * 1152 + head * 72 + dim;
    assert(0 <= rest < 3456);
    assert(i / 3456 == token && i % 3456 == rest);
    assert(i % 1152 == head * 72 + dim);
}

/// Each query and each key of the projection is rotated into exactly one place of the result:
/// different places start from different elements.
pub proof fn lemma_direct_is_injective(tokens: int, p: int, q: int)
    requires
        0 <= p < result_len(tokens),
        0 <= q < result_len(tokens),
        direct_at(tokens, p) == direct_at(tokens, q),
    ensures
        p == q,
{
    lemma_axes(tokens, p);
    lemma_axes(tokens, q);
    lemma_packed_position(
        kind_at(tokens, p),
        head_at(tokens, p),
        token_at(tokens, p),
        dim_at(p),
    );
    lemma_packed_position(
        kind_at(tokens, q),
        head_at(tokens, q),
        token_at(tokens, q),
        dim_at(q),
    );
}

/// Each query and each key of the projection is rotated into some place of the result.
pub proof fn lemma_direct_is_surjective(tokens: int, i: int) -> (p: int)
    requires
        0 <= i < tokens * 3456,
        i % 3456 < 2304,
    ensures
        0 <= p < result_len(tokens),
        direct_at(tokens, p) == i,
{
    let token = i / 3456;
    let rest = i % 3456;
    let kind = rest / 1152;
    let head = rest % 1152 / 72;
    let dim = rest % 72;
    lemma_axes_of_position(tokens, kind, head, token, dim);
    position_of(tokens, kind, head, token, dim)
}

/// Exact integers in the place of the elements.
pub open spec fn exact() -> Arithmetic<int> {
    Arithmetic { mul: |a: int, b: int| a * b, sum: |a: int, b: int| a + b, neg: |a: int| -a }
}

/// Exact integers are multiplied, added and negated as integers are.
pub proof fn lemma_exact(a: int, b: int)
    ensures
        (exact().mul)(a, b) == a * b,
        (exact().sum)(a, b) == a + b,
        (exact().neg)(a) == 0 - a,
{
}

/// Rotation by the angle zero, with every cosine one and every sine zero, brings the queries
/// and the keys into the layout of the result and changes none of them.
pub proof fn lemma_identity_rotation(tokens: int, qkv: Seq<int>, cosine: Seq<int>, sine: Seq<int>)
    requires
        inputs_fit(tokens, qkv, cosine, sine),
        forall|i: int| 0 <= i < cosine.len() ==> #[trigger] cosine[i] == 1,
        forall|i: int| 0 <= i < sine.len() ==> #[trigger] sine[i] == 0,
    ensures
        fused(exact(), tokens, qkv, cosine, sine) == queries_and_keys(tokens, qkv),
{
    lemma_queries_and_keys(tokens, qkv);
    let left = fused(exact(), tokens, qkv, cosine, sine);
    assert forall|p: int| 0 <= p < left.len() implies left[p] == queries_and_keys(
        tokens,
        qkv,
    )[p] by {
        lemma_trig(tokens, p);
        assert(cosine[trig_at(tokens, p)] == 1);
        assert(sine[trig_at(tokens, p)] == 0);
    }
    assert(left =~= queries_and_keys(tokens, qkv));
}

/// Rotation by a right angle, with every cosine zero and every sine one, exchanges the halves
/// of every head and negates the one that comes first.
pub proof fn lemma_pure_rotation(tokens: int, qkv: Seq<int>, cosine: Seq<int>, sine: Seq<int>)
    requires
        inputs_fit(tokens, qkv, cosine, sine),
        forall|i: int| 0 <= i < cosine.len() ==> #[trigger] cosine[i] == 0,
        forall|i: int| 0 <= i < sine.len() ==> #[trigger] sine[i] == 1,
    ensures
        fused(exact(), tokens, qkv, cosine, sine) == rotate_half(
            exact(),
            queries_and_keys(tokens, qkv),
        ),
{
    let qk = queries_and_keys(tokens, qkv);
    lemma_fused_matches_composed(exact(), tokens, qkv, cosine, sine);
    lemma_queries_and_keys(tokens, qkv);
    assert(2 * 16 * tokens * 72 == (32 * tokens) * 72) by (nonlinear_arith);
    lemma_rotate_half(exact(), 32 * tokens, qk);
    let left = composed(exact(), tokens, qkv, cosine, sine);
    let right = rotate_half(exact(), qk);
    assert forall|p: int| 0 <= p < left.len() implies left[p] == right[p] by {
        lemma_trig(tokens, p);
        assert(cosine[trig_at(tokens, p)] == 0);
        assert(sine[trig_at(tokens, p)] == 1);
        assert(qk[p] * 0 == 0);
        assert(right[p] * 1 == right[p]);
    }
    assert(left =~= right);
}

/// Two right angles make a half turn: exchanging the halves twice negates every element.
pub proof fn lemma_rotating_twice_negates(rows: int, qk: Seq<int>)
    requires
        rows >= 0,
        qk.len() == rows * 72,
    ensures
        rotate_half(exact(), rotate_half(exact(), qk)) == qk.map_values(exact().neg),
{
    lemma_rotate_half(exact(), rows, qk);
    let once = rotate_half(exact(), qk);
    lemma_rotate_half(exact(), rows, once);
    let twice = rotate_half(exact(), once);
    assert forall|p: int| 0 <= p < qk.len() implies twice[p] == qk.map_values(
        exact().neg,
    )[p] by {
        if p % 72 < 36 {
            assert((p + 36) % 72 == p % 72 + 36);
            assert(once[p + 36] == qk[p]);
        } else {
            assert((p - 36) % 72 == p % 72 - 36);
            assert(once[p - 36] == -qk[p]);
        }
    }
    assert(twice =~= qk.map_values(exact().neg));
}

} // verus!
