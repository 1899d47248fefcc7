//! Characters and strings.

use vstd::prelude::*;
use vstd::string::*;
use vstd::utf8::*;

verus! {

/// `String::push` appends the character.
pub assume_specification[ String::push ](s: &mut String, c: char)
    ensures
        final(s)@ == old(s)@.push(c),
;

/// The characters with every occurrence of one replaced by a string.
pub open spec fn replaced(s: Seq<char>, from: char, to: Seq<char>) -> Seq<char>
    decreases s.len(),
{
    if s.len() == 0 {
        seq![]
    } else {
        replaced(s.drop_last(), from, to) + if s.last() == from {
            to
        } else {
            seq![s.last()]
        }
    }
}

/// Each character is replaced for itself: one that is sought by the string, any other by itself,
/// in the order in which they stand.
pub proof fn lemma_replaced_char_by_char(s: Seq<char>, c: char, from: char, to: Seq<char>)
    ensures
        replaced(Seq::<char>::empty(), from, to) == Seq::<char>::empty(),
        c == from ==> replaced(s.push(c), from, to) == replaced(s, from, to) + to,
        c != from ==> replaced(s.push(c), from, to) == replaced(s, from, to).push(c),
{
    assert(s.push(c).drop_last() =~= s);
    assert(replaced(s, from, to) + seq![c] =~= replaced(s, from, to).push(c));
}

/// Replaces every occurrence of a character by a string.
pub fn replace(s: &str, from: char, to: &str) -> (r: String)
    ensures
        r@ == replaced(s@, from, to@),
{
    let mut r = String::new();
    for c in it: s.chars()
        invariant
            it.seq() == s@,
            r@ == replaced(s@.take(it.index()), from, to@),
    {
        let ghost i = it.index();
        assert(s@.take(i + 1).drop_last() =~= s@.take(i));
        if c == from {
            r.append(to);
        } else {
            r.push(c);
        }
    }
    assert(s@.take(s@.len() as int) =~= s@);
    r
}

/// The characters with Unicode's property `White_Space`.
pub open spec fn white_space(c: char) -> bool {
    let u = c as u32;
    ||| 0x9 <= u <= 0xD
    ||| u == 0x20
    ||| u == 0x85
    ||| u == 0xA0
    ||| u == 0x1680
    ||| 0x2000 <= u <= 0x200A
    ||| u == 0x2028
    ||| u == 0x2029
    ||| u == 0x202F
    ||| u == 0x205F
    ||| u == 0x3000
}

/// The characters without the whitespace before them.
pub open spec fn without_leading_space(s: Seq<char>) -> Seq<char>
    decreases s.len(),
{
    if s.len() > 0 && white_space(s.first()) {
        without_leading_space(s.drop_first())
    } else {
        s
    }
}

/// The characters without the whitespace behind them.
pub open spec fn without_trailing_space(s: Seq<char>) -> Seq<char>
    decreases s.len(),
{
    if s.len() > 0 && white_space(s.last()) {
        without_trailing_space(s.drop_last())
    } else {
        s
    }
}

/// The characters without the whitespace around them.
pub open spec fn trimmed(s: Seq<char>) -> Seq<char> {
    without_trailing_space(without_leading_space(s))
}

/// What is left of a string by trimming it has no whitespace at its ends, and only whitespace
/// was taken from them.
pub proof fn lemma_trimmed(s: Seq<char>) -> (cut: (Seq<char>, Seq<char>))
    ensures
        s == cut.0 + trimmed(s) + cut.1,
        forall|i: int| 0 <= i < cut.0.len() ==> white_space(#[trigger] cut.0[i]),
        forall|i: int| 0 <= i < cut.1.len() ==> white_space(#[trigger] cut.1[i]),
        trimmed(s).len() > 0 ==> !white_space(trimmed(s).first()) && !white_space(
            trimmed(s).last(),
        ),
{
    let rest = without_leading_space(s);
    let before = lemma_leading(s);
    let after = lemma_trailing(rest);
    assert(s =~= before + trimmed(s) + after);
    if trimmed(s).len() > 0 {
        assert(rest[0] == trimmed(s)[0]);
    }
    (before, after)
}

/// What is taken from the beginning of a string.
proof fn lemma_leading(s: Seq<char>) -> (cut: Seq<char>)
    ensures
        s == cut + without_leading_space(s),
        forall|i: int| 0 <= i < cut.len() ==> white_space(#[trigger] cut[i]),
        without_leading_space(s).len() > 0 ==> !white_space(without_leading_space(s).first()),
    decreases s.len(),
{
    if s.len() > 0 && white_space(s.first()) {
        let cut = lemma_leading(s.drop_first());
        let rest = without_leading_space(s.drop_first());
        assert(s =~= seq![s.first()] + s.drop_first());
        assert(s.drop_first() == cut + rest);
        assert(seq![s.first()] + (cut + rest) =~= (seq![s.first()] + cut) + rest);
        seq![s.first()] + cut
    } else {
        assert(s =~= Seq::<char>::empty() + s);
        Seq::empty()
    }
}

/// What is taken from the end of a string.
proof fn lemma_trailing(s: Seq<char>) -> (cut: Seq<char>)
    ensures
        s == without_trailing_space(s) + cut,
        forall|i: int| 0 <= i < cut.len() ==> white_space(#[trigger] cut[i]),
        without_trailing_space(s).len() > 0 ==> !white_space(without_trailing_space(s).last()),
    decreases s.len(),
{
    if s.len() > 0 && white_space(s.last()) {
        let cut = lemma_trailing(s.drop_last());
        let rest = without_trailing_space(s.drop_last());
        assert(s =~= s.drop_last() + seq![s.last()]);
        assert(s.drop_last() == rest + cut);
        assert((rest + cut) + seq![s.last()] =~= rest + (cut + seq![s.last()]));
        cut + seq![s.last()]
    } else {
        assert(s =~= s + Seq::<char>::empty());
        Seq::empty()
    }
}

/// `str::trim` gives the string without leading and trailing whitespace, by which it means
/// the characters of Unicode's property `White_Space`.
#[verifier::external_body]
pub(crate) fn trim(s: &str) -> (r: &str)
    ensures
        r@ == trimmed(s@),
{
    s.trim()
}

/// The characters that `String::from_utf8_lossy` gives for some bytes.
pub uninterp spec fn utf8_lossy(bytes: Seq<u8>) -> Seq<char>;

/// `String::from_utf8_lossy` decodes valid UTF-8 as it is. In other bytes it replaces what is
/// invalid; how much of it becomes one replacement character is left to the name.
#[verifier::external_body]
pub(crate) fn from_utf8_lossy(bytes: &[u8]) -> (r: String)
    ensures
        r@ == utf8_lossy(bytes@),
        valid_utf8(bytes@) ==> r@ == decode_utf8(bytes@),
{
    String::from_utf8_lossy(bytes).into_owned()
}

} // verus!
