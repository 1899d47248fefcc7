//! Embedding the compiled Metal library of MLX in the program.

use crate::text::{replace, replaced};
use vstd::prelude::*;
use vstd::string::*;

verus! {

/// The largest size, in bytes, of a Metal library that holds only what is not compiled on
/// demand.
pub const MAX_JIT_METALLIB_SIZE: u64 = 16777216;

/// What is wrong with the size of a Metal library.
#[derive(Clone, Copy, Debug, PartialEq, Eq, Structural)]
pub enum MetallibSizeError {
    /// The library is empty.
    Empty,
    /// The library is larger than one whose kernels are compiled on demand.
    TooLarge,
}

/// Checks the size of a generated Metal library.
pub fn check_metallib_size(size: u64) -> (r: Result<(), MetallibSizeError>)
    ensures
        r is Ok <==> 0 < size <= 16 * 1024 * 1024,
        r matches Err(MetallibSizeError::Empty) <==> size == 0,
        r matches Err(MetallibSizeError::TooLarge) <==> size > 16 * 1024 * 1024,
{
    if size == 0 {
        Err(MetallibSizeError::Empty)
    } else if size > MAX_JIT_METALLIB_SIZE {
        Err(MetallibSizeError::TooLarge)
    } else {
        Ok(())
    }
}

/// A character as it stands in a string of an assembler: a backslash goes before a backslash
/// and before a quotation mark.
pub open spec fn escaped_char(c: char) -> Seq<char> {
    if c == '\\' || c == '"' {
        seq!['\\', c]
    } else {
        seq![c]
    }
}

/// Characters as they stand in a string of an assembler.
pub open spec fn escaped(s: Seq<char>) -> Seq<char>
    decreases s.len(),
{
    if s.len() == 0 {
        seq![]
    } else {
        escaped(s.drop_last()) + escaped_char(s.last())
    }
}

/// What is replaced in two strings, one behind the other, is replaced in each of them.
proof fn lemma_replaced_concat(a: Seq<char>, b: Seq<char>, from: char, to: Seq<char>)
    ensures
        replaced(a + b, from, to) == replaced(a, from, to) + replaced(b, from, to),
    decreases b.len(),
{
    if b.len() == 0 {
        assert(a + b =~= a);
        assert(replaced(a, from, to) + replaced(b, from, to) =~= replaced(a, from, to));
    } else {
        assert((a + b).drop_last() =~= a + b.drop_last());
        lemma_replaced_concat(a, b.drop_last(), from, to);
        assert(replaced(a + b, from, to) =~= replaced(a, from, to) + replaced(b, from, to));
    }
}

/// Doubling the backslashes and then marking the quotation marks escapes each character.
proof fn lemma_escaped_in_two_steps(s: Seq<char>)
    ensures
        replaced(replaced(s, '\\', seq!['\\', '\\']), '"', seq!['\\', '"']) == escaped(s),
    decreases s.len(),
{
    let twice = seq!['\\', '\\'];
    let marked = seq!['\\', '"'];
    if s.len() > 0 {
        let c = s.last();
        let own: Seq<char> = if c == '\\' {
            twice
        } else {
            seq![c]
        };
        lemma_escaped_in_two_steps(s.drop_last());
        lemma_replaced_concat(replaced(s.drop_last(), '\\', twice), own, '"', marked);
        assert(replaced(own, '"', marked) =~= escaped_char(c)) by {
            reveal_with_fuel(replaced, 3);
            assert(seq![c].drop_last() =~= seq![]);
            assert(twice.drop_last() =~= seq!['\\']);
            assert(seq!['\\'].drop_last() =~= seq![]);
        }
    }
}

/// Each character is escaped for itself: a backslash goes before a backslash and before a
/// quotation mark, and every other character stays alone.
pub proof fn lemma_escaped_char_by_char(s: Seq<char>, c: char)
    ensures
        escaped(Seq::<char>::empty()) == Seq::<char>::empty(),
        c == '\\' || c == '"' ==> escaped(s.push(c)) == escaped(s).push('\\').push(c),
        c != '\\' && c != '"' ==> escaped(s.push(c)) == escaped(s).push(c),
{
    assert(s.push(c).drop_last() =~= s);
    if c == '\\' || c == '"' {
        assert(escaped(s) + seq!['\\', c] =~= escaped(s).push('\\').push(c));
    } else {
        assert(escaped(s) + seq![c] =~= escaped(s).push(c));
    }
}

/// A path with neither a backslash nor a quotation mark stays as it is.
pub proof fn lemma_plain_path_is_kept(path: Seq<char>)
    requires
        !path.contains('\\'),
        !path.contains('"'),
    ensures
        escaped(path) == path,
    decreases path.len(),
{
    if path.len() > 0 {
        let rest = path.drop_last();
        assert(path.contains(path.last()));
        assert forall|c: char| rest.contains(c) implies path.contains(c) by {
            let i = choose|i: int| 0 <= i < rest.len() && rest[i] == c;
            assert(path[i] == c);
        }
        lemma_plain_path_is_kept(rest);
        lemma_escaped_char_by_char(rest, path.last());
        assert(rest.push(path.last()) =~= path);
    }
}

/// Escapes a path for a string of an assembler.
pub fn escape_path(path: &str) -> (r: String)
    ensures
        r@ == escaped(path@),
{
    proof {
        reveal_strlit("\\\\");
        reveal_strlit("\\\"");
        assert("\\\\"@ =~= seq!['\\', '\\']);
        assert("\\\""@ =~= seq!['\\', '"']);
        lemma_escaped_in_two_steps(path@);
    }
    let doubled = replace(path, '\\', "\\\\");
    replace(doubled.as_str(), '"', "\\\"")
}

/// A model of what an assembler reads behind an opening quotation mark: the value of the
/// string, and what follows its closing quotation mark. A backslash stands for the character
/// behind it. Assemblers know other escapes too; an escaped path holds none of them.
pub open spec fn string_read(s: Seq<char>) -> (Seq<char>, Seq<char>)
    decreases s.len(),
{
    if s.len() == 0 {
        (seq![], seq![])
    } else if s[0] == '"' {
        (seq![], s.skip(1))
    } else if s[0] == '\\' && s.len() >= 2 {
        let (value, rest) = string_read(s.skip(2));
        (seq![s[1]] + value, rest)
    } else {
        let (value, rest) = string_read(s.skip(1));
        (seq![s[0]] + value, rest)
    }
}

/// Characters, escaped one by one from the first.
proof fn lemma_escaped_first(s: Seq<char>)
    requires
        s.len() > 0,
    ensures
        escaped(s) == escaped_char(s[0]) + escaped(s.skip(1)),
    decreases s.len(),
{
    if s.len() == 1 {
        assert(s.drop_last() =~= seq![]);
        assert(s.skip(1) =~= seq![]);
        assert(escaped(s) =~= escaped_char(s[0]) + escaped(s.skip(1)));
    } else {
        lemma_escaped_first(s.drop_last());
        assert(s.drop_last().skip(1) =~= s.skip(1).drop_last());
        assert(escaped(s) =~= escaped_char(s[0]) + escaped(s.skip(1)));
    }
}

/// The model of an assembler reads an escaped path back as it was, and finds the end of the
/// string where it is, for every path.
pub proof fn lemma_escaped_path_is_read_back(path: Seq<char>, rest: Seq<char>)
    ensures
        string_read(escaped(path) + seq!['"'] + rest) == (path, rest),
    decreases path.len(),
{
    let text = escaped(path) + seq!['"'] + rest;
    if path.len() == 0 {
        assert(text.skip(1) =~= rest);
        assert(string_read(text).0 =~= path);
    } else {
        lemma_escaped_first(path);
        lemma_escaped_path_is_read_back(path.skip(1), rest);
        let head = escaped_char(path[0]);
        let tail = escaped(path.skip(1)) + seq!['"'] + rest;
        assert(text =~= head + tail);
        assert(text.skip(head.len() as int) =~= tail);
        assert(seq![path[0]] + path.skip(1) =~= path);
    }
}

/// Different paths stay different when they are escaped.
pub proof fn lemma_escaped_is_injective(a: Seq<char>, b: Seq<char>)
    requires
        escaped(a) == escaped(b),
    ensures
        a == b,
{
    lemma_escaped_path_is_read_back(a, seq![]);
    lemma_escaped_path_is_read_back(b, seq![]);
}

/// The assembly before the path of the library.
pub const ASSEMBLY_HEAD: &'static str = ".section __TEXT,__mlx_metal\n.balign 16\n.globl _mlx_embedded_metallib_start\n_mlx_embedded_metallib_start:\n.incbin \"";

/// The assembly behind the path of the library.
pub const ASSEMBLY_TAIL: &'static str = "\"\n.globl _mlx_embedded_metallib_end\n_mlx_embedded_metallib_end:\n.subsections_via_symbols\n.no_dead_strip _mlx_embedded_metallib_start\n";

/// The assembly that places the library at a path in the program, between the symbols
/// `_mlx_embedded_metallib_start` and `_mlx_embedded_metallib_end`.
pub fn embedding_assembly(metallib_path: &str) -> (r: String)
    ensures
        r@ == ASSEMBLY_HEAD@ + escaped(metallib_path@) + ASSEMBLY_TAIL@,
        r@
            == ".section __TEXT,__mlx_metal\n.balign 16\n.globl _mlx_embedded_metallib_start\n_mlx_embedded_metallib_start:\n.incbin \""@
            + escaped(metallib_path@)
            + "\"\n.globl _mlx_embedded_metallib_end\n_mlx_embedded_metallib_end:\n.subsections_via_symbols\n.no_dead_strip _mlx_embedded_metallib_start\n"@,
{
    let path = escape_path(metallib_path);
    let mut r = ASSEMBLY_HEAD.to_owned();
    r.append(path.as_str());
    r.append(ASSEMBLY_TAIL);
    r
}

/// The assembly opens a string just before the path and closes it just behind it, so the path
/// that the model of an assembler reads is the path of the library.
pub proof fn lemma_assembly_names_the_path(path: Seq<char>)
    ensures
        ASSEMBLY_HEAD@.last() == '"',
        string_read(escaped(path) + ASSEMBLY_TAIL@) == (path, ASSEMBLY_TAIL@.skip(1)),
{
    reveal_strlit(
        ".section __TEXT,__mlx_metal\n.balign 16\n.globl _mlx_embedded_metallib_start\n_mlx_embedded_metallib_start:\n.incbin \"",
    );
    reveal_strlit(
        "\"\n.globl _mlx_embedded_metallib_end\n_mlx_embedded_metallib_end:\n.subsections_via_symbols\n.no_dead_strip _mlx_embedded_metallib_start\n",
    );
    let rest = ASSEMBLY_TAIL@.skip(1);
    lemma_escaped_path_is_read_back(path, rest);
    assert(ASSEMBLY_TAIL@[0] == '"');
    assert(escaped(path) + ASSEMBLY_TAIL@ =~= escaped(path) + seq!['"'] + rest);
}

} // verus!
