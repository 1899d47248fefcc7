//! Metal backend configuration.

use crate::error::{outcome, Exception, IoError, NulError, SUCCESS};
use vstd::prelude::*;
use vstd::string::*;
use vstd::utf8::*;

verus! {

/// The error of `std::str::from_utf8`. Nothing is known of what it holds.
#[verifier::external_type_specification]
#[verifier::external_body]
pub struct ExUtf8Error(std::str::Utf8Error);

/// `std::str::from_utf8` succeeds on valid UTF-8 and on nothing else, and gives the string
/// whose encoding the bytes are.
pub assume_specification[ std::str::from_utf8 ](v: &[u8]) -> (r: Result<
    &str,
    std::str::Utf8Error,
>)
    ensures
        r is Ok <==> valid_utf8(v@),
        r matches Ok(s) ==> s.spec_bytes() == v@,
;

/// Whether a byte is the first NUL byte of a string of bytes.
pub open spec fn first_nul(bytes: Seq<u8>, position: int) -> bool {
    &&& 0 <= position < bytes.len()
    &&& bytes[position] == 0
    &&& forall|i: int| 0 <= i < position ==> #[trigger] bytes[i] != 0
}

/// The bytes with a NUL byte behind them, as C wants a string; a NUL byte among them is an
/// error.
pub fn c_string(bytes: &[u8]) -> (r: Result<Vec<u8>, NulError>)
    ensures
        r is Ok <==> !bytes@.contains(0),
        r matches Ok(c) ==> c@ == bytes@.push(0),
        r matches Err(e) ==> first_nul(bytes@, e.position as int) && e.bytes@ == bytes@,
        r is Ok <==> (forall|i: int| 0 <= i < bytes@.len() ==> #[trigger] bytes@[i] != 0),
        r matches Err(e) ==> {
            &&& e.position < bytes@.len()
            &&& bytes@[e.position as int] == 0
            &&& forall|i: int| 0 <= i < e.position ==> #[trigger] bytes@[i] != 0
        },
{
    let mut position: usize = bytes.len();
    let mut copy: Vec<u8> = Vec::new();
    let mut i: usize = 0;
    while i < bytes.len()
        invariant
            i <= bytes@.len(),
            copy@ == bytes@.take(i as int),
            position == bytes@.len() ==> forall|j: int| 0 <= j < i ==> #[trigger] bytes@[j] != 0,
            position < bytes@.len() ==> first_nul(bytes@, position as int),
            position <= bytes@.len(),
        decreases bytes@.len() - i,
    {
        if bytes[i] == 0 && position == bytes.len() {
            position = i;
        }
        copy.push(bytes[i]);
        assert(copy@ =~= bytes@.take(i + 1));
        i += 1;
    }
    assert(copy@ =~= bytes@);
    if position < bytes.len() {
        assert(bytes@.contains(0)) by {
            assert(bytes@[position as int] == 0);
        }
        Err(NulError { position, bytes: copy })
    } else {
        copy.push(0);
        Ok(copy)
    }
}

/// Check whether the Metal backend is available, as `mlx_metal_is_available` answered it.
pub fn is_available(status: i32, available: bool, what: String) -> (r: Result<bool, Exception>)
    ensures
        status == SUCCESS ==> r == Ok::<bool, Exception>(available),
        status != SUCCESS ==> r == Err::<bool, Exception>(Exception { what }),
        r is Ok <==> status == 0,
        r matches Ok(b) ==> b == available,
        r matches Err(e) ==> e.what == what,
{
    outcome(status, available, what)
}

/// The call of `mlx_metal_set_metallib_path`: its argument, a C string.
#[derive(Debug)]
pub struct SetMetallibPath {
    pub path: Vec<u8>,
}

/// Set the path to `mlx.metallib` before the first MLX operation.
///
/// The path is given as the bytes of its encoding. One that is not valid UTF-8, or that holds
/// a NUL byte, is refused before MLX hears of it.
///
/// MLX initializes its Metal device lazily. Calling this after an array or
/// stream has initialized the device does not replace the loaded library.
pub fn set_metallib_path(path: &[u8]) -> (r: Result<SetMetallibPath, IoError>)
    ensures
        r is Ok <==> valid_utf8(path@) && !path@.contains(0),
        r matches Ok(call) ==> call.path@ == path@.push(0),
        r matches Err(IoError::InvalidUtf8) <==> !valid_utf8(path@),
        r matches Err(IoError::NulError(_)) <==> valid_utf8(path@) && path@.contains(0),
        r matches Err(IoError::NulError(e)) ==> first_nul(path@, e.position as int) && e.bytes@
            == path@,
        r matches Err(IoError::NulError(e)) ==> {
            &&& e.position < path@.len()
            &&& path@[e.position as int] == 0
            &&& forall|i: int| 0 <= i < e.position ==> #[trigger] path@[i] != 0
        },
{
    let path = match std::str::from_utf8(path) {
        Ok(path) => path,
        Err(_) => {
            return Err(IoError::InvalidUtf8);
        },
    };
    match c_string(path.as_bytes()) {
        Ok(path) => Ok(SetMetallibPath { path }),
        Err(err) => Err(IoError::from(err)),
    }
}

impl SetMetallibPath {
    /// Reads the answer of the call.
    pub fn finish(self, status: i32, what: String) -> (r: Result<(), IoError>)
        ensures
            status == SUCCESS ==> r == Ok::<(), IoError>(()),
            status != SUCCESS ==> r == Err::<(), IoError>(IoError::Exception(Exception { what })),
            r is Ok <==> status == 0,
            r matches Err(e) ==> (e matches IoError::Exception(x) && x.what == what),
    {
        match outcome(status, (), what) {
            Ok(done) => Ok(done),
            Err(err) => Err(IoError::from(err)),
        }
    }
}

/// A path survives the way through C: what C reads, up to the first NUL byte, is the path.
pub proof fn lemma_c_string_is_read_back(bytes: Seq<u8>)
    requires
        !bytes.contains(0),
    ensures
        first_nul(bytes.push(0), bytes.len() as int),
        bytes.push(0).take(bytes.len() as int) == bytes,
{
    let c = bytes.push(0);
    assert forall|i: int| 0 <= i < bytes.len() implies #[trigger] c[i] != 0 by {
        assert(bytes.contains(bytes[i]));
    }
    assert(c.take(bytes.len() as int) =~= bytes);
}

/// A first NUL byte is a NUL byte, and none stands before it.
pub proof fn lemma_first_nul_is_first(bytes: Seq<u8>, position: int)
    ensures
        first_nul(bytes, position) <==> {
            &&& 0 <= position < bytes.len()
            &&& bytes[position] == 0
            &&& !bytes.take(position).contains(0)
        },
{
    if 0 <= position < bytes.len() {
        let before = bytes.take(position);
        if first_nul(bytes, position) {
            assert forall|i: int| 0 <= i < before.len() implies before[i] != 0 by {
                assert(bytes[i] != 0);
            }
        } else if bytes[position] == 0 {
            let i = choose|i: int| 0 <= i < position && #[trigger] bytes[i] == 0;
            assert(before[i] == 0);
        }
    }
}

/// There is one first NUL byte at most, so the position that an error names is settled.
pub proof fn lemma_first_nul_is_unique(bytes: Seq<u8>, i: int, j: int)
    requires
        first_nul(bytes, i),
        first_nul(bytes, j),
    ensures
        i == j,
{
}

} // verus!
