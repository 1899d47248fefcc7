//! The errors of the front end, and how the answer of a call into MLX is read.

use vstd::prelude::*;

verus! {

/// A failure that MLX reported, in its own words.
#[derive(Debug)]
pub struct Exception {
    pub what: String,
}

/// A NUL byte in the middle of what was to become a C string.
#[derive(Debug)]
pub struct NulError {
    /// Where the first NUL byte stands.
    pub position: usize,
    /// The bytes that hold it.
    pub bytes: Vec<u8>,
}

/// Why a path could not be handed to MLX, or was not taken by it.
#[derive(Debug)]
pub enum IoError {
    /// The path is not valid UTF-8.
    InvalidUtf8,
    /// The path holds a NUL byte.
    NulError(NulError),
    /// MLX reported a failure.
    Exception(Exception),
}

impl From<NulError> for IoError {
    fn from(err: NulError) -> (r: IoError) {
        IoError::NulError(err)
    }
}

impl vstd::std_specs::convert::FromSpecImpl<NulError> for IoError {
    open spec fn obeys_from_spec() -> bool {
        true
    }

    open spec fn from_spec(err: NulError) -> IoError {
        IoError::NulError(err)
    }
}

impl From<Exception> for IoError {
    fn from(err: Exception) -> (r: IoError) {
        IoError::Exception(err)
    }
}

impl vstd::std_specs::convert::FromSpecImpl<Exception> for IoError {
    open spec fn obeys_from_spec() -> bool {
        true
    }

    open spec fn from_spec(err: Exception) -> IoError {
        IoError::Exception(err)
    }
}

/// The status by which MLX's C interface reports success.
pub const SUCCESS: i32 = 0;

/// Reads the answer of a call: what it wrote to its results counts only under the status
/// of success; under any other, the error that MLX recorded is the answer.
pub fn outcome<T>(status: i32, value: T, what: String) -> (r: Result<T, Exception>)
    ensures
        status == SUCCESS ==> r == Ok::<T, Exception>(value),
        status != SUCCESS ==> r == Err::<T, Exception>(Exception { what }),
        r is Ok <==> status == 0,
        r matches Ok(v) ==> v == value,
        r matches Err(e) ==> e.what == what,
{
    if status == SUCCESS {
        Ok(value)
    } else {
        Err(Exception { what })
    }
}

} // verus!
