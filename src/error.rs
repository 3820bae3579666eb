//! Failures that a stage can report, and the result codes they surface as.
use vstd::prelude::*;

use crate::domain::DecodeError;

verus! {

/// Why a stage did not succeed.
#[derive(Clone, Copy, Debug, PartialEq, Eq, Structural)]
pub enum StageError {
    /// Init was given a selector that the selector table does not hold.
    UnrecognizedSelector,
    /// A calldata entry has the wrong tag, or the calldata has the wrong shape.
    MalformedCalldata,
    /// Decoded output would exceed a fixed capacity.
    OutOfCapacity,
    /// The domain escape digit stands where it is not allowed.
    UnsupportedAlphabet,
    /// Finalize could not find the call's target in the token registry.
    UnknownToken,
    /// The host buffer cannot hold the session context.
    ContextTooSmall,
    /// GetUi asked for a screen that does not exist.
    UnknownScreenIndex,
    /// The stage was invoked out of its order in the session.
    OutOfOrder,
}

/// The code reported to the host for a stage's outcome.
#[derive(Clone, Copy, Debug, PartialEq, Eq, Structural)]
pub enum ResultCode {
    /// The stage succeeded.
    Success,
    /// The stage failed and the session cannot go on.
    Failure,
    /// The stage needs information that the host may supply by other means.
    NeedInfo,
}

/// The result code of a failure: an unknown token is recoverable, as the
/// host may supply its metadata by other means; every other failure is fatal.
pub open spec fn error_code_spec(e: StageError) -> ResultCode {
    if e == StageError::UnknownToken {
        ResultCode::NeedInfo
    } else {
        ResultCode::Failure
    }
}

/// The result code of a failure.
pub fn error_code(e: StageError) -> (r: ResultCode)
    ensures
        r == error_code_spec(e),
{
    match e {
        StageError::UnknownToken => ResultCode::NeedInfo,
        _ => ResultCode::Failure,
    }
}

/// The stage failure that a domain decoding failure stands for.
pub open spec fn decode_error_spec(e: DecodeError) -> StageError {
    match e {
        DecodeError::UnsupportedAlphabet => StageError::UnsupportedAlphabet,
        DecodeError::OutOfCapacity => StageError::OutOfCapacity,
    }
}

/// The stage failure that a domain decoding failure stands for.
pub fn from_decode_error(e: DecodeError) -> (r: StageError)
    ensures
        r == decode_error_spec(e),
{
    match e {
        DecodeError::UnsupportedAlphabet => StageError::UnsupportedAlphabet,
        DecodeError::OutOfCapacity => StageError::OutOfCapacity,
    }
}

} // verus!
