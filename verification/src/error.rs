//! The failure taxonomy: every pipeline stage reports either a platform
//! failure (message plus the platform's numeric code) or a validation
//! failure of this library's own (message only).

use vstd::prelude::*;

verus! {

/// A recognition-pipeline failure.
///
/// `RuntimeError` wraps a platform-engine failure verbatim: its diagnostic
/// message and its numeric status code. `OperationError` reports a failure
/// of this library's own validation (an unsupported language tag, an
/// unreadable image file).
#[derive(Debug)]
pub enum DocrError {
    RuntimeError(String, i32),
    OperationError(String),
}

pub type DocrResult<T> = Result<T, DocrError>;

impl DocrError {
    /// The human-readable message carried by the error, whichever variant it is.
    pub open spec fn message_spec(&self) -> Seq<char> {
        match self {
            DocrError::RuntimeError(msg, _) => msg@,
            DocrError::OperationError(msg) => msg@,
        }
    }

    /// Borrow the message carried by the error.
    pub fn message(&self) -> (m: &String)
        ensures
            m@ == self.message_spec(),
    {
        match self {
            DocrError::RuntimeError(msg, _) => msg,
            DocrError::OperationError(msg) => msg,
        }
    }
}

/// The message of the validation error for an image file the codec could
/// not decode.
pub open spec fn file_open_message(filename: Seq<char>) -> Seq<char> {
    "Failed to open image file: "@ + filename
}

/// The validation error reported when the image codec cannot decode the
/// named file. The codec's own error is dropped, never propagated.
pub fn file_open_error(filename: &str) -> (e: DocrError)
    ensures
        e matches DocrError::OperationError(m) && m@ == file_open_message(filename@),
{
    let mut m = String::from_str("Failed to open image file: ");
    m.append(filename);
    DocrError::OperationError(m)
}

/// The integer an error maps to at the native-ABI boundary: a platform
/// failure keeps the platform's own code, a validation failure becomes -1.
pub open spec fn error_code_spec(err: DocrError) -> i32 {
    match err {
        DocrError::RuntimeError(_, code) => code,
        DocrError::OperationError(_) => (-1) as i32,
    }
}

/// Map an error to the integer returned across the native-ABI boundary.
pub fn get_error_code(err: DocrError) -> (code: i32)
    ensures
        code == error_code_spec(err),
        err is OperationError ==> code == -1,
{
    match err {
        DocrError::RuntimeError(_, code) => code,
        DocrError::OperationError(_) => -1,
    }
}

} // verus!
