//! The `dream_error` tool: the model gives up, with a reason.

use vstd::prelude::*;

use crate::error::{DreamError, ErrorKind};
use crate::tools::ctx::Mode;

verus! {

/// The error a `dream_error` call ends the job with: an interpreter error while
/// interpreting, else a composer error; an empty reason is `unspecified error`.
pub fn abort(mode: &Mode, error: &str) -> (e: DreamError)
    ensures
        e@.0 == (if mode is Lucid { ErrorKind::Interpreter } else { ErrorKind::Composer }),
        e@.1 == (if error@.len() == 0 { "unspecified error"@ } else { error@ }),
{
    let error = if error.unicode_len() == 0 {
        "unspecified error"
    } else {
        error
    };
    match mode {
        Mode::Lucid => DreamError::interpreter(error),
        _ => DreamError::composer(error),
    }
}

} // verus!
