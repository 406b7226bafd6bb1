//! Arity checks shared by the built-in operators and by lambda application.

use vstd::prelude::*;
use crate::error::{Error, ErrorView};

verus! {

/// Succeeds exactly when `got` is at least `at_least`.
pub fn ensure_minimum_arity(at_least: u8, got: u8) -> (r: Result<(), Error>)
    ensures
        at_least <= got ==> r is Ok,
        at_least > got ==> r is Err && r->Err_0@ == (ErrorView::MinimumArityMismatch {
            at_least,
            received: got,
        }),
{
    if at_least <= got {
        Ok(())
    } else {
        Err(Error::MinimumArityMismatch { at_least, received: got })
    }
}

/// Succeeds exactly when `got` equals `want`.
pub fn ensure_exact_arity(want: u8, got: u8) -> (r: Result<(), Error>)
    ensures
        want == got ==> r is Ok,
        want != got ==> r is Err && r->Err_0@ == (ErrorView::ExactArityMismatch {
            expected: want,
            received: got,
        }),
{
    if want == got {
        Ok(())
    } else {
        Err(Error::ExactArityMismatch { expected: want, received: got })
    }
}

} // verus!
