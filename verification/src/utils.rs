//! Small helpers.

use vstd::prelude::*;

verus! {

/// The value of `result`, or `None` after recording its error in `errors`.
pub fn unwrap_or_err<T, E>(result: Result<T, E>, errors: &mut Vec<E>) -> (res: Option<T>)
    ensures
        match result {
            Ok(r) => res == Some(r) && final(errors)@ == old(errors)@,
            Err(e) => res is None && final(errors)@ == old(errors)@.push(e),
        },
{
    match result {
        Ok(r) => Some(r),
        Err(e) => {
            errors.push(e);
            None
        },
    }
}

} // verus!
