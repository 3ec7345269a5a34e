//! The tab order of a form: which input has the focus after a step forward
//! or back.
//!
//! A form has `len` inputs, numbered from 0, and at most one of them has the
//! focus.  Stepping forward from the last input, or back from the first,
//! leaves the form without a focused input; stepping from there enters the
//! form again at the near end.

use crate::stdlib_utils::AndThenOrOption;
use vstd::prelude::*;

verus! {

/// The focus after a step forward.
pub open spec fn spec_next_focus(focused: Option<usize>, len: usize) -> Option<usize> {
    match focused {
        Some(idx) => if idx < len - 1 {
            Some((idx + 1) as usize)
        } else {
            None
        },
        None => Some(0),
    }
}

/// The focus after a step back.
pub open spec fn spec_prev_focus(focused: Option<usize>, len: usize) -> Option<usize> {
    match focused {
        Some(idx) => if idx == 0 {
            None
        } else {
            Some((idx - 1) as usize)
        },
        None => Some((len - 1) as usize),
    }
}

/// The input that has the focus after a step forward from `focused`, in a
/// form of `len` inputs.
pub fn next_focus(focused: Option<usize>, len: usize) -> (next: Option<usize>)
    requires
        focused is Some ==> len > 0,
    ensures
        next == spec_next_focus(focused, len),
{
    let step = |idx: usize| -> (out: Option<usize>)
        requires
            len > 0,
        ensures
            out == spec_next_focus(Some(idx), len),
        {
            if idx < len - 1 {
                Some(idx + 1)
            } else {
                None
            }
        };
    focused.and_then_or(step, Some(0))
}

/// The input that has the focus after a step back from `focused`, in a form
/// of `len` inputs, of which there is at least one.
pub fn prev_focus(focused: Option<usize>, len: usize) -> (prev: Option<usize>)
    requires
        len > 0,
    ensures
        prev == spec_prev_focus(focused, len),
{
    let step = |idx: usize| -> (out: Option<usize>)
        ensures
            out == spec_prev_focus(Some(idx), len),
        {
            if idx == 0 {
                None
            } else {
                Some(idx - 1)
            }
        };
    focused.and_then_or(step, Some(len - 1))
}

} // verus!
