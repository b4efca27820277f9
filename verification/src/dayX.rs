//! The frame of a solver before its puzzle is known: it reads its input and
//! answers nothing.

use vstd::prelude::*;

use crate::failure::Failure;

verus! {

/// Answers nothing, whatever the input.
pub fn q1(input: String, _args: &[String]) -> (r: Result<(), Failure>)
    ensures
        r is Ok,
{
    Ok(())
}

/// Answers nothing, whatever the input.
pub fn q2(input: String, _args: &[String]) -> (r: Result<(), Failure>)
    ensures
        r is Ok,
{
    Ok(())
}

} // verus!
