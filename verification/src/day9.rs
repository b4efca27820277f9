//! The sensor boost program, run in test mode and in boost mode.

use vstd::prelude::*;

use crate::day5::{diagnostics, run_with_id};
use crate::failure::Failure;

verus! {

/// What the program writes in test mode, which is input 1.
pub fn q1(input: String, _args: &[String]) -> (r: Result<Vec<i64>, Failure>)
    ensures
        match diagnostics(input@, 1) {
            Ok(outputs) => r matches Ok(v) && v@ == outputs,
            Err(cause) => r matches Err(e) && e@ == cause,
        },
{
    run_with_id(input.as_str(), 1)
}

/// What the program writes in boost mode, which is input 2.
pub fn q2(input: String, _args: &[String]) -> (r: Result<Vec<i64>, Failure>)
    ensures
        match diagnostics(input@, 2) {
            Ok(outputs) => r matches Ok(v) && v@ == outputs,
            Err(cause) => r matches Err(e) && e@ == cause,
        },
{
    run_with_id(input.as_str(), 2)
}

} // verus!
