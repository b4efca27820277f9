//! A diagnostic program run with one system identifier as its input.

use vstd::prelude::*;

use crate::failure::{Cause, Failure};
use crate::intcode::cpu::Machine;
use crate::intcode::error::Fault;
use crate::intcode::run::{buffered_run, to_completion, STEP_BUDGET};
use crate::intcode::Intcode;
use crate::text::int_list;

verus! {

/// What the program `text` writes when it is run from its start with the one
/// input `id`, or the fault where the text is no program or the run fails.
pub open spec fn diagnostics(text: Seq<char>, id: i64) -> Result<Seq<i64>, Cause> {
    match int_list(text) {
        None => Err(Cause::Machine(Fault::ParseMem)),
        Some(image) => {
            let run = buffered_run(
                Machine::initial(image),
                seq![id],
                Seq::empty(),
                STEP_BUDGET as nat,
            );
            match run.fault {
                None => Ok(run.outputs),
                Some(fault) => Err(Cause::Machine(fault)),
            }
        },
    }
}

/// Runs the program in `input` with the one input `id` and gives all that it writes.
pub fn run_with_id(input: &str, id: i64) -> (r: Result<Vec<i64>, Failure>)
    ensures
        match diagnostics(input@, id) {
            Ok(outputs) => r matches Ok(v) && v@ == outputs,
            Err(cause) => r matches Err(e) && e@ == cause,
        },
{
    let mut intcode = match Intcode::new(input) {
        Ok(intcode) => intcode,
        Err(e) => {
            return Err(Failure::Machine(e));
        },
    };
    let mut feed: Vec<i64> = Vec::new();
    feed.push(id);
    let mut output: Vec<i64> = Vec::new();
    match to_completion(&mut intcode, &mut feed, &mut output) {
        Ok(()) => Ok(output),
        Err(e) => Err(Failure::Machine(e)),
    }
}

/// The diagnostic codes for system 1, the air conditioner.
pub fn q1(input: String, _args: &[String]) -> (r: Result<Vec<i64>, Failure>)
    ensures
        match diagnostics(input@, 1) {
            Ok(outputs) => r matches Ok(v) && v@ == outputs,
            Err(cause) => r matches Err(e) && e@ == cause,
        },
{
    run_with_id(input.as_str(), 1)
}

/// The diagnostic code for system 5, the thermal radiators.
pub fn q2(input: String, _args: &[String]) -> (r: Result<Vec<i64>, Failure>)
    ensures
        match diagnostics(input@, 5) {
            Ok(outputs) => r matches Ok(v) && v@ == outputs,
            Err(cause) => r matches Err(e) && e@ == cause,
        },
{
    run_with_id(input.as_str(), 5)
}

} // verus!
