//! A program whose first two parameters, the noun and the verb, are set
//! before it runs, and whose answer is left at address 0.

use vstd::prelude::*;

use crate::failure::{Cause, Failure};
use crate::intcode::cpu::Machine;
use crate::intcode::error::Fault;
use crate::intcode::run::{headless, headless_run, lemma_headless_run_keeps_image, STEP_BUDGET};
use crate::intcode::Intcode;
use crate::text::int_list;

verus! {

/// The value that the program must leave at address 0 for `q2`.
pub const WANTED: i64 = 19690720;

/// What the program `image` leaves at address 0 when it is run from its
/// start, without input and output, with `noun` at address 1 and `verb` at
/// address 2.
pub open spec fn trial(image: Seq<i64>, noun: i64, verb: i64) -> Result<i64, Cause> {
    let end = headless_run(
        Machine::initial(image).store(1, noun).store(2, verb),
        STEP_BUDGET as nat,
    );
    match end.1 {
        Some(fault) => Err(Cause::Machine(fault)),
        None => Ok(end.0.mem.read(0)),
    }
}

/// The answer to the first question: the program in `text` run with noun 12
/// and verb 2.
pub open spec fn answer(text: Seq<char>) -> Result<i64, Cause> {
    match int_list(text) {
        None => Err(Cause::Machine(Fault::ParseMem)),
        Some(image) => trial(image, 12, 2),
    }
}

/// The number of values that are tried for the noun, and for the verb: the
/// length of the program.
pub open spec fn span(image: Seq<i64>) -> int {
    if image.len() <= i64::MAX {
        image.len() as int
    } else {
        i64::MAX as int
    }
}

/// What the search gives from the pair of `noun` and `verb` on. Pairs are
/// tried in order, for each noun all verbs. The first trial that fails
/// ends the search with its failure, the first that leaves `WANTED` ends it
/// with 100 times the noun plus the verb.
pub open spec fn search(image: Seq<i64>, noun: int, verb: int) -> Result<i64, Cause>
    decreases span(image) - noun, span(image) - verb,
{
    if noun < 0 || verb < 0 || noun >= span(image) {
        Err(Cause::NoAnswer)
    } else if verb >= span(image) {
        search(image, noun + 1, 0)
    } else {
        match trial(image, noun as i64, verb as i64) {
            Err(cause) => Err(cause),
            Ok(left) => if left == WANTED {
                Ok(100i64.wrapping_mul(noun as i64).wrapping_add(verb as i64))
            } else {
                search(image, noun, verb + 1)
            },
        }
    }
}

/// Runs the machine, which is at its start, with `noun` and `verb` in
/// place, and gives what it leaves at address 0.
fn try_pair(intcode: &mut Intcode, noun: i64, verb: i64) -> (r: Result<i64, Failure>)
    requires
        old(intcode)@ == old(intcode)@.reset(),
    ensures
        match trial(old(intcode)@.mem.image, noun, verb) {
            Ok(left) => r == Ok::<i64, Failure>(left),
            Err(cause) => r matches Err(e) && e@ == cause,
        },
        final(intcode)@.mem.image == old(intcode)@.mem.image,
{
    intcode.mem().write(1, noun);
    intcode.mem().write(2, verb);
    proof {
        lemma_headless_run_keeps_image(intcode@, STEP_BUDGET as nat);
    }
    match headless(intcode) {
        Ok(()) => Ok(intcode.mem().read(0)),
        Err(e) => Err(Failure::Machine(e)),
    }
}

/// What the program in `input` leaves at address 0 when it is run with
/// noun 12 and verb 2.
pub fn q1(input: String, _args: &[String]) -> (r: Result<i64, Failure>)
    ensures
        match answer(input@) {
            Ok(left) => r == Ok::<i64, Failure>(left),
            Err(cause) => r matches Err(e) && e@ == cause,
        },
{
    let mut intcode = match Intcode::new(input.as_str()) {
        Ok(intcode) => intcode,
        Err(e) => {
            return Err(Failure::Machine(e));
        },
    };
    try_pair(&mut intcode, 12, 2)
}

/// The first noun and verb with which the program in `input` leaves
/// `WANTED` at address 0, written as 100 times the noun plus the verb. It is
/// `Failure::NoAnswer` if no pair below the length of the program does.
pub fn q2(input: String, _args: &[String]) -> (r: Result<i64, Failure>)
    ensures
        match int_list(input@) {
            None => r matches Err(e) && e@ == Cause::Machine(Fault::ParseMem),
            Some(image) => match search(image, 0, 0) {
                Ok(code) => r == Ok::<i64, Failure>(code),
                Err(cause) => r matches Err(e) && e@ == cause,
            },
        },
{
    let mut intcode = match Intcode::new(input.as_str()) {
        Ok(intcode) => intcode,
        Err(e) => {
            return Err(Failure::Machine(e));
        },
    };
    let ghost image = int_list(input@).unwrap();
    let len = intcode.mem().base_len();
    let len: i64 = if len as u64 <= 0x7fff_ffff_ffff_ffff {
        len as i64
    } else {
        0x7fff_ffff_ffff_ffff
    };
    let mut noun: i64 = 0;
    while noun < len
        invariant
            0 <= noun <= len == span(image),
            int_list(input@) == Some(image),
            intcode@.mem.image == image,
            search(image, noun as int, 0) == search(image, 0, 0),
        decreases len - noun,
    {
        let mut verb: i64 = 0;
        while verb < len
            invariant
                0 <= noun < len == span(image),
                0 <= verb <= len,
                int_list(input@) == Some(image),
                intcode@.mem.image == image,
                search(image, noun as int, verb as int) == search(image, 0, 0),
            decreases len - verb,
        {
            intcode.reset();
            match try_pair(&mut intcode, noun, verb) {
                Err(e) => {
                    return Err(e);
                },
                Ok(left) => {
                    if left == WANTED {
                        return Ok(100i64.wrapping_mul(noun).wrapping_add(verb));
                    }
                },
            }
            verb = verb + 1;
        }
        noun = noun + 1;
    }
    Err(Failure::NoAnswer)
}

} // verus!
