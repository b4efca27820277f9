//! Ways to run a machine to its end: without input and output, from buffer
//! to buffer, and up to its next output.
//!
//! Each is a loop round `Intcode::step` with its own pair of operations. A
//! run may take up to `STEP_BUDGET` steps; the `_within` forms take the
//! number as an argument.

use std::collections::VecDeque;
use vstd::prelude::*;

use super::cpu::{Instruction, Intcode, Machine};
use super::error::{fault_of, Error, Fault};
use super::io::{exhausted_reason, headless_read_reason, headless_write_reason, NoIo};

verus! {

/// The number of steps that `headless`, `to_completion` and `until_output`
/// give a machine before they stop it with `Error::StepLimit`.
pub const STEP_BUDGET: u64 = 0xffff_ffff_ffff_ffff;

/// How a run without input and output ends: the machine it leaves, and the
/// fault that stopped it, if one did.
///
/// The run carries out instruction after instruction. It ends well at a halt.
/// It ends with a fault where decoding fails, at a read or a write, and
/// where `fuel` steps were taken without reaching any of these.
pub open spec fn headless_run(m: Machine, fuel: nat) -> (Machine, Option<Fault>)
    decreases fuel,
{
    if fuel == 0 {
        (m, Some(Fault::StepLimit))
    } else {
        match m.decode() {
            Err(e) => (m, Some(e@)),
            Ok((Instruction::Geti(_), _)) => (m, Some(Fault::Input(headless_read_reason()))),
            Ok((Instruction::Puti(_), _)) => (m, Some(Fault::Output(headless_write_reason()))),
            Ok((Instruction::Halt, _)) => (m, None),
            Ok((instr, width)) => headless_run(m.apply(instr, width, 0), (fuel - 1) as nat),
        }
    }
}

/// How a run from buffer to buffer ends.
pub struct Buffered {
    /// The machine that the run leaves.
    pub machine: Machine,
    /// The inputs that were not read, the next one first.
    pub pending: Seq<i64>,
    /// All outputs, the first one first.
    pub outputs: Seq<i64>,
    /// The fault that stopped the run, if one did.
    pub fault: Option<Fault>,
}

/// How a run ends that reads from `pending`, first item first, and adds what
/// it writes to `outputs`.
///
/// It ends well at a halt. It ends with a fault where decoding fails, at a
/// read when nothing is pending, and where `fuel` steps were taken without
/// reaching any of these.
pub open spec fn buffered_run(m: Machine, pending: Seq<i64>, outputs: Seq<i64>, fuel: nat) -> Buffered
    decreases fuel,
{
    if fuel == 0 {
        Buffered { machine: m, pending, outputs, fault: Some(Fault::StepLimit) }
    } else {
        match m.decode() {
            Err(e) => Buffered { machine: m, pending, outputs, fault: Some(e@) },
            Ok((Instruction::Geti(dst), width)) => if pending.len() == 0 {
                Buffered {
                    machine: m,
                    pending,
                    outputs,
                    fault: Some(Fault::Input(exhausted_reason())),
                }
            } else {
                buffered_run(
                    m.apply(Instruction::Geti(dst), width, pending[0]),
                    pending.drop_first(),
                    outputs,
                    (fuel - 1) as nat,
                )
            },
            Ok((Instruction::Puti(src), width)) => buffered_run(
                m.apply(Instruction::Puti(src), width, 0),
                pending,
                outputs.push(m.mem.read(src)),
                (fuel - 1) as nat,
            ),
            Ok((Instruction::Halt, _)) => Buffered { machine: m, pending, outputs, fault: None },
            Ok((instr, width)) => buffered_run(
                m.apply(instr, width, 0),
                pending,
                outputs,
                (fuel - 1) as nat,
            ),
        }
    }
}

/// How a run up to the next output ends.
pub struct Awaited {
    /// The machine that the run leaves.
    pub machine: Machine,
    /// The inputs that were not read, the next one first.
    pub pending: Seq<i64>,
    /// The output that ended the run, `None` if a halt ended it, or the fault
    /// that did.
    pub outcome: Result<Option<i64>, Fault>,
}

/// How a run ends that reads from `pending`, first item first, and stops at
/// its first write.
///
/// It ends with the value at the first write, which is carried out, and with
/// no value at a halt. It ends with a fault where decoding fails, at a read
/// when nothing is pending, and where `fuel` steps were taken without
/// reaching any of these.
pub open spec fn output_run(m: Machine, pending: Seq<i64>, fuel: nat) -> Awaited
    decreases fuel,
{
    if fuel == 0 {
        Awaited { machine: m, pending, outcome: Err(Fault::StepLimit) }
    } else {
        match m.decode() {
            Err(e) => Awaited { machine: m, pending, outcome: Err(e@) },
            Ok((Instruction::Geti(dst), width)) => if pending.len() == 0 {
                Awaited { machine: m, pending, outcome: Err(Fault::Input(exhausted_reason())) }
            } else {
                output_run(
                    m.apply(Instruction::Geti(dst), width, pending[0]),
                    pending.drop_first(),
                    (fuel - 1) as nat,
                )
            },
            Ok((Instruction::Puti(src), width)) => Awaited {
                machine: m.apply(Instruction::Puti(src), width, 0),
                pending,
                outcome: Ok(Some(m.mem.read(src))),
            },
            Ok((Instruction::Halt, _)) => Awaited { machine: m, pending, outcome: Ok(None) },
            Ok((instr, width)) => output_run(m.apply(instr, width, 0), pending, (fuel - 1) as nat),
        }
    }
}

/// The outcome in a result of `until_output`, as the contracts see it.
pub open spec fn outcome_of(r: Result<Option<i64>, Error>) -> Result<Option<i64>, Fault> {
    match r {
        Ok(out) => Ok(out),
        Err(e) => Err(e@),
    }
}

/// A run without input and output leaves the image as it was.
pub proof fn lemma_headless_run_keeps_image(m: Machine, fuel: nat)
    ensures
        headless_run(m, fuel).0.mem.image == m.mem.image,
    decreases fuel,
{
    if fuel > 0 {
        match m.decode() {
            Ok((Instruction::Geti(_), _)) => {},
            Ok((Instruction::Puti(_), _)) => {},
            Ok((Instruction::Halt, _)) => {},
            Ok((instr, width)) => {
                lemma_headless_run_keeps_image(m.apply(instr, width, 0), (fuel - 1) as nat);
            },
            Err(_) => {},
        }
    }
}

/// A run from buffer to buffer leaves the image as it was, so that a reset
/// after the run gives the machine that a reset before it would have given.
pub proof fn lemma_buffered_run_keeps_image(
    m: Machine,
    pending: Seq<i64>,
    outputs: Seq<i64>,
    fuel: nat,
)
    ensures
        buffered_run(m, pending, outputs, fuel).machine.reset() == m.reset(),
    decreases fuel,
{
    if fuel > 0 {
        match m.decode() {
            Ok((Instruction::Geti(dst), width)) => {
                if pending.len() > 0 {
                    lemma_buffered_run_keeps_image(
                        m.apply(Instruction::Geti(dst), width, pending[0]),
                        pending.drop_first(),
                        outputs,
                        (fuel - 1) as nat,
                    );
                }
            },
            Ok((Instruction::Puti(src), width)) => {
                lemma_buffered_run_keeps_image(
                    m.apply(Instruction::Puti(src), width, 0),
                    pending,
                    outputs.push(m.mem.read(src)),
                    (fuel - 1) as nat,
                );
            },
            Ok((Instruction::Halt, _)) => {},
            Ok((instr, width)) => {
                lemma_buffered_run_keeps_image(
                    m.apply(instr, width, 0),
                    pending,
                    outputs,
                    (fuel - 1) as nat,
                );
            },
            Err(_) => {},
        }
    }
}

/// A run up to the next output leaves the image as it was.
pub proof fn lemma_output_run_keeps_image(m: Machine, pending: Seq<i64>, fuel: nat)
    ensures
        output_run(m, pending, fuel).machine.mem.image == m.mem.image,
    decreases fuel,
{
    if fuel > 0 {
        match m.decode() {
            Ok((Instruction::Geti(dst), width)) => {
                if pending.len() > 0 {
                    lemma_output_run_keeps_image(
                        m.apply(Instruction::Geti(dst), width, pending[0]),
                        pending.drop_first(),
                        (fuel - 1) as nat,
                    );
                }
            },
            Ok((Instruction::Puti(src), width)) => {},
            Ok((Instruction::Halt, _)) => {},
            Ok((instr, width)) => {
                lemma_output_run_keeps_image(m.apply(instr, width, 0), pending, (fuel - 1) as nat);
            },
            Err(_) => {},
        }
    }
}

/// A reset and a run with the same inputs give the same outputs, the same
/// final memory and the same result every time: whatever the machine went
/// through before the reset, and so also after the run itself.
pub proof fn lemma_reset_then_run_repeats(
    a: Machine,
    b: Machine,
    inputs: Seq<i64>,
    outputs: Seq<i64>,
    fuel: nat,
)
    requires
        a.mem.image == b.mem.image,
    ensures
        buffered_run(a.reset(), inputs, outputs, fuel) == buffered_run(
            b.reset(),
            inputs,
            outputs,
            fuel,
        ),
        ({
            let first = buffered_run(a.reset(), inputs, outputs, fuel);
            buffered_run(first.machine.reset(), inputs, outputs, fuel) == first
        }),
{
    lemma_buffered_run_keeps_image(a.reset(), inputs, outputs, fuel);
}

/// Runs the machine without input and output for up to `max_steps` steps.
/// Fails at the first read or write.
pub fn headless_within(intcode: &mut Intcode, max_steps: u64) -> (res: Result<(), Error>)
    ensures
        (final(intcode)@, fault_of(res)) == headless_run(old(intcode)@, max_steps as nat),
{
    let mut fuel: u64 = max_steps;
    let mut io = NoIo;
    let mut io2 = NoIo;
    while fuel > 0
        invariant
            headless_run(intcode@, fuel as nat) == headless_run(old(intcode)@, max_steps as nat),
        decreases fuel,
    {
        match intcode.step(&mut io, &mut io2) {
            Err(e) => {
                return Err(e);
            },
            Ok(running) => {
                if !running {
                    return Ok(());
                }
            },
        }
        fuel = fuel - 1;
    }
    Err(Error::StepLimit)
}

/// Runs the machine without input and output, and fails at the first read
/// or write.
pub fn headless(intcode: &mut Intcode) -> (res: Result<(), Error>)
    ensures
        (final(intcode)@, fault_of(res)) == headless_run(old(intcode)@, STEP_BUDGET as nat),
{
    headless_within(intcode, STEP_BUDGET)
}

/// Turns `items` round in place.
pub fn reverse(items: &mut Vec<i64>)
    ensures
        final(items)@ == old(items)@.reverse(),
{
    let n = items.len();
    let mut i: usize = 0;
    while i < n / 2
        invariant
            n == items.len() == old(items).len(),
            i <= n / 2,
            forall|k: int| 0 <= k < i ==> items[k] == old(items)[n - 1 - k],
            forall|k: int| n - i <= k < n ==> items[k] == old(items)[n - 1 - k],
            forall|k: int| i <= k < n - i ==> items[k] == old(items)[k],
        decreases n - i,
    {
        let a = items[i];
        let b = items[n - 1 - i];
        items.set(i, b);
        items.set(n - 1 - i, a);
        i = i + 1;
    }
}

/// Runs the machine for up to `max_steps` steps, reading from `input`, first
/// item first, and adding what it writes to `output`. Fails at a read when
/// `input` has run out. What was not read stays in `input`, turned round.
pub fn to_completion_within(
    intcode: &mut Intcode,
    input: &mut Vec<i64>,
    output: &mut Vec<i64>,
    max_steps: u64,
) -> (res: Result<(), Error>)
    ensures
        ({
            let run = buffered_run(old(intcode)@, old(input)@, old(output)@, max_steps as nat);
            &&& final(intcode)@ == run.machine
            &&& final(input)@ == run.pending.reverse()
            &&& final(output)@ == run.outputs
            &&& fault_of(res) == run.fault
        }),
{
    reverse(input);
    assert(input@.reverse() =~= old(input)@);
    let mut fuel: u64 = max_steps;
    while fuel > 0
        invariant
            buffered_run(intcode@, input@.reverse(), output@, fuel as nat) == buffered_run(
                old(intcode)@,
                old(input)@,
                old(output)@,
                max_steps as nat,
            ),
        decreases fuel,
    {
        let ghost before = input@;
        match intcode.step(input, output) {
            Err(e) => {
                return Err(e);
            },
            Ok(running) => {
                proof {
                    if before.len() > 0 {
                        assert(before.reverse().drop_first() =~= before.drop_last().reverse());
                    }
                }
                if !running {
                    return Ok(());
                }
            },
        }
        fuel = fuel - 1;
    }
    Err(Error::StepLimit)
}

/// Runs the machine to its end, reading from `input`, first item first, and
/// adding what it writes to `output`. Fails at a read when `input` has run
/// out. What was not read stays in `input`, turned round.
pub fn to_completion(intcode: &mut Intcode, input: &mut Vec<i64>, output: &mut Vec<i64>) -> (res:
    Result<(), Error>)
    ensures
        ({
            let run = buffered_run(old(intcode)@, old(input)@, old(output)@, STEP_BUDGET as nat);
            &&& final(intcode)@ == run.machine
            &&& final(input)@ == run.pending.reverse()
            &&& final(output)@ == run.outputs
            &&& fault_of(res) == run.fault
        }),
{
    to_completion_within(intcode, input, output, STEP_BUDGET)
}

/// Runs the machine for up to `max_steps` steps or until it has written one
/// value, reading from the front of `input`. Gives the value, or `None` if
/// the machine halted first. Fails at a read when `input` is empty.
pub fn until_output_within(intcode: &mut Intcode, input: &mut VecDeque<i64>, max_steps: u64) -> (res:
    Result<Option<i64>, Error>)
    ensures
        ({
            let run = output_run(old(intcode)@, old(input)@, max_steps as nat);
            &&& final(intcode)@ == run.machine
            &&& final(input)@ == run.pending
            &&& outcome_of(res) == run.outcome
        }),
{
    let mut output: Option<i64> = None;
    let mut fuel: u64 = max_steps;
    while fuel > 0
        invariant
            output is None,
            output_run(intcode@, input@, fuel as nat) == output_run(
                old(intcode)@,
                old(input)@,
                max_steps as nat,
            ),
        decreases fuel,
    {
        let running = match intcode.step(input, &mut output) {
            Err(e) => {
                return Err(e);
            },
            Ok(running) => running,
        };
        if !running {
            return Ok(None);
        }
        if let Some(val) = output {
            return Ok(Some(val));
        }
        fuel = fuel - 1;
    }
    Err(Error::StepLimit)
}

/// Runs the machine until it has written one value, reading from the front
/// of `input`. Gives the value, or `None` if the machine halted first. Fails
/// at a read when `input` is empty.
pub fn until_output(intcode: &mut Intcode, input: &mut VecDeque<i64>) -> (res: Result<
    Option<i64>,
    Error,
>)
    ensures
        ({
            let run = output_run(old(intcode)@, old(input)@, STEP_BUDGET as nat);
            &&& final(intcode)@ == run.machine
            &&& final(input)@ == run.pending
            &&& outcome_of(res) == run.outcome
        }),
{
    until_output_within(intcode, input, STEP_BUDGET)
}

} // verus!
