use vstd::prelude::*;

use crate::text::{decimal_text, push_decimal};

verus! {

/// What can go wrong while building or running an Intcode machine.
#[derive(Debug, Clone, PartialEq, Eq)]
pub enum Error {
    /// The input operation failed; holds its reason.
    InputError(String),
    /// The output operation failed; holds its reason.
    OutputError(String),
    /// An operand's addressing-mode digit is none of 0, 1, 2; holds the digit.
    InvalidAddrMode(u64),
    /// The two low digits of an instruction word name no operation; holds them.
    InvalidOpcode(u64),
    /// A negative value stood where an address was needed.
    NegativeAddr,
    /// The instruction word at the program counter is negative.
    NegativeInstr,
    /// The program text is not a comma-separated list of integers.
    ParseMem,
    /// A bounded run used up its steps before the machine halted.
    StepLimit,
}

/// An error as the contracts see it: the same kinds, with the text of a
/// reason in place of the string that holds it.
pub enum Fault {
    /// See `Error::InputError`.
    Input(Seq<char>),
    /// See `Error::OutputError`.
    Output(Seq<char>),
    /// See `Error::InvalidAddrMode`.
    InvalidAddrMode(u64),
    /// See `Error::InvalidOpcode`.
    InvalidOpcode(u64),
    /// See `Error::NegativeAddr`.
    NegativeAddr,
    /// See `Error::NegativeInstr`.
    NegativeInstr,
    /// See `Error::ParseMem`.
    ParseMem,
    /// See `Error::StepLimit`.
    StepLimit,
}

impl View for Error {
    type V = Fault;

    open spec fn view(&self) -> Fault {
        match *self {
            Error::InputError(reason) => Fault::Input(reason@),
            Error::OutputError(reason) => Fault::Output(reason@),
            Error::InvalidAddrMode(mode) => Fault::InvalidAddrMode(mode),
            Error::InvalidOpcode(opcode) => Fault::InvalidOpcode(opcode),
            Error::NegativeAddr => Fault::NegativeAddr,
            Error::NegativeInstr => Fault::NegativeInstr,
            Error::ParseMem => Fault::ParseMem,
            Error::StepLimit => Fault::StepLimit,
        }
    }
}

/// What `Error::describe` says of a fault.
pub open spec fn description(fault: Fault) -> Seq<char> {
    match fault {
        Fault::Input(reason) => "Could not read input: "@ + reason,
        Fault::Output(reason) => "Could not read output: "@ + reason,
        Fault::InvalidAddrMode(mode) => "Encountered unknown addressing mode: "@ + decimal_text(
            mode as nat,
        ),
        Fault::InvalidOpcode(opcode) => "Encountered unknown opcode: "@ + decimal_text(
            opcode as nat,
        ),
        Fault::NegativeAddr => "Cannot address negative address"@,
        Fault::NegativeInstr => "Cannot execute negative instruction"@,
        Fault::ParseMem => "Failed to parse initial memory string"@,
        Fault::StepLimit => "Ran out of steps before the machine halted"@,
    }
}

impl Error {
    /// The error in words.
    pub fn describe(&self) -> (text: String)
        ensures
            text@ == description(self@),
    {
        match self {
            Error::InputError(reason) => {
                let mut text = "Could not read input: ".to_string();
                text.append(reason.as_str());
                text
            },
            Error::OutputError(reason) => {
                let mut text = "Could not read output: ".to_string();
                text.append(reason.as_str());
                text
            },
            Error::InvalidAddrMode(mode) => {
                let mut text = "Encountered unknown addressing mode: ".to_string();
                push_decimal(&mut text, *mode);
                text
            },
            Error::InvalidOpcode(opcode) => {
                let mut text = "Encountered unknown opcode: ".to_string();
                push_decimal(&mut text, *opcode);
                text
            },
            Error::NegativeAddr => "Cannot address negative address".to_string(),
            Error::NegativeInstr => "Cannot execute negative instruction".to_string(),
            Error::ParseMem => "Failed to parse initial memory string".to_string(),
            Error::StepLimit => "Ran out of steps before the machine halted".to_string(),
        }
    }
}

/// The fault in a result, if it holds one.
pub open spec fn fault_of<T>(r: Result<T, Error>) -> Option<Fault> {
    match r {
        Ok(_) => None,
        Err(e) => Some(e@),
    }
}

} // verus!
