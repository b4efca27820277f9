//! Why a solver gives no answer.

use vstd::prelude::*;

use crate::intcode::error::{Error, Fault};

verus! {

/// The reason a solver gives no answer.
#[derive(Debug, Clone, PartialEq, Eq)]
pub enum Failure {
    /// The Intcode machine could not be built, or its run failed.
    Machine(Error),
    /// The puzzle input is not of the form that the solver reads.
    BadInput,
    /// An argument is none that the solver knows.
    BadArgument,
    /// The search came to its end without an answer.
    NoAnswer,
    /// A program left input unread.
    UnreadInput,
    /// A program gave no output where one was due.
    MissingOutput,
    /// A program gave more output than was due.
    ExtraOutput,
    /// A program gave a value that stands for nothing.
    BadOutput,
}

/// A failure as the contracts see it.
pub enum Cause {
    /// See `Failure::Machine`.
    Machine(Fault),
    /// See `Failure::BadInput`.
    BadInput,
    /// See `Failure::BadArgument`.
    BadArgument,
    /// See `Failure::NoAnswer`.
    NoAnswer,
    /// See `Failure::UnreadInput`.
    UnreadInput,
    /// See `Failure::MissingOutput`.
    MissingOutput,
    /// See `Failure::ExtraOutput`.
    ExtraOutput,
    /// See `Failure::BadOutput`.
    BadOutput,
}

impl View for Failure {
    type V = Cause;

    open spec fn view(&self) -> Cause {
        match *self {
            Failure::Machine(e) => Cause::Machine(e@),
            Failure::BadInput => Cause::BadInput,
            Failure::BadArgument => Cause::BadArgument,
            Failure::NoAnswer => Cause::NoAnswer,
            Failure::UnreadInput => Cause::UnreadInput,
            Failure::MissingOutput => Cause::MissingOutput,
            Failure::ExtraOutput => Cause::ExtraOutput,
            Failure::BadOutput => Cause::BadOutput,
        }
    }
}

} // verus!
