//! The two operations that a machine is stepped with: one that produces an
//! integer and one that consumes an integer.

use std::collections::VecDeque;
use vstd::prelude::*;

verus! {

/// Something a machine can read one integer from.
pub trait Input: Sized {
    /// Whether one read may take the source from `self` to `after` and give
    /// `r`. Unless a source says otherwise, anything may happen.
    open spec fn reads(&self, after: &Self, r: Result<i64, String>) -> bool {
        true
    }

    /// Produces one integer, or the reason why there is none.
    fn read(&mut self) -> (r: Result<i64, String>)
        ensures
            old(self).reads(final(self), r),
    ;
}

/// Something a machine can write one integer to.
pub trait Output: Sized {
    /// Whether writing `val` may take the sink from `self` to `after`, and
    /// succeed (`None`) or fail for the reason given. Unless a sink says
    /// otherwise, anything may happen.
    open spec fn writes(&self, after: &Self, val: i64, failure: Option<String>) -> bool {
        true
    }

    /// Consumes one integer, or gives the reason why it could not.
    fn write(&mut self, val: i64) -> (r: Result<(), String>)
        ensures
            old(self).writes(final(self), val, r.err()),
    ;
}

/// The reason a machine that runs without input and output gives for a failed read.
pub open spec fn headless_read_reason() -> Seq<char> {
    "intcode cannot read input in headless mode"@
}

/// The reason a machine that runs without input and output gives for a failed write.
pub open spec fn headless_write_reason() -> Seq<char> {
    "intcode cannot write output in headless mode"@
}

/// The reason a buffer gives for a failed read.
pub open spec fn exhausted_reason() -> Seq<char> {
    "no more input in the input buffer"@
}

/// Neither input nor output: every read and every write fails.
#[derive(Debug, Clone, Copy)]
pub struct NoIo;

impl Input for NoIo {
    open spec fn reads(&self, after: &Self, r: Result<i64, String>) -> bool {
        r matches Err(reason) && reason@ == headless_read_reason()
    }

    fn read(&mut self) -> (r: Result<i64, String>) {
        Err("intcode cannot read input in headless mode".to_string())
    }
}

impl Output for NoIo {
    open spec fn writes(&self, after: &Self, val: i64, failure: Option<String>) -> bool {
        failure matches Some(reason) && reason@ == headless_write_reason()
    }

    fn write(&mut self, val: i64) -> (r: Result<(), String>) {
        Err("intcode cannot write output in headless mode".to_string())
    }
}

/// A queue is read from its front; an empty one fails.
impl Input for VecDeque<i64> {
    open spec fn reads(&self, after: &Self, r: Result<i64, String>) -> bool {
        if self@.len() > 0 {
            r == Ok::<i64, String>(self@[0]) && after@ == self@.drop_first()
        } else {
            &&& after@ == self@
            &&& r matches Err(reason) && reason@ == exhausted_reason()
        }
    }

    fn read(&mut self) -> (r: Result<i64, String>) {
        match self.pop_front() {
            Some(val) => {
                Ok(val)
            },
            None => Err("no more input in the input buffer".to_string()),
        }
    }
}

/// A vector is read from its end, as a stack; an empty one fails.
impl Input for Vec<i64> {
    open spec fn reads(&self, after: &Self, r: Result<i64, String>) -> bool {
        if self@.len() > 0 {
            r == Ok::<i64, String>(self@.last()) && after@ == self@.drop_last()
        } else {
            &&& after@ == self@
            &&& r matches Err(reason) && reason@ == exhausted_reason()
        }
    }

    fn read(&mut self) -> (r: Result<i64, String>) {
        match self.pop() {
            Some(val) => {
                Ok(val)
            },
            None => Err("no more input in the input buffer".to_string()),
        }
    }
}

/// A vector takes every integer at its end.
impl Output for Vec<i64> {
    open spec fn writes(&self, after: &Self, val: i64, failure: Option<String>) -> bool {
        failure is None && after@ == self@.push(val)
    }

    fn write(&mut self, val: i64) -> (r: Result<(), String>) {
        self.push(val);
        Ok(())
    }
}

/// A slot gives the integer it holds, once; an empty one fails.
impl Input for Option<i64> {
    open spec fn reads(&self, after: &Self, r: Result<i64, String>) -> bool {
        match *self {
            Some(val) => r == Ok::<i64, String>(val) && *after == None::<i64>,
            None => {
                &&& *after == None::<i64>
                &&& r matches Err(reason) && reason@ == exhausted_reason()
            },
        }
    }

    fn read(&mut self) -> (r: Result<i64, String>) {
        match self.take() {
            Some(val) => Ok(val),
            None => Err("no more input in the input buffer".to_string()),
        }
    }
}

/// A slot keeps the last integer written to it.
impl Output for Option<i64> {
    open spec fn writes(&self, after: &Self, val: i64, failure: Option<String>) -> bool {
        failure is None && *after == Some(val)
    }

    fn write(&mut self, val: i64) -> (r: Result<(), String>) {
        *self = Some(val);
        Ok(())
    }
}

} // verus!
