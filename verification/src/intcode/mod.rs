//! An interpreter for Intcode: a list of signed integers that is both program
//! and data.

pub mod cpu;
pub mod error;
pub mod io;
pub mod mem;
pub mod run;

pub use cpu::{Instruction, Intcode};
pub use error::Error;
pub use mem::Mem;
