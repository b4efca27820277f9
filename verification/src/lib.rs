//! Solvers for a series of programming puzzles, and the Intcode virtual machine
//! that many of them run on.
//!
//! The virtual machine lives in [`intcode`]. Each `day` module holds the two
//! solvers of one puzzle, `q1` and `q2`, which take the puzzle input and the
//! arguments of the command line and give the answer or a [`failure::Failure`].
//! What the solvers share is in [`text`] (reading numbers and lists),
//! [`tiles`] (values on a grid), [`grid`] (places with 32-bit coordinates),
//! [`paths`] (shortest ways in a graph) and [`gcd`].

pub mod day1;
pub mod day10;
pub mod day11;
pub mod day12;
pub mod day13;
pub mod day14;
pub mod day15;
pub mod day16;
pub mod day2;
pub mod day3;
pub mod day4;
pub mod day5;
pub mod day6;
pub mod day7;
pub mod day8;
pub mod day9;
#[allow(non_snake_case)]
pub mod dayX;
pub mod failure;
pub mod gcd;
pub mod grid;
pub mod intcode;
pub mod paths;
pub mod text;
pub mod tiles;
