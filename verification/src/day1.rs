//! The fuel that a list of modules needs for launch.

use vstd::prelude::*;

use crate::failure::{Cause, Failure};
use crate::text::{numbers_by_line, parse_numbers_by_line};

verus! {

/// The fuel that a mass needs: a third of it, rounded down, less 2, and
/// nothing where that would be less than nothing.
pub open spec fn fuel_for(mass: usize) -> usize {
    if mass / 3 >= 2 {
        (mass / 3 - 2) as usize
    } else {
        0
    }
}

/// The fuel `fuel` together with the fuel that it needs itself, and the fuel
/// which that needs, and so on. The sum wraps round at the end of the range
/// of `usize`.
pub open spec fn with_its_own(fuel: usize) -> usize
    decreases fuel,
{
    if fuel == 0 {
        0
    } else {
        fuel.wrapping_add(with_its_own(fuel_for(fuel)))
    }
}

/// The fuel for one module of mass `mass`: with the fuel for the fuel if
/// `own` says so.
pub open spec fn module_fuel(mass: usize, own: bool) -> usize {
    if own {
        with_its_own(fuel_for(mass))
    } else {
        fuel_for(mass)
    }
}

/// The fuel for all of `masses`. The sum wraps round at the end of the range
/// of `usize`.
pub open spec fn total_fuel(masses: Seq<usize>, own: bool) -> usize
    decreases masses.len(),
{
    if masses.len() == 0 {
        0
    } else {
        total_fuel(masses.drop_last(), own).wrapping_add(module_fuel(masses.last(), own))
    }
}

/// The fuel for the modules whose masses the lines of `text` give.
pub open spec fn answer(text: Seq<char>, own: bool) -> Result<usize, Cause> {
    match numbers_by_line(text) {
        Some(masses) => Ok(total_fuel(masses, own)),
        None => Err(Cause::BadInput),
    }
}

/// The fuel that a mass needs.
pub fn req_fuel(mass: usize) -> (fuel: usize)
    ensures
        fuel == fuel_for(mass),
{
    (mass / 3).saturating_sub(2)
}

/// The fuel `fuel` together with all the fuel that fuel needs.
pub fn fuel_fuel(fuel: usize) -> (total: usize)
    ensures
        total == with_its_own(fuel),
    decreases fuel,
{
    if fuel == 0 {
        0
    } else {
        fuel.wrapping_add(fuel_fuel(req_fuel(fuel)))
    }
}

/// Adds up the fuel for the modules in `input`.
fn sum_fuel(input: &str, own: bool) -> (r: Result<usize, Failure>)
    ensures
        match answer(input@, own) {
            Ok(total) => r == Ok::<usize, Failure>(total),
            Err(cause) => r matches Err(e) && e@ == cause,
        },
{
    let masses = match parse_numbers_by_line(input) {
        Some(masses) => masses,
        None => {
            return Err(Failure::BadInput);
        },
    };
    let mut total: usize = 0;
    let mut k: usize = 0;
    while k < masses.len()
        invariant
            k <= masses.len(),
            total == total_fuel(masses@.take(k as int), own),
        decreases masses.len() - k,
    {
        assert(masses@.take(k + 1).drop_last() =~= masses@.take(k as int));
        let fuel = req_fuel(masses[k]);
        total = total.wrapping_add(
            if own {
                fuel_fuel(fuel)
            } else {
                fuel
            },
        );
        k = k + 1;
    }
    assert(masses@.take(masses.len() as int) =~= masses@);
    Ok(total)
}

/// The fuel for all modules in `input`, one mass on each line. It is
/// `Failure::BadInput` if a line is no number.
pub fn q1(input: String, _args: &[String]) -> (r: Result<usize, Failure>)
    ensures
        match answer(input@, false) {
            Ok(total) => r == Ok::<usize, Failure>(total),
            Err(cause) => r matches Err(e) && e@ == cause,
        },
{
    sum_fuel(input.as_str(), false)
}

/// The fuel for all modules in `input` and for the fuel itself.
pub fn q2(input: String, _args: &[String]) -> (r: Result<usize, Failure>)
    ensures
        match answer(input@, true) {
            Ok(total) => r == Ok::<usize, Failure>(total),
            Err(cause) => r matches Err(e) && e@ == cause,
        },
{
    sum_fuel(input.as_str(), true)
}

} // verus!
