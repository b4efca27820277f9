//! Places on a grid with 32-bit coordinates.

use vstd::prelude::*;

verus! {

/// A place on the grid, as `x` and `y`.
pub type Point = (i32, i32);

/// The number that stands for the place `p` in a hash table: no two places
/// have the same.
pub open spec fn key_of(p: Point) -> u64 {
    ((p.0 + 0x8000_0000) * 0x1_0000_0000 + (p.1 + 0x8000_0000)) as u64
}

/// The number that stands for the place `p` in a hash table.
pub fn key(p: Point) -> (k: u64)
    ensures
        k == key_of(p),
{
    ((p.0 as i64 + 0x8000_0000) as u64) * 0x1_0000_0000 + ((p.1 as i64 + 0x8000_0000) as u64)
}

/// Two places with the same number are the same place.
pub proof fn lemma_key_tells_places_apart(p: Point, q: Point)
    ensures
        key_of(p) == key_of(q) ==> p == q,
{
}

/// The place `by` away from `p`. Coordinates wrap round at the ends of the
/// 32-bit range.
pub open spec fn shifted(p: Point, by: Point) -> Point {
    (p.0.wrapping_add(by.0), p.1.wrapping_add(by.1))
}

/// The place `by` away from `p`.
pub fn shift(p: Point, by: Point) -> (q: Point)
    ensures
        q == shifted(p, by),
{
    (p.0.wrapping_add(by.0), p.1.wrapping_add(by.1))
}

} // verus!
