//! Counting the passwords in a range that keep to the rules.

use vstd::prelude::*;

use crate::failure::{Cause, Failure};
use crate::text::{
    char_of_digit, chars_of, decimal_text, parse_usize, parse_usize_in, split, split_bounds,
};

verus! {

/// Whether two digits next to each other are the same somewhere in `d`.
pub open spec fn pair_in(d: Seq<char>) -> bool {
    exists|i: int| 0 <= i < d.len() - 1 && #[trigger] d[i] == d[i + 1]
}

/// Whether no digit in `d` is less than the one before it.
pub open spec fn never_falls(d: Seq<char>) -> bool {
    forall|i: int| 0 <= i < d.len() - 1 ==> #[trigger] d[i] <= d[i + 1]
}

/// Whether the digits at `i` and `i + 1` are the same and the digits on
/// either side of the two, where there are any, are not.
pub open spec fn lone_pair_at(d: Seq<char>, i: int) -> bool {
    &&& 0 <= i < d.len() - 1
    &&& d[i] == d[i + 1]
    &&& (i == 0 || d[i - 1] != d[i])
    &&& (i + 2 >= d.len() || d[i + 2] != d[i])
}

/// Whether `d` holds a run of the same digit that is exactly two long.
pub open spec fn lone_pair_in(d: Seq<char>) -> bool {
    exists|i: int| lone_pair_at(d, i)
}

/// Whether the number `v` keeps to the rules: two digits next to each
/// other are the same, no digit is less than the one before it, and, for the
/// strict rules, some run of the same digit is exactly two long.
pub open spec fn passes(v: nat, strict: bool) -> bool {
    let d = decimal_text(v);
    pair_in(d) && never_falls(d) && (strict ==> lone_pair_in(d))
}

/// The number of numbers from `from` up to, not including, `to` that keep
/// to the rules.
pub open spec fn count(from: nat, to: nat, strict: bool) -> nat
    decreases to - from,
{
    if from >= to {
        0
    } else {
        count(from, (to - 1) as nat, strict) + if passes((to - 1) as nat, strict) {
            1nat
        } else {
            0nat
        }
    }
}

/// The two ends of the range that `text` gives: two numbers with a `-`
/// between them. What follows a second `-` is not looked at.
pub open spec fn range_of(text: Seq<char>) -> Option<(usize, usize)> {
    let parts = split(text, '-');
    if parts.len() < 2 {
        None
    } else {
        match (parse_usize(parts[0]), parse_usize(parts[1])) {
            (Some(start), Some(end)) => Some((start, end)),
            _ => None,
        }
    }
}

/// The number of passwords in the range that `text` gives, both ends
/// included.
pub open spec fn answer(text: Seq<char>, strict: bool) -> Result<usize, Cause> {
    match range_of(text) {
        None => Err(Cause::BadInput),
        Some((start, end)) => Ok(count(start as nat, end as nat + 1, strict) as usize),
    }
}

/// The digits of `val` in base ten.
pub fn digits(val: usize) -> (d: Vec<char>)
    ensures
        d@ == decimal_text(val as nat),
    decreases val,
{
    if val < 10 {
        let mut d: Vec<char> = Vec::new();
        d.push(char_of_digit(val as u8));
        d
    } else {
        let mut d = digits(val / 10);
        d.push(char_of_digit((val % 10) as u8));
        d
    }
}

/// Whether two digits next to each other are the same.
pub fn has_pair(digits: &Vec<char>) -> (b: bool)
    ensures
        b == pair_in(digits@),
{
    let mut k: usize = 1;
    while k < digits.len()
        invariant
            1 <= k,
            forall|i: int| 0 <= i < k - 1 ==> #[trigger] digits@[i] != digits@[i + 1],
        decreases digits.len() - k,
    {
        if digits[k - 1] == digits[k] {
            return true;
        }
        k = k + 1;
    }
    false
}

/// Whether no digit is less than the one before it.
pub fn ascending(digits: &Vec<char>) -> (b: bool)
    ensures
        b == never_falls(digits@),
{
    let mut k: usize = 1;
    while k < digits.len()
        invariant
            1 <= k,
            forall|i: int| 0 <= i < k - 1 ==> #[trigger] digits@[i] <= digits@[i + 1],
        decreases digits.len() - k,
    {
        if digits[k] < digits[k - 1] {
            return false;
        }
        k = k + 1;
    }
    true
}

/// Whether some run of the same digit is exactly two long.
pub fn has_run2(digits: &Vec<char>) -> (b: bool)
    ensures
        b == lone_pair_in(digits@),
{
    let n = digits.len();
    if n < 2 {
        return false;
    }
    let mut run: usize = 1;
    let mut k: usize = 0;
    while k < n - 1
        invariant
            2 <= n == digits.len(),
            k <= n - 1,
            1 <= run <= k + 1,
            forall|j: int| k + 1 - run <= j <= k ==> #[trigger] digits@[j] == digits@[k as int],
            k + 1 - run == 0 || digits@[k - run] != digits@[k as int],
            forall|i: int| 0 <= i < k + 1 - run ==> !lone_pair_at(digits@, i),
        decreases n - 1 - k,
    {
        if digits[k] == digits[k + 1] {
            run = run + 1;
        } else {
            if run == 2 {
                assert(lone_pair_at(digits@, k - 1));
                return true;
            }
            assert forall|i: int| 0 <= i < k + 1 implies !lone_pair_at(digits@, i) by {
                if i >= k + 1 - run && i < k {
                    if i > k + 1 - run {
                        assert(digits@[i - 1] == digits@[k as int]);
                    } else if i + 2 <= k {
                        assert(digits@[i + 2] == digits@[k as int]);
                    }
                }
            }
            run = 1;
        }
        k = k + 1;
    }
    if run == 2 {
        assert(lone_pair_at(digits@, n - 2));
        true
    } else {
        assert forall|i: int| !lone_pair_at(digits@, i) by {
            if i >= n - run && i < n - 1 {
                if i > n - run {
                    assert(digits@[i - 1] == digits@[n - 1]);
                } else if i + 2 <= n - 1 {
                    assert(digits@[i + 2] == digits@[n - 1]);
                }
            }
        }
        false
    }
}

/// Reads the two ends of the range.
fn range(input: &str) -> (r: Option<(usize, usize)>)
    ensures
        r == range_of(input@),
{
    let chars = chars_of(input);
    assert(chars@.subrange(0, chars.len() as int) =~= input@);
    let parts = split_bounds(&chars, 0, chars.len(), '-');
    if parts.len() < 2 {
        return None;
    }
    let start = parse_usize_in(&chars, parts[0].0, parts[0].1);
    let end = parse_usize_in(&chars, parts[1].0, parts[1].1);
    match (start, end) {
        (Some(start), Some(end)) => Some((start, end)),
        _ => None,
    }
}

/// Whether `v` keeps to the rules.
fn check(v: usize, strict: bool) -> (b: bool)
    ensures
        b == passes(v as nat, strict),
{
    let d = digits(v);
    has_pair(&d) && ascending(&d) && (!strict || has_run2(&d))
}

/// Counts the passwords in the range that `input` gives.
fn count_in(input: &str, strict: bool) -> (r: Result<usize, Failure>)
    ensures
        match answer(input@, strict) {
            Ok(n) => r == Ok::<usize, Failure>(n),
            Err(cause) => r matches Err(e) && e@ == cause,
        },
{
    let (start, end) = match range(input) {
        Some(ends) => ends,
        None => {
            return Err(Failure::BadInput);
        },
    };
    if start > end {
        return Ok(0);
    }
    assert(!passes(0, strict)) by {
        assert(decimal_text(0).len() == 1);
    }
    let mut found: usize = 0;
    let mut v: usize = start;
    while v < end
        invariant
            start <= v <= end,
            found == count(start as nat, v as nat, strict),
            found <= v - start,
        decreases end - v,
    {
        if check(v, strict) {
            found = found + 1;
        }
        v = v + 1;
    }
    if check(end, strict) {
        assert(found < usize::MAX) by {
            if start == 0 && end == usize::MAX {
                lemma_first_never_passes(end as nat, strict);
            }
        }
        found = found + 1;
    }
    Ok(found)
}

/// Zero keeps to no rules, so that fewer numbers pass than there are from 0
/// up to, not including, `to`.
proof fn lemma_first_never_passes(to: nat, strict: bool)
    requires
        to >= 1,
    ensures
        count(0, to, strict) <= to - 1,
    decreases to,
{
    if to == 1 {
        assert(count(0, 0, strict) == 0);
    } else {
        lemma_first_never_passes((to - 1) as nat, strict);
    }
}

/// The number of passwords in the range that `input` gives: two numbers
/// with a `-` between them, both included. It is `Failure::BadInput` if
/// `input` is anything else.
pub fn q1(input: String, _args: &[String]) -> (r: Result<usize, Failure>)
    ensures
        match answer(input@, false) {
            Ok(n) => r == Ok::<usize, Failure>(n),
            Err(cause) => r matches Err(e) && e@ == cause,
        },
{
    count_in(input.as_str(), false)
}

/// The number of passwords in the range that `input` gives that also hold
/// a run of the same digit that is exactly two long.
pub fn q2(input: String, _args: &[String]) -> (r: Result<usize, Failure>)
    ensures
        match answer(input@, true) {
            Ok(n) => r == Ok::<usize, Failure>(n),
            Err(cause) => r matches Err(e) && e@ == cause,
        },
{
    count_in(input.as_str(), true)
}

} // verus!
