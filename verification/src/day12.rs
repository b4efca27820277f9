//! Moons that pull at each other, one coordinate at a time.

use itertools::Itertools;
use vstd::prelude::*;

use crate::failure::{Cause, Failure};
use crate::gcd::{gcd_of, greatest_common_divisor};
use crate::text::{
    chars_of, int_list, parse_int_list_in, parse_u64, parse_u64_in, split, split_bounds,
};

verus! {

/// The pairs of two of the integers below `n`, the lesser first, from the
/// pair of `i` and `j` on: in order of the first, and for the same first in
/// order of the second.
pub open spec fn pairs_from(i: int, j: int, n: int) -> Seq<(usize, usize)>
    decreases n - i, n - j,
{
    if i < 0 || j <= i || i + 1 >= n {
        Seq::empty()
    } else if j >= n {
        pairs_from(i + 1, i + 2, n)
    } else {
        seq![(i as usize, j as usize)] + pairs_from(i, j + 1, n)
    }
}

/// All pairs of two of the integers below `n`, the lesser first, in order.
pub open spec fn pairs_in_order(n: usize) -> Seq<(usize, usize)> {
    pairs_from(0, 1, n as int)
}

/// Whether each pair in `pairs` names two of `n` things, the first before
/// the second.
pub open spec fn pairs_within(pairs: Seq<(usize, usize)>, n: int) -> bool {
    forall|k: int| 0 <= k < pairs.len() ==> (#[trigger] pairs[k]).0 < pairs[k].1 < n
}

/// Each pair names two of the integers below `n`, the lesser first.
pub proof fn lemma_pairs_are_within(i: int, j: int, n: int)
    requires
        n <= usize::MAX,
    ensures
        pairs_within(pairs_from(i, j, n), n),
    decreases n - i, n - j,
{
    if i < 0 || j <= i || i + 1 >= n {
    } else if j >= n {
        lemma_pairs_are_within(i + 1, i + 2, n);
    } else {
        lemma_pairs_are_within(i, j + 1, n);
        let rest = pairs_from(i, j + 1, n);
        let all = seq![(i as usize, j as usize)] + rest;
        assert forall|k: int| 0 <= k < all.len() implies (#[trigger] all[k]).0 < all[k].1 < n by {
            if k > 0 {
                assert(all[k] == rest[k - 1]);
            }
        }
    }
}

/// Calls `tuple_combinations` of the crate itertools on the range `0..n`
/// and collects the pairs it gives. The adaptor pairs each item with each of
/// the items that come after it, in the order of the items: for a range
/// these are all pairs of two integers below `n` with the lesser first, in
/// order of the first and then of the second. Ranges of more than 1024 are
/// left out, as the number of pairs grows with the square of `n`.
#[allow(deprecated)]
#[verifier::external_body]
fn index_pairs(n: usize) -> (pairs: Vec<(usize, usize)>)
    requires
        n <= 1024,
    ensures
        pairs@ == pairs_in_order(n),
{
    (0..n).tuple_combinations().collect()
}

/// Whether `c` is one of the characters that only dress up a line.
pub open spec fn is_markup(c: char) -> bool {
    c == '<' || c == '>' || c == 'x' || c == 'y' || c == 'z' || c == '='
}

/// `line` without the characters that only dress it up.
pub open spec fn strip(line: Seq<char>) -> Seq<char>
    decreases line.len(),
{
    if line.len() == 0 {
        line
    } else if is_markup(line.last()) {
        strip(line.drop_last())
    } else {
        strip(line.drop_last()).push(line.last())
    }
}

/// The coordinates that `line` gives: once stripped, a list of integers
/// that fit in 32 bits, three of them or more.
pub open spec fn moon_of(line: Seq<char>) -> Option<Seq<i32>> {
    match int_list(strip(line)) {
        None => None,
        Some(row) => if row.len() >= 3 && forall|k: int|
            0 <= k < row.len() ==> i32::MIN <= #[trigger] row[k] <= i32::MAX {
            Some(Seq::new(row.len(), |k: int| row[k] as i32))
        } else {
            None
        },
    }
}

/// The moons that `text` gives, one on each line.
pub open spec fn moons_of(text: Seq<char>) -> Option<Seq<Seq<i32>>> {
    let lines = split(text, '\n');
    if forall|k: int| 0 <= k < lines.len() ==> moon_of(#[trigger] lines[k]) is Some {
        Some(Seq::new(lines.len(), |k: int| moon_of(lines[k]).unwrap()))
    } else {
        None
    }
}

/// The rows of `grid`.
pub open spec fn rows(grid: Seq<Vec<i32>>) -> Seq<Seq<i32>> {
    grid.map_values(|row: Vec<i32>| row@)
}

/// Whether `pos` and `vel` hold as many moons, each with a coordinate `d`.
pub open spec fn fit(pos: Seq<Seq<i32>>, vel: Seq<Seq<i32>>, d: int) -> bool {
    &&& 0 <= d
    &&& pos.len() == vel.len()
    &&& forall|i: int| 0 <= i < pos.len() ==> d < (#[trigger] pos[i]).len()
    &&& forall|i: int| 0 <= i < vel.len() ==> d < (#[trigger] vel[i]).len()
}

/// `grid` with `by` added to coordinate `d` of row `i`. The sum wraps round
/// at the ends of the 32-bit range.
pub open spec fn nudge(grid: Seq<Seq<i32>>, i: int, d: int, by: i32) -> Seq<Seq<i32>> {
    grid.update(i, grid[i].update(d, grid[i][d].wrapping_add(by)))
}

/// The velocities after each pair in `pairs`, in order, was seen to: of two
/// moons the one with the greater coordinate `d` loses 1 of velocity and the
/// other gains 1; equal coordinates change nothing.
pub open spec fn pull(
    pos: Seq<Seq<i32>>,
    vel: Seq<Seq<i32>>,
    d: int,
    pairs: Seq<(usize, usize)>,
) -> Seq<Seq<i32>>
    decreases pairs.len(),
{
    if pairs.len() == 0 {
        vel
    } else {
        let before = pull(pos, vel, d, pairs.drop_last());
        let a = pairs.last().0 as int;
        let b = pairs.last().1 as int;
        if pos[a][d] > pos[b][d] {
            nudge(nudge(before, a, d, -1i32), b, d, 1)
        } else if pos[a][d] < pos[b][d] {
            nudge(nudge(before, a, d, 1), b, d, -1i32)
        } else {
            before
        }
    }
}

/// The positions after the first `n` moons moved by their velocity along
/// coordinate `d`.
pub open spec fn drift(pos: Seq<Seq<i32>>, vel: Seq<Seq<i32>>, d: int, n: int) -> Seq<Seq<i32>>
    decreases n,
{
    if n <= 0 {
        pos
    } else {
        nudge(drift(pos, vel, d, n - 1), n - 1, d, vel[n - 1][d])
    }
}

/// Positions and velocities.
pub struct Moons {
    /// Where each moon is.
    pub pos: Seq<Seq<i32>>,
    /// How fast each moon moves.
    pub vel: Seq<Seq<i32>>,
}

/// The moons after one step along coordinate `d`: first the velocities
/// change by the pull between each pair, then every moon moves.
pub open spec fn step_along(moons: Moons, d: int, pairs: Seq<(usize, usize)>) -> Moons {
    let vel = pull(moons.pos, moons.vel, d, pairs);
    Moons { pos: drift(moons.pos, vel, d, moons.pos.len() as int), vel }
}

/// The moons after one step along each of the three coordinates.
pub open spec fn step_all(moons: Moons, pairs: Seq<(usize, usize)>) -> Moons {
    step_along(step_along(step_along(moons, 0, pairs), 1, pairs), 2, pairs)
}

/// The moons after `n` steps.
pub open spec fn after(moons: Moons, pairs: Seq<(usize, usize)>, n: nat) -> Moons
    decreases n,
{
    if n == 0 {
        moons
    } else {
        step_all(after(moons, pairs, (n - 1) as nat), pairs)
    }
}

/// The distance of `v` from 0; `i32::MIN` stays as it is.
pub open spec fn magnitude(v: i32) -> i32 {
    if v < 0 {
        0i32.wrapping_sub(v)
    } else {
        v
    }
}

/// The sum of the magnitudes of the first `n` entries of `row`. Sums wrap
/// round at the ends of the 32-bit range.
pub open spec fn energy(row: Seq<i32>, n: int) -> i32
    decreases n,
{
    if n <= 0 {
        0
    } else {
        energy(row, n - 1).wrapping_add(magnitude(row[n - 1]))
    }
}

/// The sum over the first `n` moons of the energy of the position times the
/// energy of the velocity. Sums and products wrap round at the ends of the
/// 32-bit range.
pub open spec fn total_energy(moons: Moons, n: int) -> i32
    decreases n,
{
    if n <= 0 {
        0
    } else {
        total_energy(moons, n - 1).wrapping_add(
            energy(moons.pos[n - 1], moons.pos[n - 1].len() as int).wrapping_mul(
                energy(moons.vel[n - 1], moons.vel[n - 1].len() as int),
            ),
        )
    }
}

/// As many moons as `n`, all at rest.
pub open spec fn at_rest(n: nat) -> Seq<Seq<i32>> {
    Seq::new(n, |i: int| seq![0i32, 0i32, 0i32])
}

/// Changes the velocities along coordinate `d` by the pull between each
/// pair in `pairs`, then moves every moon along `d` by its velocity.
pub fn iter_moons_by_component(
    pos: &mut Vec<Vec<i32>>,
    vel: &mut Vec<Vec<i32>>,
    d: usize,
    pairs: &Vec<(usize, usize)>,
)
    requires
        fit(rows(old(pos)@), rows(old(vel)@), d as int),
        pairs_within(pairs@, old(pos).len() as int),
    ensures
        (Moons { pos: rows(final(pos)@), vel: rows(final(vel)@) }) == step_along(
            Moons { pos: rows(old(pos)@), vel: rows(old(vel)@) },
            d as int,
            pairs@,
        ),
        forall|e: int| fit(rows(old(pos)@), rows(old(vel)@), e) ==> fit(rows(final(pos)@), rows(final(vel)@), e),
        final(pos).len() == old(pos).len(),
{
    let ghost pos0 = rows(pos@);
    let ghost vel0 = rows(vel@);
    let n = pos.len();
    let mut k: usize = 0;
    while k < pairs.len()
        invariant
            k <= pairs.len(),
            n == pos.len() == vel.len(),
            pos0 == rows(pos@),
            vel0 == rows(old(vel)@),
            fit(pos0, vel0, d as int),
            pairs_within(pairs@, n as int),
            rows(vel@) == pull(pos0, vel0, d as int, pairs@.take(k as int)),
            forall|i: int| 0 <= i < n ==> (#[trigger] vel[i]).len() == vel0[i].len(),
        decreases pairs.len() - k,
    {
        let (a, b) = pairs[k];
        assert(pairs@.take(k + 1).drop_last() =~= pairs@.take(k as int));
        assert(d < pos0[a as int].len() && d < pos0[b as int].len());
        let ghost before = rows(vel@);
        if pos[a][d] > pos[b][d] {
            let va = vel[a][d].wrapping_sub(1);
            vel[a][d] = va;
            let vb = vel[b][d].wrapping_add(1);
            vel[b][d] = vb;
        } else if pos[a][d] < pos[b][d] {
            let va = vel[a][d].wrapping_add(1);
            vel[a][d] = va;
            let vb = vel[b][d].wrapping_sub(1);
            vel[b][d] = vb;
        }
        k = k + 1;
    }
    assert(pairs@.take(pairs.len() as int) =~= pairs@);
    let ghost vel1 = rows(vel@);
    let mut i: usize = 0;
    while i < n
        invariant
            i <= n == pos.len() == vel.len(),
            vel1 == rows(vel@),
            fit(pos0, vel1, d as int),
            rows(pos@) == drift(pos0, vel1, d as int, i as int),
            forall|j: int| 0 <= j < n ==> (#[trigger] pos[j]).len() == pos0[j].len(),
        decreases n - i,
    {
        assert(d < vel1[i as int].len());
        let moved = pos[i][d].wrapping_add(vel[i][d]);
        pos[i][d] = moved;
        i = i + 1;
    }
    assert forall|e: int| fit(pos0, vel0, e) implies fit(rows(pos@), rows(vel@), e) by {
        assert forall|j: int| 0 <= j < n implies e < (#[trigger] rows(pos@)[j]).len() by {
            assert(pos[j].len() == pos0[j].len());
        }
        assert forall|j: int| 0 <= j < n implies e < (#[trigger] rows(vel@)[j]).len() by {
            assert(vel[j].len() == vel0[j].len());
        }
    }
}

/// One step of all moons along each of the three coordinates.
pub fn iter_moons(pos: &mut Vec<Vec<i32>>, vel: &mut Vec<Vec<i32>>, pairs: &Vec<(usize, usize)>)
    requires
        fit(rows(old(pos)@), rows(old(vel)@), 2),
        pairs_within(pairs@, old(pos).len() as int),
    ensures
        (Moons { pos: rows(final(pos)@), vel: rows(final(vel)@) }) == step_all(
            Moons { pos: rows(old(pos)@), vel: rows(old(vel)@) },
            pairs@,
        ),
        fit(rows(final(pos)@), rows(final(vel)@), 2),
        final(pos).len() == old(pos).len(),
{
    assert(fit(rows(pos@), rows(vel@), 0)) by {
        assert(forall|i: int| 0 <= i < vel.len() ==> 2 < (#[trigger] rows(vel@)[i]).len());
    }
    assert(fit(rows(pos@), rows(vel@), 1)) by {
        assert(forall|i: int| 0 <= i < vel.len() ==> 2 < (#[trigger] rows(vel@)[i]).len());
    }
    iter_moons_by_component(pos, vel, 0, pairs);
    iter_moons_by_component(pos, vel, 1, pairs);
    iter_moons_by_component(pos, vel, 2, pairs);
}

/// Reads one line as the coordinates of a moon.
fn moon(chars: &Vec<char>, from: usize, to: usize) -> (r: Option<Vec<i32>>)
    requires
        from <= to <= chars.len(),
    ensures
        match moon_of(chars@.subrange(from as int, to as int)) {
            Some(row) => r matches Some(v) && v@ == row,
            None => r is None,
        },
{
    let ghost line = chars@.subrange(from as int, to as int);
    let mut bare: Vec<char> = Vec::new();
    let mut k: usize = from;
    while k < to
        invariant
            from <= k <= to <= chars.len(),
            line == chars@.subrange(from as int, to as int),
            bare@ == strip(line.take(k - from)),
        decreases to - k,
    {
        let c = chars[k];
        assert(line.take(k - from + 1).drop_last() =~= line.take(k - from));
        if !(c == '<' || c == '>' || c == 'x' || c == 'y' || c == 'z' || c == '=') {
            bare.push(c);
        }
        k = k + 1;
    }
    assert(line.take(to - from) =~= line);
    assert(bare@.subrange(0, bare.len() as int) =~= bare@);
    let wide = match parse_int_list_in(&bare, 0, bare.len()) {
        Some(wide) => wide,
        None => {
            return None;
        },
    };
    if wide.len() < 3 {
        return None;
    }
    let mut row: Vec<i32> = Vec::new();
    let mut j: usize = 0;
    while j < wide.len()
        invariant
            j <= wide.len(),
            row.len() == j,
            wide.len() >= 3,
            line == chars@.subrange(from as int, to as int),
            int_list(strip(line)) == Some(wide@),
            forall|i: int| 0 <= i < j ==> i32::MIN <= #[trigger] wide[i] <= i32::MAX,
            forall|i: int| 0 <= i < j ==> #[trigger] row[i] == wide[i] as i32,
        decreases wide.len() - j,
    {
        let v = wide[j];
        if v < -0x8000_0000 || v > 0x7fff_ffff {
            return None;
        }
        row.push(v as i32);
        j = j + 1;
    }
    Some(row)
}

/// Reads the moons in `input`, one on each line.
pub fn moons(input: &str) -> (r: Option<Vec<Vec<i32>>>)
    ensures
        match moons_of(input@) {
            Some(grid) => r matches Some(v) && rows(v@) == grid,
            None => r is None,
        },
{
    let chars = chars_of(input);
    assert(chars@.subrange(0, chars.len() as int) =~= input@);
    let lines = split_bounds(&chars, 0, chars.len(), '\n');
    let ghost parts = split(input@, '\n');
    let mut grid: Vec<Vec<i32>> = Vec::new();
    let mut k: usize = 0;
    while k < lines.len()
        invariant
            k <= lines.len() == parts.len(),
            parts == split(input@, '\n'),
            chars@ == input@,
            forall|j: int|
                0 <= j < lines.len() ==> (#[trigger] lines[j]).0 <= lines[j].1 <= chars.len(),
            forall|j: int|
                0 <= j < lines.len() ==> chars@.subrange(
                    (#[trigger] lines[j]).0 as int,
                    lines[j].1 as int,
                ) == parts[j],
            grid.len() == k,
            forall|j: int| 0 <= j < k ==> moon_of(#[trigger] parts[j]) == Some(grid[j]@),
        decreases lines.len() - k,
    {
        match moon(&chars, lines[k].0, lines[k].1) {
            Some(row) => {
                grid.push(row);
            },
            None => {
                return None;
            },
        }
        k = k + 1;
    }
    Some(grid)
}

/// The distance of `v` from 0.
fn abs32(v: i32) -> (m: i32)
    ensures
        m == magnitude(v),
{
    if v < 0 {
        0i32.wrapping_sub(v)
    } else {
        v
    }
}

/// The sum of the magnitudes of the entries of `row`.
fn row_energy(row: &Vec<i32>) -> (e: i32)
    ensures
        e == energy(row@, row.len() as int),
{
    let mut e: i32 = 0;
    let mut k: usize = 0;
    while k < row.len()
        invariant
            k <= row.len(),
            e == energy(row@, k as int),
        decreases row.len() - k,
    {
        e = e.wrapping_add(abs32(row[k]));
        k = k + 1;
    }
    e
}

/// The number of steps that the arguments ask for: 1000 if there is none,
/// else what the first one writes, if that is a number that fits in `usize`.
pub open spec fn steps_of(args: Seq<String>) -> Option<usize> {
    if args.len() == 0 {
        Some(1000)
    } else {
        match parse_u64(args[0]@) {
            Some(n) => if n <= usize::MAX {
                Some(n as usize)
            } else {
                None
            },
            None => None,
        }
    }
}

/// The most moons that `q1` takes.
pub const MOONS_CAP: usize = 1024;

/// The total energy of the moons in `text` after the number of steps that
/// `args` asks for. The moons start at rest.
pub open spec fn energy_after(text: Seq<char>, args: Seq<String>) -> Result<i32, Cause> {
    match steps_of(args) {
        None => Err(Cause::BadArgument),
        Some(steps) => match moons_of(text) {
            None => Err(Cause::BadInput),
            Some(pos) => if pos.len() > MOONS_CAP {
                Err(Cause::BadInput)
            } else {
                let end = after(
                    Moons { pos, vel: at_rest(pos.len()) },
                    pairs_in_order(pos.len() as usize),
                    steps as nat,
                );
                Ok(total_energy(end, end.pos.len() as int))
            },
        },
    }
}

/// The total energy of the moons in `input` after 1000 steps, or after as
/// many as the first argument says. It is `Failure::BadArgument` if that is
/// no number, and `Failure::BadInput` if a line does not give a moon or
/// there are more than `MOONS_CAP` of them.
pub fn q1(input: String, args: &[String]) -> (r: Result<i32, Failure>)
    ensures
        match energy_after(input@, args@) {
            Ok(total) => r == Ok::<i32, Failure>(total),
            Err(cause) => r matches Err(e) && e@ == cause,
        },
{
    let steps: usize = if args.len() == 0 {
        1000
    } else {
        let digits = chars_of(args[0].as_str());
        assert(digits@.subrange(0, digits.len() as int) =~= args@[0]@);
        match parse_u64_in(&digits, 0, digits.len()) {
            Some(n) => if n <= usize::MAX as u64 {
                n as usize
            } else {
                return Err(Failure::BadArgument);
            },
            None => {
                return Err(Failure::BadArgument);
            },
        }
    };
    let mut pos = match moons(input.as_str()) {
        Some(pos) => pos,
        None => {
            return Err(Failure::BadInput);
        },
    };
    let n = pos.len();
    if n > MOONS_CAP {
        return Err(Failure::BadInput);
    }
    let ghost pos0 = rows(pos@);
    let mut vel: Vec<Vec<i32>> = Vec::new();
    let mut k: usize = 0;
    while k < n
        invariant
            k <= n,
            vel.len() == k,
            forall|i: int| 0 <= i < k ==> (#[trigger] vel[i])@ == seq![0i32, 0i32, 0i32],
        decreases n - k,
    {
        let mut still: Vec<i32> = Vec::new();
        still.push(0);
        still.push(0);
        still.push(0);
        vel.push(still);
        k = k + 1;
    }
    assert(rows(vel@) =~= at_rest(n as nat));
    let pairs = index_pairs(n);
    proof {
        lemma_pairs_are_within(0, 1, n as int);
    }
    let ghost start = Moons { pos: pos0, vel: at_rest(n as nat) };
    let mut step: usize = 0;
    while step < steps
        invariant
            step <= steps,
            pos.len() == n,
            fit(rows(pos@), rows(vel@), 2),
            pairs_within(pairs@, n as int),
            (Moons { pos: rows(pos@), vel: rows(vel@) }) == after(start, pairs@, step as nat),
        decreases steps - step,
    {
        iter_moons(&mut pos, &mut vel, &pairs);
        step = step + 1;
    }
    let ghost end = Moons { pos: rows(pos@), vel: rows(vel@) };
    let mut total: i32 = 0;
    let mut i: usize = 0;
    while i < n
        invariant
            i <= n == pos.len() == vel.len(),
            end == (Moons { pos: rows(pos@), vel: rows(vel@) }),
            total == total_energy(end, i as int),
        decreases n - i,
    {
        total = total.wrapping_add(row_energy(&pos[i]).wrapping_mul(row_energy(&vel[i])));
        i = i + 1;
    }
    Ok(total)
}

/// The moons after `n` steps along coordinate `d` alone.
pub open spec fn along(moons: Moons, d: int, pairs: Seq<(usize, usize)>, n: nat) -> Moons
    decreases n,
{
    if n == 0 {
        moons
    } else {
        step_along(along(moons, d, pairs, (n - 1) as nat), d, pairs)
    }
}

/// Whether the moons are, after `n` steps along `d`, where they were
/// after fewer steps.
pub open spec fn seen_before(moons: Moons, d: int, pairs: Seq<(usize, usize)>, n: nat) -> bool {
    exists|m: nat| m < n && #[trigger] along(moons, d, pairs, m) == along(moons, d, pairs, n)
}

/// The least number of steps along `d`, `n` or more, after which the moons
/// are where they were after fewer steps; `None` if it is more than
/// `n + fuel`.
pub open spec fn period_from(
    moons: Moons,
    d: int,
    pairs: Seq<(usize, usize)>,
    n: nat,
    fuel: nat,
) -> Option<nat>
    decreases fuel,
{
    if seen_before(moons, d, pairs, n) {
        Some(n)
    } else if fuel == 0 {
        None
    } else {
        period_from(moons, d, pairs, n + 1, (fuel - 1) as nat)
    }
}

/// The least common multiple of `a` and `b`, for `b` that is not 0: `a`
/// times what is left of `b` when the greatest common divisor is taken out.
/// The product wraps round at the end of the range of `usize`.
pub open spec fn lcm(a: usize, b: usize) -> usize {
    a.wrapping_mul((b as nat / gcd_of(a as nat, b as nat)) as usize)
}

/// The number of steps after which all three coordinates are where they
/// were before: the least common multiple of the periods along each. The
/// coordinates are tried in turn, each from where the one before it left the
/// moons. `None` if a period is more than `usize::MAX`.
pub open spec fn common_period(moons: Moons, pairs: Seq<(usize, usize)>) -> Option<usize> {
    match period_from(moons, 0, pairs, 0, usize::MAX as nat) {
        None => None,
        Some(p0) => {
            let after0 = along(moons, 0, pairs, p0);
            match period_from(after0, 1, pairs, 0, usize::MAX as nat) {
                None => None,
                Some(p1) => {
                    let after1 = along(after0, 1, pairs, p1);
                    match period_from(after1, 2, pairs, 0, usize::MAX as nat) {
                        None => None,
                        Some(p2) => Some(
                            lcm(lcm(lcm(1, p0 as usize), p1 as usize), p2 as usize),
                        ),
                    }
                },
            }
        },
    }
}

/// The number of steps after which the moons in `text`, which start at
/// rest, are where they were before.
pub open spec fn repeat_after(text: Seq<char>) -> Result<usize, Cause> {
    match moons_of(text) {
        None => Err(Cause::BadInput),
        Some(pos) => if pos.len() > MOONS_CAP {
            Err(Cause::BadInput)
        } else {
            match common_period(
                Moons { pos, vel: at_rest(pos.len()) },
                pairs_in_order(pos.len() as usize),
            ) {
                Some(steps) => Ok(steps),
                None => Err(Cause::NoAnswer),
            }
        },
    }
}

/// A copy of `grid`.
fn copy_grid(grid: &Vec<Vec<i32>>) -> (copy: Vec<Vec<i32>>)
    ensures
        rows(copy@) == rows(grid@),
{
    let mut copy: Vec<Vec<i32>> = Vec::new();
    let mut i: usize = 0;
    while i < grid.len()
        invariant
            i <= grid.len(),
            copy.len() == i,
            forall|k: int| 0 <= k < i ==> (#[trigger] copy[k])@ == grid[k]@,
        decreases grid.len() - i,
    {
        let mut row: Vec<i32> = Vec::new();
        let mut j: usize = 0;
        while j < grid[i].len()
            invariant
                i < grid.len(),
                j <= grid[i as int].len(),
                row.len() == j,
                forall|k: int| 0 <= k < j ==> #[trigger] row[k] == grid[i as int][k],
            decreases grid[i as int].len() - j,
        {
            row.push(grid[i][j]);
            j = j + 1;
        }
        copy.push(row);
        i = i + 1;
    }
    copy
}

/// Whether two grids hold the same numbers.
fn same_grid(a: &Vec<Vec<i32>>, b: &Vec<Vec<i32>>) -> (same: bool)
    ensures
        same == (rows(a@) == rows(b@)),
{
    if a.len() != b.len() {
        return false;
    }
    let mut i: usize = 0;
    while i < a.len()
        invariant
            i <= a.len() == b.len(),
            forall|k: int| 0 <= k < i ==> (#[trigger] a[k])@ == b[k]@,
        decreases a.len() - i,
    {
        if a[i].len() != b[i].len() {
            assert(rows(a@)[i as int].len() != rows(b@)[i as int].len());
            return false;
        }
        let mut j: usize = 0;
        while j < a[i].len()
            invariant
                i < a.len() == b.len(),
                j <= a[i as int].len() == b[i as int].len(),
                forall|k: int| 0 <= k < j ==> #[trigger] a[i as int][k] == b[i as int][k],
            decreases a[i as int].len() - j,
        {
            if a[i][j] != b[i][j] {
                assert(rows(a@)[i as int][j as int] != rows(b@)[i as int][j as int]);
                return false;
            }
            j = j + 1;
        }
        i = i + 1;
    }
    assert(rows(a@) =~= rows(b@));
    true
}

/// Steps the moons along coordinate `d` until they are where they were
/// before, and gives the number of steps.
fn period(
    pos: &mut Vec<Vec<i32>>,
    vel: &mut Vec<Vec<i32>>,
    d: usize,
    pairs: &Vec<(usize, usize)>,
) -> (r: Option<usize>)
    requires
        fit(rows(old(pos)@), rows(old(vel)@), 2),
        d <= 2,
        pairs_within(pairs@, old(pos).len() as int),
    ensures
        ({
            let start = Moons { pos: rows(old(pos)@), vel: rows(old(vel)@) };
            match period_from(start, d as int, pairs@, 0, usize::MAX as nat) {
                None => r is None,
                Some(p) => {
                    &&& r == Some(p as usize)
                    &&& p <= usize::MAX
                    &&& (Moons { pos: rows(final(pos)@), vel: rows(final(vel)@) }) == along(
                        start,
                        d as int,
                        pairs@,
                        p,
                    )
                    &&& fit(rows(final(pos)@), rows(final(vel)@), 2)
                    &&& final(pos).len() == old(pos).len()
                },
            }
        }),
{
    let ghost start = Moons { pos: rows(pos@), vel: rows(vel@) };
    let mut past_pos: Vec<Vec<Vec<i32>>> = Vec::new();
    let mut past_vel: Vec<Vec<Vec<i32>>> = Vec::new();
    let mut n: usize = 0;
    loop
        invariant
            fit(rows(pos@), rows(vel@), 2),
            d <= 2,
            pos.len() == old(pos).len(),
            pairs_within(pairs@, pos.len() as int),
            start == (Moons { pos: rows(old(pos)@), vel: rows(old(vel)@) }),
            (Moons { pos: rows(pos@), vel: rows(vel@) }) == along(start, d as int, pairs@, n as nat),
            past_pos.len() == n,
            past_vel.len() == n,
            forall|m: int|
                0 <= m < n ==> (Moons {
                    pos: rows((#[trigger] past_pos[m])@),
                    vel: rows(past_vel[m]@),
                }) == along(start, d as int, pairs@, m as nat),
            period_from(start, d as int, pairs@, n as nat, (usize::MAX - n) as nat) == period_from(
                start,
                d as int,
                pairs@,
                0,
                usize::MAX as nat,
            ),
        decreases usize::MAX - n,
    {
        let mut m: usize = 0;
        let mut found = false;
        while m < n && !found
            invariant
                m <= n,
                past_pos.len() == n,
                past_vel.len() == n,
                (Moons { pos: rows(pos@), vel: rows(vel@) }) == along(
                    start,
                    d as int,
                    pairs@,
                    n as nat,
                ),
                forall|k: int|
                    0 <= k < n ==> (Moons {
                        pos: rows((#[trigger] past_pos[k])@),
                        vel: rows(past_vel[k]@),
                    }) == along(start, d as int, pairs@, k as nat),
                found ==> seen_before(start, d as int, pairs@, n as nat),
                !found ==> forall|k: nat|
                    k < m ==> #[trigger] along(start, d as int, pairs@, k) != along(
                        start,
                        d as int,
                        pairs@,
                        n as nat,
                    ),
            decreases n - m + if found { 0int } else { 1int },
        {
            if same_grid(&past_pos[m], pos) && same_grid(&past_vel[m], vel) {
                found = true;
            } else {
                m = m + 1;
            }
        }
        if found {
            return Some(n);
        }
        if n == usize::MAX {
            return None;
        }
        past_pos.push(copy_grid(pos));
        past_vel.push(copy_grid(vel));
        proof {
            assert(fit(rows(pos@), rows(vel@), d as int)) by {
                assert(forall|i: int| 0 <= i < vel.len() ==> 2 < (#[trigger] rows(vel@)[i]).len());
            }
        }
        iter_moons_by_component(pos, vel, d, pairs);
        n = n + 1;
    }
}

/// The least common multiple of `a` and `b`.
fn least_common_multiple(a: usize, b: usize) -> (m: usize)
    requires
        b > 0,
    ensures
        m == lcm(a, b),
{
    let g = greatest_common_divisor(a as u128, b as u128);
    assert(g > 0 && g <= b) by {
        if g > b {
            vstd::arithmetic::div_mod::lemma_small_mod(b as nat, g as nat);
        }
    }
    a.wrapping_mul(((b as u128) / g) as usize)
}

/// The number of steps after which the moons in `input`, which start at
/// rest, are where they were before. It is `Failure::BadInput` if a line
/// does not give a moon or there are more than `MOONS_CAP` of them.
pub fn q2(input: String, _args: &[String]) -> (r: Result<usize, Failure>)
    ensures
        match repeat_after(input@) {
            Ok(steps) => r == Ok::<usize, Failure>(steps),
            Err(cause) => r matches Err(e) && e@ == cause,
        },
{
    let mut pos = match moons(input.as_str()) {
        Some(pos) => pos,
        None => {
            return Err(Failure::BadInput);
        },
    };
    let n = pos.len();
    if n > MOONS_CAP {
        return Err(Failure::BadInput);
    }
    let mut vel: Vec<Vec<i32>> = Vec::new();
    let mut k: usize = 0;
    while k < n
        invariant
            k <= n,
            vel.len() == k,
            forall|i: int| 0 <= i < k ==> (#[trigger] vel[i])@ == seq![0i32, 0i32, 0i32],
        decreases n - k,
    {
        let mut still: Vec<i32> = Vec::new();
        still.push(0);
        still.push(0);
        still.push(0);
        vel.push(still);
        k = k + 1;
    }
    assert(rows(vel@) =~= at_rest(n as nat));
    let pairs = index_pairs(n);
    proof {
        lemma_pairs_are_within(0, 1, n as int);
    }
    proof {
        lemma_period_is_positive(
            Moons { pos: rows(pos@), vel: rows(vel@) },
            0,
            pairs@,
            0,
            usize::MAX as nat,
        );
    }
    let p0 = match period(&mut pos, &mut vel, 0, &pairs) {
        Some(p) => p,
        None => {
            return Err(Failure::NoAnswer);
        },
    };
    proof {
        lemma_period_is_positive(
            Moons { pos: rows(pos@), vel: rows(vel@) },
            1,
            pairs@,
            0,
            usize::MAX as nat,
        );
    }
    let p1 = match period(&mut pos, &mut vel, 1, &pairs) {
        Some(p) => p,
        None => {
            return Err(Failure::NoAnswer);
        },
    };
    proof {
        lemma_period_is_positive(
            Moons { pos: rows(pos@), vel: rows(vel@) },
            2,
            pairs@,
            0,
            usize::MAX as nat,
        );
    }
    let p2 = match period(&mut pos, &mut vel, 2, &pairs) {
        Some(p) => p,
        None => {
            return Err(Failure::NoAnswer);
        },
    };
    Ok(least_common_multiple(least_common_multiple(least_common_multiple(1, p0), p1), p2))
}

/// A period that is looked for from `n` steps on is `n` or more, and no
/// period is 0: before the first step the moons have not been anywhere.
pub proof fn lemma_period_is_positive(
    moons: Moons,
    d: int,
    pairs: Seq<(usize, usize)>,
    n: nat,
    fuel: nat,
)
    ensures
        period_from(moons, d, pairs, n, fuel) matches Some(p) ==> p >= n && p >= 1,
    decreases fuel,
{
    if !seen_before(moons, d, pairs, n) && fuel > 0 {
        lemma_period_is_positive(moons, d, pairs, n + 1, (fuel - 1) as nat);
    }
}

} // verus!
