//! Two wires laid out on a grid from one place, and where they cross.

use std::collections::HashMap;
use std::collections::HashSet;
use vstd::prelude::*;

use crate::failure::{Cause, Failure};
use crate::grid::{key, key_of, lemma_key_tells_places_apart, Point};
use crate::text::{chars_of, parse_usize, parse_usize_in, split, split_bounds};

verus! {

broadcast use vstd::std_specs::hash::group_hash_axioms;

/// The way a stretch of wire goes.
#[derive(Debug, Clone, Copy, PartialEq, Eq)]
pub enum Dir {
    /// Towards lesser `y`.
    Up,
    /// Towards greater `y`.
    Down,
    /// Towards lesser `x`.
    Left,
    /// Towards greater `x`.
    Right,
}

/// A straight stretch of wire.
#[derive(Debug, Clone, Copy, PartialEq, Eq)]
pub struct PathChunk {
    /// The way it goes.
    pub dir: Dir,
    /// The number of steps it takes.
    pub dist: usize,
}

/// The direction that `c` names.
pub open spec fn dir_of(c: char) -> Option<Dir> {
    if c == 'U' {
        Some(Dir::Up)
    } else if c == 'D' {
        Some(Dir::Down)
    } else if c == 'L' {
        Some(Dir::Left)
    } else if c == 'R' {
        Some(Dir::Right)
    } else {
        None
    }
}

/// The stretch that `s` writes: the letter of a direction, then a number.
pub open spec fn chunk_of(s: Seq<char>) -> Option<PathChunk> {
    if s.len() == 0 {
        None
    } else {
        match (dir_of(s[0]), parse_usize(s.drop_first())) {
            (Some(dir), Some(dist)) => Some(PathChunk { dir, dist }),
            _ => None,
        }
    }
}

/// The wire that `line` writes: stretches with commas between them.
pub open spec fn wire_of(line: Seq<char>) -> Option<Seq<PathChunk>> {
    let parts = split(line, ',');
    if forall|k: int| 0 <= k < parts.len() ==> chunk_of(#[trigger] parts[k]) is Some {
        Some(Seq::new(parts.len(), |k: int| chunk_of(parts[k]).unwrap()))
    } else {
        None
    }
}

/// The two wires that `text` writes, one on each of its two lines.
pub open spec fn wires_of(text: Seq<char>) -> Option<(Seq<PathChunk>, Seq<PathChunk>)> {
    let lines = split(text, '\n');
    if lines.len() != 2 {
        None
    } else {
        match (wire_of(lines[0]), wire_of(lines[1])) {
            (Some(first), Some(second)) => Some((first, second)),
            _ => None,
        }
    }
}

impl Dir {
    /// One step in this direction, as the change of `x` and of `y`.
    pub open spec fn delta(self) -> Point {
        match self {
            Dir::Up => (0i32, -1i32),
            Dir::Down => (0i32, 1i32),
            Dir::Left => (-1i32, 0i32),
            Dir::Right => (1i32, 0i32),
        }
    }

    /// One step in this direction, as the change of `x` and of `y`.
    pub fn to_delta(self) -> (d: (i32, i32))
        ensures
            d == self.delta(),
    {
        match self {
            Dir::Up => (0, -1),
            Dir::Down => (0, 1),
            Dir::Left => (-1, 0),
            Dir::Right => (1, 0),
        }
    }

    /// The direction that the one letter `U`, `D`, `L` or `R` names.
    pub fn from_str(s: &str) -> (r: Result<Dir, ()>)
        ensures
            r is Ok <==> s@.len() == 1 && dir_of(s@[0]) is Some,
            r matches Ok(dir) ==> Some(dir) == dir_of(s@[0]),
    {
        let chars = chars_of(s);
        if chars.len() != 1 {
            return Err(());
        }
        match letter(chars[0]) {
            Some(dir) => Ok(dir),
            None => Err(()),
        }
    }
}

impl PathChunk {
    /// The stretch that `s` writes: the letter of a direction, then the
    /// number of steps.
    pub fn from_str(s: &str) -> (r: Result<PathChunk, ()>)
        ensures
            r is Ok <==> chunk_of(s@) is Some,
            r matches Ok(chunk) ==> Some(chunk) == chunk_of(s@),
    {
        let chars = chars_of(s);
        assert(chars@.subrange(0, chars.len() as int) =~= s@);
        match chunk(&chars, 0, chars.len()) {
            Some(chunk) => Ok(chunk),
            None => Err(()),
        }
    }
}

/// The direction that `c` names.
fn letter(c: char) -> (r: Option<Dir>)
    ensures
        r == dir_of(c),
{
    if c == 'U' {
        Some(Dir::Up)
    } else if c == 'D' {
        Some(Dir::Down)
    } else if c == 'L' {
        Some(Dir::Left)
    } else if c == 'R' {
        Some(Dir::Right)
    } else {
        None
    }
}

/// Reads `chars[from..to]` as a stretch of wire.
fn chunk(chars: &Vec<char>, from: usize, to: usize) -> (r: Option<PathChunk>)
    requires
        from <= to <= chars.len(),
    ensures
        r == chunk_of(chars@.subrange(from as int, to as int)),
{
    if from == to {
        return None;
    }
    assert(chars@.subrange(from as int, to as int).drop_first() =~= chars@.subrange(
        from + 1,
        to as int,
    ));
    match (letter(chars[from]), parse_usize_in(chars, from + 1, to)) {
        (Some(dir), Some(dist)) => Some(PathChunk { dir, dist }),
        _ => None,
    }
}

/// Reads `chars[from..to]` as a wire.
fn wire(chars: &Vec<char>, from: usize, to: usize) -> (r: Option<Vec<PathChunk>>)
    requires
        from <= to <= chars.len(),
    ensures
        match wire_of(chars@.subrange(from as int, to as int)) {
            Some(w) => r matches Some(v) && v@ == w,
            None => r is None,
        },
{
    let ghost line = chars@.subrange(from as int, to as int);
    let pieces = split_bounds(chars, from, to, ',');
    let ghost parts = split(line, ',');
    let mut chunks: Vec<PathChunk> = Vec::new();
    let mut k: usize = 0;
    while k < pieces.len()
        invariant
            k <= pieces.len() == parts.len(),
            parts == split(line, ','),
            line == chars@.subrange(from as int, to as int),
            forall|j: int|
                0 <= j < pieces.len() ==> (#[trigger] pieces[j]).0 <= pieces[j].1 <= chars.len(),
            forall|j: int|
                0 <= j < pieces.len() ==> chars@.subrange(
                    (#[trigger] pieces[j]).0 as int,
                    pieces[j].1 as int,
                ) == parts[j],
            chunks.len() == k,
            forall|j: int| 0 <= j < k ==> chunk_of(#[trigger] parts[j]) == Some(chunks[j]),
        decreases pieces.len() - k,
    {
        match chunk(chars, pieces[k].0, pieces[k].1) {
            Some(c) => {
                chunks.push(c);
            },
            None => {
                return None;
            },
        }
        k = k + 1;
    }
    Some(chunks)
}

/// Reads the two wires.
fn wires(input: &str) -> (r: Option<(Vec<PathChunk>, Vec<PathChunk>)>)
    ensures
        match wires_of(input@) {
            Some((first, second)) => r matches Some(pair) && pair.0@ == first && pair.1@
                == second,
            None => r is None,
        },
{
    let chars = chars_of(input);
    assert(chars@.subrange(0, chars.len() as int) =~= input@);
    let lines = split_bounds(&chars, 0, chars.len(), '\n');
    if lines.len() != 2 {
        return None;
    }
    let first = wire(&chars, lines[0].0, lines[0].1);
    let second = wire(&chars, lines[1].0, lines[1].1);
    match (first, second) {
        (Some(first), Some(second)) => Some((first, second)),
        _ => None,
    }
}

/// The place one step from `p` in the direction `dir`. Coordinates wrap
/// round at the ends of the 32-bit range.
pub open spec fn moved(p: Point, dir: Dir) -> Point {
    (p.0.wrapping_add(dir.delta().0), p.1.wrapping_add(dir.delta().1))
}

/// Where a walk stands that began at `start` and went through `walked`.
pub open spec fn end_of(start: Point, walked: Seq<Point>) -> Point {
    if walked.len() == 0 {
        start
    } else {
        walked.last()
    }
}

/// The places that `n` steps from `start` in the direction `dir` go
/// through, the start not counted.
pub open spec fn leg(start: Point, dir: Dir, n: nat) -> Seq<Point>
    decreases n,
{
    if n == 0 {
        Seq::empty()
    } else {
        let before = leg(start, dir, (n - 1) as nat);
        before.push(moved(end_of(start, before), dir))
    }
}

/// The places that the wire goes through from the start at `(0, 0)`, in
/// order, the start itself not counted.
pub open spec fn trace(wire: Seq<PathChunk>) -> Seq<Point>
    decreases wire.len(),
{
    if wire.len() == 0 {
        Seq::empty()
    } else {
        let before = trace(wire.drop_last());
        before + leg(end_of((0, 0), before), wire.last().dir, wire.last().dist as nat)
    }
}

/// The places that the wire goes through.
fn places(wire: &Vec<PathChunk>) -> (walked: Vec<Point>)
    ensures
        walked@ == trace(wire@),
{
    let mut walked: Vec<Point> = Vec::new();
    let mut at: Point = (0, 0);
    let mut k: usize = 0;
    while k < wire.len()
        invariant
            k <= wire.len(),
            walked@ == trace(wire@.take(k as int)),
            at == end_of((0, 0), walked@),
        decreases wire.len() - k,
    {
        let PathChunk { dir, dist } = wire[k];
        let (dx, dy) = dir.to_delta();
        let ghost before = walked@;
        let ghost start = at;
        let mut step: usize = 0;
        while step < dist
            invariant
                step <= dist,
                (dx, dy) == dir.delta(),
                walked@ == before + leg(start, dir, step as nat),
                at == end_of(start, leg(start, dir, step as nat)),
            decreases dist - step,
        {
            at = (at.0.wrapping_add(dx), at.1.wrapping_add(dy));
            walked.push(at);
            step = step + 1;
        }
        assert(wire@.take(k + 1).drop_last() =~= wire@.take(k as int));
        k = k + 1;
    }
    assert(wire@.take(wire.len() as int) =~= wire@);
    walked
}

/// The distance of `v` from 0; `i32::MIN` stays as it is.
pub open spec fn magnitude(v: i32) -> i32 {
    if v < 0 {
        0i32.wrapping_sub(v)
    } else {
        v
    }
}

/// The distance of `p` from the start when one may only go along the grid.
/// The sum wraps round at the ends of the 32-bit range.
pub open spec fn manhattan(p: Point) -> i32 {
    magnitude(p.0).wrapping_add(magnitude(p.1))
}

/// The least distance from the start among those of the first `n` places of
/// `second` that `first` goes through as well.
pub open spec fn closest(first: Seq<Point>, second: Seq<Point>, n: int) -> Option<i32>
    decreases n,
{
    if n <= 0 {
        None
    } else {
        let before = closest(first, second, n - 1);
        let p = second[n - 1];
        if first.contains(p) {
            match before {
                None => Some(manhattan(p)),
                Some(least) => if manhattan(p) < least {
                    Some(manhattan(p))
                } else {
                    Some(least)
                },
            }
        } else {
            before
        }
    }
}

/// The distance `d` as the answer: itself where it is not negative, and as
/// far below the end of the range of `usize` as it is below 0 where it is.
pub open spec fn as_answer(d: i32) -> usize {
    if d >= 0 {
        d as usize
    } else {
        (usize::MAX + 1 + d) as usize
    }
}

/// The answer to the first question: the distance from the start to the
/// nearest place where the two wires cross.
pub open spec fn nearest_crossing(text: Seq<char>) -> Result<usize, Cause> {
    match wires_of(text) {
        None => Err(Cause::BadInput),
        Some((first, second)) => match closest(
            trace(first),
            trace(second),
            trace(second).len() as int,
        ) {
            None => Err(Cause::NoAnswer),
            Some(d) => Ok(as_answer(d)),
        },
    }
}

/// The number of the `n`-th step, counted from 1. The count wraps round at
/// the end of the range of `usize`.
pub open spec fn step_no(n: int) -> usize
    decreases n,
{
    if n <= 0 {
        0
    } else {
        step_no(n - 1).wrapping_add(1)
    }
}

/// The number of the step with which the wire last came to `p` among its
/// first `n` steps.
pub open spec fn last_visit(walked: Seq<Point>, p: Point, n: int) -> Option<usize>
    decreases n,
{
    if n <= 0 {
        None
    } else if walked[n - 1] == p {
        Some(step_no(n))
    } else {
        last_visit(walked, p, n - 1)
    }
}

/// The least sum of steps among the first `n` places of `second` that
/// `first` goes through as well: the steps of `second` to the place and the
/// steps of `first` to its last visit there. Sums wrap round at the end of
/// the range of `usize`.
pub open spec fn fewest(first: Seq<Point>, second: Seq<Point>, n: int) -> Option<usize>
    decreases n,
{
    if n <= 0 {
        None
    } else {
        let before = fewest(first, second, n - 1);
        match last_visit(first, second[n - 1], first.len() as int) {
            None => before,
            Some(steps) => {
                let sum = steps.wrapping_add(step_no(n));
                match before {
                    None => Some(sum),
                    Some(least) => if sum < least {
                        Some(sum)
                    } else {
                        Some(least)
                    },
                }
            },
        }
    }
}

/// The answer to the second question: the fewest steps along both wires to
/// a place where they cross.
pub open spec fn soonest_crossing(text: Seq<char>) -> Result<usize, Cause> {
    match wires_of(text) {
        None => Err(Cause::BadInput),
        Some((first, second)) => match fewest(
            trace(first),
            trace(second),
            trace(second).len() as int,
        ) {
            None => Err(Cause::NoAnswer),
            Some(steps) => Ok(steps),
        },
    }
}

/// A wire has come to a place among its first `n` steps if and only if the
/// place is among the first `n` that it goes through.
proof fn lemma_visited_is_contained(walked: Seq<Point>, p: Point, n: int)
    requires
        0 <= n <= walked.len(),
    ensures
        last_visit(walked, p, n) is Some <==> exists|i: int| 0 <= i < n && walked[i] == p,
        n == walked.len() ==> (last_visit(walked, p, n) is Some <==> walked.contains(p)),
    decreases n,
{
    if n > 0 {
        lemma_visited_is_contained(walked, p, n - 1);
        if walked[n - 1] != p && exists|i: int| 0 <= i < n && walked[i] == p {
            let i = choose|i: int| 0 <= i < n && walked[i] == p;
        }
    }
}

/// The distance of `p` from the start along the grid.
fn distance(p: Point) -> (d: i32)
    ensures
        d == manhattan(p),
{
    let ax = if p.0 < 0 {
        0i32.wrapping_sub(p.0)
    } else {
        p.0
    };
    let ay = if p.1 < 0 {
        0i32.wrapping_sub(p.1)
    } else {
        p.1
    };
    ax.wrapping_add(ay)
}

/// The distance from the start to the nearest place where the two wires in
/// `input` cross. It is `Failure::BadInput` if `input` is not two lines of
/// stretches, and `Failure::NoAnswer` if the wires do not cross.
pub fn q1(input: String, _args: &[String]) -> (r: Result<usize, Failure>)
    ensures
        match nearest_crossing(input@) {
            Ok(d) => r == Ok::<usize, Failure>(d),
            Err(cause) => r matches Err(e) && e@ == cause,
        },
{
    let (w1, w2) = match wires(input.as_str()) {
        Some(pair) => pair,
        None => {
            return Err(Failure::BadInput);
        },
    };
    let first = places(&w1);
    let second = places(&w2);
    let mut seen: HashSet<u64> = HashSet::new();
    let mut k: usize = 0;
    while k < first.len()
        invariant
            k <= first.len(),
            forall|p: Point|
                seen@.contains(key_of(p)) <==> (#[trigger] last_visit(first@, p, k as int)) is Some,
        decreases first.len() - k,
    {
        let q = first[k];
        let ghost before = seen@;
        seen.insert(key(q));
        assert forall|p: Point|
            seen@.contains(key_of(p)) <==> (#[trigger] last_visit(first@, p, k + 1)) is Some by {
            lemma_key_tells_places_apart(p, q);
            assert(before.contains(key_of(p)) <==> last_visit(first@, p, k as int) is Some);
        }
        k = k + 1;
    }
    let mut least: Option<i32> = None;
    let mut n: usize = 0;
    while n < second.len()
        invariant
            n <= second.len(),
            k == first.len(),
            forall|p: Point|
                seen@.contains(key_of(p)) <==> (#[trigger] last_visit(first@, p, k as int)) is Some,
            least == closest(first@, second@, n as int),
        decreases second.len() - n,
    {
        let p = second[n];
        proof {
            lemma_visited_is_contained(first@, p, first.len() as int);
        }
        if seen.contains(&key(p)) {
            let d = distance(p);
            least = match least {
                None => Some(d),
                Some(least) => Some(
                    if d < least {
                        d
                    } else {
                        least
                    },
                ),
            };
        }
        n = n + 1;
    }
    match least {
        None => Err(Failure::NoAnswer),
        Some(d) => Ok(
            if d >= 0 {
                d as usize
            } else {
                usize::MAX - ((-(d as i64) - 1) as usize)
            },
        ),
    }
}

/// What a table holds for the key `k`.
pub open spec fn held(table: Map<u64, usize>, k: u64) -> Option<usize> {
    if table.contains_key(k) {
        Some(table[k])
    } else {
        None
    }
}

/// The fewest steps along both wires in `input` to a place where they
/// cross; for a place that the first wire comes to more than once, its steps
/// to the last visit there count. It is `Failure::BadInput` if `input` is
/// not two lines of stretches, and `Failure::NoAnswer` if the wires do not
/// cross.
pub fn q2(input: String, _args: &[String]) -> (r: Result<usize, Failure>)
    ensures
        match soonest_crossing(input@) {
            Ok(steps) => r == Ok::<usize, Failure>(steps),
            Err(cause) => r matches Err(e) && e@ == cause,
        },
{
    let (w1, w2) = match wires(input.as_str()) {
        Some(pair) => pair,
        None => {
            return Err(Failure::BadInput);
        },
    };
    let first = places(&w1);
    let second = places(&w2);
    let mut visits: HashMap<u64, usize> = HashMap::new();
    let mut steps: usize = 0;
    let mut k: usize = 0;
    while k < first.len()
        invariant
            k <= first.len(),
            steps == step_no(k as int),
            forall|p: Point| held(visits@, key_of(p)) == #[trigger] last_visit(first@, p, k as int),
        decreases first.len() - k,
    {
        let q = first[k];
        let ghost before = visits@;
        steps = steps.wrapping_add(1);
        visits.insert(key(q), steps);
        assert forall|p: Point| held(visits@, key_of(p)) == #[trigger] last_visit(
            first@,
            p,
            k + 1,
        ) by {
            lemma_key_tells_places_apart(p, q);
            assert(held(before, key_of(p)) == last_visit(first@, p, k as int));
        }
        k = k + 1;
    }
    let mut least: Option<usize> = None;
    let mut count: usize = 0;
    let mut n: usize = 0;
    while n < second.len()
        invariant
            n <= second.len(),
            count == step_no(n as int),
            forall|p: Point|
                held(visits@, key_of(p)) == #[trigger] last_visit(first@, p, first.len() as int),
            least == fewest(first@, second@, n as int),
        decreases second.len() - n,
    {
        let p = second[n];
        count = count.wrapping_add(1);
        assert(held(visits@, key_of(p)) == last_visit(first@, p, first.len() as int));
        match visits.get(&key(p)) {
            None => {},
            Some(back) => {
                let sum = back.wrapping_add(count);
                least = match least {
                    None => Some(sum),
                    Some(least) => Some(
                        if sum < least {
                            sum
                        } else {
                            least
                        },
                    ),
                };
            },
        }
        n = n + 1;
    }
    match least {
        None => Err(Failure::NoAnswer),
        Some(steps) => Ok(steps),
    }
}

} // verus!
