//! Asteroids on a map, and how many of them one can see from each.

use vstd::arithmetic::div_mod::lemma_fundamental_div_mod;
use vstd::prelude::*;

use crate::failure::{Cause, Failure};
use crate::gcd::{gcd_of, greatest_common_divisor};
use crate::text::{chars_of, split, split_bounds};

verus! {

/// Whether the map has an asteroid at column `x` of line `y`.
pub open spec fn rock(lines: Seq<Seq<char>>, x: int, y: int) -> bool {
    &&& 0 <= y < lines.len()
    &&& 0 <= x < lines[y].len()
    &&& (lines[y][x] == '#' || lines[y][x] == 'X')
}

/// Whether the place is on the map, which is as wide as its first line and
/// as high as the number of its lines.
pub open spec fn inside(lines: Seq<Seq<char>>, x: int, y: int) -> bool {
    0 <= x < lines[0].len() && 0 <= y < lines.len()
}

/// The distance of `v` from 0.
pub open spec fn size(v: int) -> nat {
    if v < 0 {
        (-v) as nat
    } else {
        v as nat
    }
}

/// -1, 0 or 1, as `v` is below, at or above 0.
pub open spec fn sign(v: int) -> int {
    if v < 0 {
        -1
    } else if v == 0 {
        0
    } else {
        1
    }
}

/// The number of equal steps between places of the map that lead from
/// `(x, y)` to `(dx, dy)`, as few as can be.
pub open spec fn hops(x: int, y: int, dx: int, dy: int) -> nat {
    gcd_of(size(dx - x), size(dy - y))
}

/// The place `t` steps from `(x, y)` on the way to `(dx, dy)`.
pub open spec fn place(x: int, y: int, dx: int, dy: int, t: int) -> (int, int) {
    let g = hops(x, y, dx, dy) as int;
    (
        x + t * (sign(dx - x) * (size(dx - x) as int / g)),
        y + t * (sign(dy - y) * (size(dy - y) as int / g)),
    )
}

/// Whether the first `n` places on the way from `(x, y)` to `(dx, dy)`, the
/// start not counted, are on the map and hold no asteroid.
pub open spec fn clear(lines: Seq<Seq<char>>, x: int, y: int, dx: int, dy: int, n: int) -> bool {
    forall|t: int|
        1 <= t <= n ==> {
            let p = #[trigger] place(x, y, dx, dy, t);
            inside(lines, p.0, p.1) && !rock(lines, p.0, p.1)
        }
}

/// Whether the asteroid at `(dx, dy)` is seen from `(x, y)`: it is another
/// place, it is on the map and holds an asteroid, and every place of the
/// map between the two is on the map as well and holds none.
pub open spec fn sees(lines: Seq<Seq<char>>, x: int, y: int, dx: int, dy: int) -> bool {
    &&& (dx, dy) != (x, y)
    &&& inside(lines, dx, dy)
    &&& rock(lines, dx, dy)
    &&& clear(lines, x, y, dx, dy, hops(x, y, dx, dy) - 1)
}

/// The number of asteroids seen from `(x, y)` among the first `n` places of
/// column `dx`.
pub open spec fn seen_in_column(lines: Seq<Seq<char>>, x: int, y: int, dx: int, n: int) -> nat
    decreases n,
{
    if n <= 0 {
        0
    } else {
        seen_in_column(lines, x, y, dx, n - 1) + if sees(lines, x, y, dx, n - 1) {
            1nat
        } else {
            0nat
        }
    }
}

/// The number of asteroids seen from `(x, y)` in the first `m` columns of
/// the map.
pub open spec fn seen_in_columns(lines: Seq<Seq<char>>, x: int, y: int, m: int) -> nat
    decreases m,
{
    if m <= 0 {
        0
    } else {
        seen_in_columns(lines, x, y, m - 1) + seen_in_column(
            lines,
            x,
            y,
            m - 1,
            lines.len() as int,
        )
    }
}

/// The number of asteroids seen from `(x, y)`; `usize::MAX` stands for that
/// many and more.
pub open spec fn seen_from(lines: Seq<Seq<char>>, x: int, y: int) -> usize {
    let n = seen_in_columns(lines, x, y, lines[0].len() as int);
    if n <= usize::MAX {
        n as usize
    } else {
        usize::MAX
    }
}

/// The best place for a station, with the number of asteroids seen from it.
pub struct Site {
    /// The number of asteroids seen.
    pub seen: usize,
    /// The column.
    pub x: int,
    /// The line.
    pub y: int,
}

/// The best site once the asteroid at `(x, y)`, if there is one, was held
/// against the best before it: it is the better one only if more asteroids
/// are seen from it.
pub open spec fn better(lines: Seq<Seq<char>>, best: Site, x: int, y: int) -> Site {
    if rock(lines, x, y) && best.seen < seen_from(lines, x, y) {
        Site { seen: seen_from(lines, x, y), x, y }
    } else {
        best
    }
}

/// The best site among `best` and the asteroids in the first `n` lines of
/// column `x`.
pub open spec fn best_in_column(lines: Seq<Seq<char>>, best: Site, x: int, n: int) -> Site
    decreases n,
{
    if n <= 0 {
        best
    } else {
        better(lines, best_in_column(lines, best, x, n - 1), x, n - 1)
    }
}

/// The best site among the asteroids in the first `m` columns: the first,
/// going down column after column, from which the most asteroids are seen.
/// With no asteroid at all it is the corner, with none seen.
pub open spec fn best_in_columns(lines: Seq<Seq<char>>, m: int) -> Site
    decreases m,
{
    if m <= 0 {
        Site { seen: 0, x: 0, y: 0 }
    } else {
        best_in_column(lines, best_in_columns(lines, m - 1), m - 1, lines.len() as int)
    }
}

/// The best site on the map that `text` draws, one line of the map on each
/// line of the text, `#` or `X` for an asteroid. No line is longer than the
/// text, so that many columns hold every asteroid.
pub open spec fn best_site(text: Seq<char>) -> Site {
    best_in_columns(split(text, '\n'), text.len() as int)
}

/// A map: the characters of its text and where each line starts and ends.
struct Chart {
    chars: Vec<char>,
    lines: Vec<(usize, usize)>,
}

impl Chart {
    /// The lines of the map.
    spec fn rows(&self) -> Seq<Seq<char>> {
        Seq::new(
            self.lines@.len(),
            |y: int| self.chars@.subrange(self.lines@[y].0 as int, self.lines@[y].1 as int),
        )
    }

    /// Whether every line lies within the characters.
    spec fn wf(&self) -> bool {
        &&& self.lines@.len() > 0
        &&& forall|y: int|
            0 <= y < self.lines@.len() ==> (#[trigger] self.lines@[y]).0 <= self.lines@[y].1
                <= self.chars@.len()
    }

    /// Reads the map.
    fn new(input: &str) -> (map: Chart)
        ensures
            map.wf(),
            map.rows() == split(input@, '\n'),
            map.chars@ == input@,
    {
        let chars = chars_of(input);
        assert(chars@.subrange(0, chars.len() as int) =~= input@);
        let lines = split_bounds(&chars, 0, chars.len(), '\n');
        let map = Chart { chars, lines };
        map
    }

    /// Whether there is an asteroid at `(x, y)`.
    fn rock(&self, x: i128, y: i128) -> (b: bool)
        requires
            self.wf(),
        ensures
            b == rock(self.rows(), x as int, y as int),
    {
        if y < 0 || x < 0 || y >= self.lines.len() as i128 {
            return false;
        }
        let (from, to) = self.lines[y as usize];
        if x >= (to - from) as i128 {
            return false;
        }
        let c = self.chars[from + x as usize];
        c == '#' || c == 'X'
    }

    /// Whether `(x, y)` is on the map.
    fn inside(&self, x: i128, y: i128) -> (b: bool)
        requires
            self.wf(),
        ensures
            b == inside(self.rows(), x as int, y as int),
    {
        let (from, to) = self.lines[0];
        0 <= x && x < (to - from) as i128 && 0 <= y && y < self.lines.len() as i128
    }

    /// Whether the asteroid at `(dx, dy)` is seen from `(x, y)`.
    fn sees(&self, x: i128, y: i128, dx: i128, dy: i128) -> (b: bool)
        requires
            self.wf(),
            0 <= x <= u64::MAX,
            0 <= y <= u64::MAX,
            0 <= dx <= u64::MAX,
            0 <= dy <= u64::MAX,
        ensures
            b == sees(self.rows(), x as int, y as int, dx as int, dy as int),
    {
        if (dx == x && dy == y) || !self.inside(dx, dy) || !self.rock(dx, dy) {
            return false;
        }
        let wx: u128 = if dx < x {
            (x - dx) as u128
        } else {
            (dx - x) as u128
        };
        let wy: u128 = if dy < y {
            (y - dy) as u128
        } else {
            (dy - y) as u128
        };
        let g = greatest_common_divisor(wx, wy);
        assert(g > 0 && wx % g == 0 && wy % g == 0);
        let ghost gi = g as int;
        let sx: i128 = if dx < x {
            -((wx / g) as i128)
        } else {
            (wx / g) as i128
        };
        let sy: i128 = if dy < y {
            -((wy / g) as i128)
        } else {
            (wy / g) as i128
        };
        assert(gi * sx == dx - x && gi * sy == dy - y) by {
            lemma_fundamental_div_mod(wx as int, gi);
            lemma_fundamental_div_mod(wy as int, gi);
            assert(gi * (-(wx as int / gi)) == -(gi * (wx as int / gi))) by (nonlinear_arith);
            assert(gi * (-(wy as int / gi)) == -(gi * (wy as int / gi))) by (nonlinear_arith);
        }
        let mut px: i128 = x;
        let mut py: i128 = y;
        let mut t: u128 = 1;
        while t < g
            invariant
                self.wf(),
                1 <= t <= g,
                gi == g as int,
                gi == hops(x as int, y as int, dx as int, dy as int),
                sx == sign(dx - x) * (size(dx - x) as int / gi),
                sy == sign(dy - y) * (size(dy - y) as int / gi),
                gi * sx == dx - x,
                gi * sy == dy - y,
                0 <= x <= u64::MAX,
                0 <= y <= u64::MAX,
                0 <= dx <= u64::MAX,
                0 <= dy <= u64::MAX,
                px == x + (t - 1) * sx,
                py == y + (t - 1) * sy,
                clear(self.rows(), x as int, y as int, dx as int, dy as int, t - 1),
            decreases g - t,
        {
            proof {
                lemma_along_the_way(x as int, dx as int, gi, sx as int, t as int);
                lemma_along_the_way(y as int, dy as int, gi, sy as int, t as int);
                assert((t - 1) * sx + sx == t * sx) by (nonlinear_arith);
                assert((t - 1) * sy + sy == t * sy) by (nonlinear_arith);
            }
            px = px + sx;
            py = py + sy;
            assert((px as int, py as int) == place(x as int, y as int, dx as int, dy as int, t as int));
            if !self.inside(px, py) || self.rock(px, py) {
                return false;
            }
            t = t + 1;
        }
        true
    }

    /// The number of asteroids seen from `(x, y)`.
    fn seen_from(&self, x: usize, y: usize) -> (n: usize)
        requires
            self.wf(),
        ensures
            n == seen_from(self.rows(), x as int, y as int),
    {
        let rows = self.lines.len();
        let cols = self.lines[0].1 - self.lines[0].0;
        let mut seen: u128 = 0;
        let mut dx: usize = 0;
        while dx < cols
            invariant
                self.wf(),
                rows == self.lines.len(),
                cols == self.rows()[0].len(),
                dx <= cols,
                seen == seen_in_columns(self.rows(), x as int, y as int, dx as int),
                seen <= dx * 0x1_0000_0000_0000_0000,
            decreases cols - dx,
        {
            let mut dy: usize = 0;
            let ghost before = seen;
            while dy < rows
                invariant
                    self.wf(),
                    rows == self.lines.len(),
                    dx < cols,
                    dy <= rows,
                    before <= dx * 0x1_0000_0000_0000_0000,
                    seen == before + seen_in_column(
                        self.rows(),
                        x as int,
                        y as int,
                        dx as int,
                        dy as int,
                    ),
                    seen <= before + dy,
                decreases rows - dy,
            {
                if self.sees(x as i128, y as i128, dx as i128, dy as i128) {
                    seen = seen + 1;
                }
                dy = dy + 1;
            }
            dx = dx + 1;
        }
        if seen <= usize::MAX as u128 {
            seen as usize
        } else {
            usize::MAX
        }
    }
}

/// A place `t` steps of `s` from `x`, where `g` such steps lead to `dx`, is
/// no further from `x` than `dx` is.
proof fn lemma_along_the_way(x: int, dx: int, g: int, s: int, t: int)
    requires
        1 <= t <= g,
        g * s == dx - x,
    ensures
        x <= dx ==> x <= x + t * s <= dx,
        dx <= x ==> dx <= x + t * s <= x,
        x <= dx ==> x <= x + (t - 1) * s <= dx,
        dx <= x ==> dx <= x + (t - 1) * s <= x,
{
    if s >= 0 {
        assert(0 <= t * s <= g * s) by (nonlinear_arith)
            requires
                0 <= t <= g,
                s >= 0,
        ;
        assert(0 <= (t - 1) * s <= g * s) by (nonlinear_arith)
            requires
                1 <= t <= g,
                s >= 0,
        ;
    } else {
        assert(g * s <= t * s <= 0) by (nonlinear_arith)
            requires
                0 <= t <= g,
                s < 0,
        ;
        assert(g * s <= (t - 1) * s <= 0) by (nonlinear_arith)
            requires
                1 <= t <= g,
                s < 0,
        ;
    }
}

/// The place on the map in `input` from which the most asteroids are seen,
/// as the number seen and then the column and the line of the place. Of
/// several such places it is the first, going down column after column.
pub fn q1(input: String, _args: &[String]) -> (r: Result<(usize, (usize, usize)), Failure>)
    ensures
        r matches Ok(found) && ({
            let site = best_site(input@);
            found.0 == site.seen && found.1.0 == site.x && found.1.1 == site.y
        }),
{
    let map = Chart::new(input.as_str());
    let rows = map.lines.len();
    let width = map.chars.len();
    let mut best: (usize, (usize, usize)) = (0, (0, 0));
    let mut x: usize = 0;
    while x < width
        invariant
            map.wf(),
            map.rows() == split(input@, '\n'),
            rows == map.lines.len(),
            width == input@.len(),
            x <= width,
            (Site { seen: best.0, x: best.1.0 as int, y: best.1.1 as int }) == best_in_columns(
                map.rows(),
                x as int,
            ),
        decreases width - x,
    {
        let mut y: usize = 0;
        let ghost before = Site { seen: best.0, x: best.1.0 as int, y: best.1.1 as int };
        while y < rows
            invariant
                map.wf(),
                rows == map.lines.len(),
                x < width,
                y <= rows,
                (Site { seen: best.0, x: best.1.0 as int, y: best.1.1 as int }) == best_in_column(
                    map.rows(),
                    before,
                    x as int,
                    y as int,
                ),
            decreases rows - y,
        {
            if map.rock(x as i128, y as i128) {
                let seen = map.seen_from(x, y);
                if best.0 < seen {
                    best = (seen, (x, y));
                }
            }
            y = y + 1;
        }
        x = x + 1;
    }
    Ok(best)
}

/// Something that the laser at the station can hit.
#[derive(Debug, Clone, Copy, PartialEq, Eq)]
pub struct Target {
    /// A number that stands for the direction from the station: a target
    /// with a lesser number is hit earlier in each turn of the laser.
    pub angle: usize,
    /// A number that stands for the distance from the station: of the
    /// targets in one direction the one with the least number is hit first.
    pub magnitude: i64,
    /// The column.
    pub x: i64,
    /// The line.
    pub y: i64,
}

/// Whether target `i` counts: no later target has the same direction and the
/// same distance.
pub open spec fn counts(targets: Seq<Target>, i: int) -> bool {
    forall|j: int|
        i < j < targets.len() ==> !((#[trigger] targets[j]).angle == targets[i].angle
            && targets[j].magnitude == targets[i].magnitude)
}

/// The number of targets among the first `n` that count, lie in the
/// direction of target `i` and are nearer than it: as many turns of the
/// laser pass before target `i` is hit.
pub open spec fn turns_before(targets: Seq<Target>, i: int, n: int) -> nat
    decreases n,
{
    if n <= 0 {
        0
    } else {
        turns_before(targets, i, n - 1) + if counts(targets, n - 1) && targets[n - 1].angle
            == targets[i].angle && targets[n - 1].magnitude < targets[i].magnitude {
            1nat
        } else {
            0nat
        }
    }
}

/// Whether target `j` is hit before target `i`: in an earlier turn of the
/// laser, or in the same turn and in a direction that comes earlier.
pub open spec fn hit_before(targets: Seq<Target>, j: int, i: int) -> bool {
    let n = targets.len() as int;
    let tj = turns_before(targets, j, n);
    let ti = turns_before(targets, i, n);
    tj < ti || (tj == ti && targets[j].angle < targets[i].angle)
}

/// The number of targets among the first `n` that count and are hit before
/// target `i`.
pub open spec fn hits_before(targets: Seq<Target>, i: int, n: int) -> nat
    decreases n,
{
    if n <= 0 {
        0
    } else {
        hits_before(targets, i, n - 1) + if counts(targets, n - 1) && hit_before(
            targets,
            n - 1,
            i,
        ) {
            1nat
        } else {
            0nat
        }
    }
}

/// The target that is hit as number `nth`, counted from 1, among those from
/// `from` on.
pub open spec fn hit_as(targets: Seq<Target>, nth: int, from: int) -> Option<int>
    decreases targets.len() - from,
{
    if from < 0 || from >= targets.len() {
        None
    } else if counts(targets, from) && hits_before(targets, from, targets.len() as int) == nth
        - 1 {
        Some(from)
    } else {
        hit_as(targets, nth, from + 1)
    }
}

/// The number of the target that the laser hits as the 200th.
pub const BET: usize = 200;

/// 100 times the column plus the line of the target that is hit as number
/// `BET`. The sum wraps round at the ends of the 64-bit range.
pub open spec fn bet(targets: Seq<Target>) -> Result<i64, Cause> {
    match hit_as(targets, BET as int, 0) {
        None => Err(Cause::NoAnswer),
        Some(i) => Ok(targets[i].x.wrapping_mul(100).wrapping_add(targets[i].y)),
    }
}

/// Whether target `i` counts.
fn is_counted(targets: &Vec<Target>, i: usize) -> (r: bool)
    requires
        i < targets.len(),
    ensures
        r == counts(targets@, i as int),
{
    let mut j: usize = i + 1;
    while j < targets.len()
        invariant
            i < j <= targets.len(),
            forall|k: int|
                i < k < j ==> !((#[trigger] targets@[k]).angle == targets@[i as int].angle
                    && targets@[k].magnitude == targets@[i as int].magnitude),
        decreases targets.len() - j,
    {
        if targets[j].angle == targets[i].angle && targets[j].magnitude == targets[i].magnitude {
            return false;
        }
        j = j + 1;
    }
    true
}

/// The target that the laser hits as number `BET`, as 100 times its column
/// plus its line; `Failure::NoAnswer` if there are fewer targets. In each
/// turn the laser hits the nearest target that is left in each direction,
/// the directions in the order of their numbers. Of two targets in one
/// direction and at one distance only the later one in `targets` counts.
pub fn two_hundredth(targets: &Vec<Target>) -> (r: Result<i64, Failure>)
    ensures
        match bet(targets@) {
            Ok(code) => r == Ok::<i64, Failure>(code),
            Err(cause) => r matches Err(e) && e@ == cause,
        },
{
    let n = targets.len();
    let mut counted: Vec<bool> = Vec::new();
    let mut i: usize = 0;
    while i < n
        invariant
            i <= n == targets.len(),
            counted.len() == i,
            forall|k: int| 0 <= k < i ==> counted[k] == counts(targets@, k),
        decreases n - i,
    {
        counted.push(is_counted(targets, i));
        i = i + 1;
    }
    let mut turns: Vec<usize> = Vec::new();
    let mut i: usize = 0;
    while i < n
        invariant
            i <= n == targets.len(),
            counted.len() == n,
            forall|k: int| 0 <= k < n ==> counted[k] == counts(targets@, k),
            turns.len() == i,
            forall|k: int| 0 <= k < i ==> turns[k] == turns_before(targets@, k, n as int),
        decreases n - i,
    {
        let mut count: usize = 0;
        let mut j: usize = 0;
        while j < n
            invariant
                j <= n == targets.len(),
                i < n,
                counted.len() == n,
                forall|k: int| 0 <= k < n ==> counted[k] == counts(targets@, k),
                count == turns_before(targets@, i as int, j as int),
                count <= j,
            decreases n - j,
        {
            if counted[j] && targets[j].angle == targets[i].angle && targets[j].magnitude
                < targets[i].magnitude {
                count = count + 1;
            }
            j = j + 1;
        }
        turns.push(count);
        i = i + 1;
    }
    let mut i: usize = 0;
    while i < n
        invariant
            i <= n == targets.len(),
            counted.len() == n,
            turns.len() == n,
            forall|k: int| 0 <= k < n ==> counted[k] == counts(targets@, k),
            forall|k: int| 0 <= k < n ==> turns[k] == turns_before(targets@, k, n as int),
            hit_as(targets@, BET as int, 0) == hit_as(targets@, BET as int, i as int),
        decreases n - i,
    {
        if counted[i] {
            let mut before: usize = 0;
            let mut j: usize = 0;
            while j < n
                invariant
                    j <= n == targets.len(),
                    i < n,
                    counted.len() == n,
                    turns.len() == n,
                    forall|k: int| 0 <= k < n ==> counted[k] == counts(targets@, k),
                    forall|k: int| 0 <= k < n ==> turns[k] == turns_before(targets@, k, n as int),
                    before == hits_before(targets@, i as int, j as int),
                    before <= j,
                decreases n - j,
            {
                if counted[j] && (turns[j] < turns[i] || (turns[j] == turns[i] && targets[j].angle
                    < targets[i].angle)) {
                    before = before + 1;
                }
                j = j + 1;
            }
            if before == BET - 1 {
                let hit = targets[i];
                return Ok(hit.x.wrapping_mul(100).wrapping_add(hit.y));
            }
        }
        i = i + 1;
    }
    Err(Failure::NoAnswer)
}

} // verus!
