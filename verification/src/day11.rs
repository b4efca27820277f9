//! A robot that paints the panels of a hull as a program tells it to.

use std::collections::VecDeque;
use vstd::prelude::*;

use crate::failure::{Cause, Failure};
use crate::grid::{shift, shifted, Point};
use crate::intcode::cpu::Machine;
use crate::intcode::error::Fault;
use crate::intcode::run::{output_run, until_output, STEP_BUDGET};
use crate::intcode::{Error, Intcode};
use crate::text::{int_list, push_char};
use crate::tiles::{lookup_or_zero, put, touch, Cell, Tile, Tiles};

verus! {

/// The robot between two rounds.
pub struct Robot {
    /// The machine that runs the program.
    pub machine: Machine,
    /// The inputs that wait for the program: the colours that the robot saw.
    pub pending: Seq<i64>,
    /// The colour of each panel that the robot painted or stood on.
    pub panels: Seq<Tile>,
    /// Where the robot stands.
    pub pos: Point,
    /// The step that the robot takes when it moves.
    pub delta: Point,
}

/// The step after a turn: `rot` 0 takes `(0, 1)` to `(1, 0)`, that to
/// `(0, -1)`, that to `(-1, 0)` and that to `(0, 1)`; `rot` 1 turns the
/// other way round.
pub open spec fn turned(delta: Point, rot: i64) -> Point {
    if rot == 0 {
        if delta == (0i32, 1i32) {
            (1i32, 0i32)
        } else if delta == (1i32, 0i32) {
            (0i32, -1i32)
        } else if delta == (0i32, -1i32) {
            (-1i32, 0i32)
        } else {
            (0i32, 1i32)
        }
    } else {
        if delta == (0i32, 1i32) {
            (-1i32, 0i32)
        } else if delta == (1i32, 0i32) {
            (0i32, 1i32)
        } else if delta == (0i32, -1i32) {
            (1i32, 0i32)
        } else {
            (0i32, -1i32)
        }
    }
}

/// The place `p` as a place of the grid of panels.
pub open spec fn cell(p: Point) -> Cell {
    (p.0 as i64, p.1 as i64)
}

/// One round: the program runs up to its next output, which is a colour,
/// and again, which is a turn. The robot paints the panel under it, turns,
/// moves one step and hands the program the colour of the panel that it now
/// stands on, black where it has not been. `None` stands for a program that
/// has halted in place of naming a colour. It is a failure if a run fails,
/// if the program halts in place of naming a turn, and if the turn is
/// neither 0 nor 1.
pub open spec fn round(robot: Robot) -> Result<Option<Robot>, Cause> {
    let first = output_run(robot.machine, robot.pending, STEP_BUDGET as nat);
    match first.outcome {
        Err(fault) => Err(Cause::Machine(fault)),
        Ok(None) => Ok(None),
        Ok(Some(colour)) => {
            let second = output_run(first.machine, first.pending, STEP_BUDGET as nat);
            match second.outcome {
                Err(fault) => Err(Cause::Machine(fault)),
                Ok(None) => Err(Cause::MissingOutput),
                Ok(Some(rot)) => if rot != 0 && rot != 1 {
                    Err(Cause::BadOutput)
                } else {
                    let delta = turned(robot.delta, rot);
                    let pos = shifted(robot.pos, delta);
                    let painted = put(robot.panels, cell(robot.pos), colour);
                    Ok(
                        Some(
                            Robot {
                                machine: second.machine,
                                pending: second.pending.push(lookup_or_zero(painted, cell(pos))),
                                panels: touch(painted, cell(pos)),
                                pos,
                                delta,
                            },
                        ),
                    )
                },
            }
        },
    }
}

/// The panels once the program has halted; a failure if a round fails or
/// `fuel` rounds do not get there.
pub open spec fn painting(robot: Robot, fuel: nat) -> Result<Seq<Tile>, Cause>
    decreases fuel,
{
    if fuel == 0 {
        Err(Cause::Machine(Fault::StepLimit))
    } else {
        match round(robot) {
            Err(cause) => Err(cause),
            Ok(None) => Ok(robot.panels),
            Ok(Some(next)) => painting(next, (fuel - 1) as nat),
        }
    }
}

/// The panels that the robot leaves when it runs the program `text` and
/// starts on a panel of the colour `first`.
pub open spec fn painted(text: Seq<char>, first: i64) -> Result<Seq<Tile>, Cause> {
    match int_list(text) {
        None => Err(Cause::Machine(Fault::ParseMem)),
        Some(image) => painting(
            Robot {
                machine: Machine::initial(image),
                pending: seq![first],
                panels: Seq::empty(),
                pos: (0, 0),
                delta: (0, 1),
            },
            STEP_BUDGET as nat,
        ),
    }
}

/// The step after a turn.
fn turn(delta: Point, rot: i64) -> (next: Point)
    ensures
        next == turned(delta, rot),
{
    if rot == 0 {
        if delta.0 == 0 && delta.1 == 1 {
            (1, 0)
        } else if delta.0 == 1 && delta.1 == 0 {
            (0, -1)
        } else if delta.0 == 0 && delta.1 == -1 {
            (-1, 0)
        } else {
            (0, 1)
        }
    } else {
        if delta.0 == 0 && delta.1 == 1 {
            (-1, 0)
        } else if delta.0 == 1 && delta.1 == 0 {
            (0, 1)
        } else if delta.0 == 0 && delta.1 == -1 {
            (1, 0)
        } else {
            (0, -1)
        }
    }
}

/// Lets the robot run the program in `input`, starting on a panel of the
/// colour `first`, and gives the panels that it leaves.
pub fn paint(input: &str, first: i64) -> (r: Result<Tiles, Failure>)
    ensures
        match painted(input@, first) {
            Ok(panels) => r matches Ok(grid) && grid@ == panels && grid.wf(),
            Err(cause) => r matches Err(e) && e@ == cause,
        },
{
    let mut intcode = match Intcode::new(input) {
        Ok(intcode) => intcode,
        Err(e) => {
            return Err(Failure::Machine(e));
        },
    };
    let mut queue: VecDeque<i64> = VecDeque::new();
    queue.push_back(first);
    let mut panels = Tiles::new();
    let mut pos: Point = (0, 0);
    let mut delta: Point = (0, 1);
    let mut fuel: u64 = STEP_BUDGET;
    while fuel > 0
        invariant
            panels.wf(),
            painting(
                Robot { machine: intcode@, pending: queue@, panels: panels@, pos, delta },
                fuel as nat,
            ) == painted(input@, first),
        decreases fuel,
    {
        let colour = match until_output(&mut intcode, &mut queue) {
            Err(e) => {
                return Err(Failure::Machine(e));
            },
            Ok(None) => {
                return Ok(panels);
            },
            Ok(Some(colour)) => colour,
        };
        let rot = match until_output(&mut intcode, &mut queue) {
            Err(e) => {
                return Err(Failure::Machine(e));
            },
            Ok(None) => {
                return Err(Failure::MissingOutput);
            },
            Ok(Some(rot)) => rot,
        };
        if rot != 0 && rot != 1 {
            return Err(Failure::BadOutput);
        }
        panels.set((pos.0 as i64, pos.1 as i64), colour);
        delta = turn(delta, rot);
        pos = shift(pos, delta);
        let under = panels.get_or_zero((pos.0 as i64, pos.1 as i64));
        queue.push_back(under);
        fuel = fuel - 1;
    }
    Err(Failure::Machine(Error::StepLimit))
}

/// The number of panels that the robot painted or stood on when it started
/// on a black panel.
pub fn q1(input: String, _args: &[String]) -> (r: Result<usize, Failure>)
    ensures
        match painted(input@, 0) {
            Ok(panels) => r == Ok::<usize, Failure>(panels.len() as usize),
            Err(cause) => r matches Err(e) && e@ == cause,
        },
{
    match paint(input.as_str(), 0) {
        Ok(panels) => Ok(panels.len()),
        Err(e) => Err(e),
    }
}

/// The least `x`, or the least `y` if `along_y` says so, among the places
/// of the first `n` tiles.
pub open spec fn least(tiles: Seq<Tile>, along_y: bool, n: int) -> i64
    decreases n,
{
    let here = if along_y {
        tiles[n - 1].0.1
    } else {
        tiles[n - 1].0.0
    };
    if n <= 1 {
        here
    } else if here < least(tiles, along_y, n - 1) {
        here
    } else {
        least(tiles, along_y, n - 1)
    }
}

/// The greatest `x`, or the greatest `y` if `along_y` says so, among the
/// places of the first `n` tiles.
pub open spec fn greatest(tiles: Seq<Tile>, along_y: bool, n: int) -> i64
    decreases n,
{
    let here = if along_y {
        tiles[n - 1].0.1
    } else {
        tiles[n - 1].0.0
    };
    if n <= 1 {
        here
    } else if here > greatest(tiles, along_y, n - 1) {
        here
    } else {
        greatest(tiles, along_y, n - 1)
    }
}

/// Whether every panel is black, which is 0, or white, which is 1.
pub open spec fn plain(tiles: Seq<Tile>) -> bool {
    forall|i: int| 0 <= i < tiles.len() ==> (#[trigger] tiles[i]).1 == 0 || tiles[i].1 == 1
}

/// How a panel is drawn: white as `X`, black as a dot.
pub open spec fn glyph(colour: i64) -> char {
    if colour == 1 {
        'X'
    } else {
        '.'
    }
}

/// The glyphs of the `n` panels at `x` from `y0` on.
pub open spec fn line(tiles: Seq<Tile>, x: int, y0: int, n: int) -> Seq<char>
    decreases n,
{
    if n <= 0 {
        Seq::empty()
    } else {
        line(tiles, x, y0, n - 1).push(
            glyph(lookup_or_zero(tiles, (x as i64, (y0 + n - 1) as i64))),
        )
    }
}

/// The lines for the `m` values of `x` from `x0` on, each with a line feed
/// after it.
pub open spec fn lines(tiles: Seq<Tile>, x0: int, m: int, y0: int, n: int) -> Seq<char>
    decreases m,
{
    if m <= 0 {
        Seq::empty()
    } else {
        lines(tiles, x0, m - 1, y0, n) + line(tiles, x0 + m - 1, y0, n).push('\n')
    }
}

/// The picture of the panels: one line for each `x` from the least to the
/// greatest, and in each line one glyph for each `y` from the least to the
/// greatest. It is a failure if there is no panel at all, and if a panel
/// is neither black nor white.
pub open spec fn picture(tiles: Seq<Tile>) -> Result<Seq<char>, Cause> {
    let n = tiles.len() as int;
    if n == 0 {
        Err(Cause::NoAnswer)
    } else if !plain(tiles) {
        Err(Cause::BadOutput)
    } else {
        Ok(
            lines(
                tiles,
                least(tiles, false, n) as int,
                greatest(tiles, false, n) - least(tiles, false, n) + 1,
                least(tiles, true, n) as int,
                greatest(tiles, true, n) - least(tiles, true, n) + 1,
            ),
        )
    }
}

/// Draws the panels.
pub fn render(panels: &Tiles) -> (r: Result<String, Failure>)
    requires
        panels.wf(),
    ensures
        match picture(panels@) {
            Ok(text) => r matches Ok(drawn) && drawn@ == text,
            Err(cause) => r matches Err(e) && e@ == cause,
        },
{
    let n = panels.len();
    if n == 0 {
        return Err(Failure::NoAnswer);
    }
    let first = panels.tile(0);
    let mut min_x = first.0.0;
    let mut max_x = first.0.0;
    let mut min_y = first.0.1;
    let mut max_y = first.0.1;
    if first.1 != 0 && first.1 != 1 {
        return Err(Failure::BadOutput);
    }
    let mut k: usize = 1;
    while k < n
        invariant
            1 <= k <= n == panels@.len(),
            min_x == least(panels@, false, k as int),
            max_x == greatest(panels@, false, k as int),
            min_y == least(panels@, true, k as int),
            max_y == greatest(panels@, true, k as int),
            min_x <= max_x,
            min_y <= max_y,
            forall|i: int| 0 <= i < k ==> (#[trigger] panels@[i]).1 == 0 || panels@[i].1 == 1,
        decreases n - k,
    {
        let tile = panels.tile(k);
        if tile.1 != 0 && tile.1 != 1 {
            return Err(Failure::BadOutput);
        }
        if tile.0.0 < min_x {
            min_x = tile.0.0;
        }
        if tile.0.0 > max_x {
            max_x = tile.0.0;
        }
        if tile.0.1 < min_y {
            min_y = tile.0.1;
        }
        if tile.0.1 > max_y {
            max_y = tile.0.1;
        }
        k = k + 1;
    }
    let mut text = String::new();
    let mut x: i128 = min_x as i128;
    while x <= max_x as i128
        invariant
            panels.wf(),
            min_x <= x <= max_x + 1,
            min_y <= max_y,
            text@ == lines(
                panels@,
                min_x as int,
                x - min_x,
                min_y as int,
                max_y - min_y + 1,
            ),
        decreases max_x + 1 - x,
    {
        let ghost before = text@;
        let mut y: i128 = min_y as i128;
        while y <= max_y as i128
            invariant
                panels.wf(),
                min_x <= x <= max_x,
                min_y <= y <= max_y + 1,
                text@ == before + line(panels@, x as int, min_y as int, y - min_y),
            decreases max_y + 1 - y,
        {
            let colour = match panels.get((x as i64, y as i64)) {
                Some(colour) => colour,
                None => 0,
            };
            push_char(
                &mut text,
                if colour == 1 {
                    'X'
                } else {
                    '.'
                },
            );
            y = y + 1;
        }
        push_char(&mut text, '\n');
        x = x + 1;
    }
    Ok(text)
}

/// The picture that the robot paints when it starts on a white panel.
pub fn q2(input: String, _args: &[String]) -> (r: Result<String, Failure>)
    ensures
        match painted(input@, 1) {
            Err(cause) => r matches Err(e) && e@ == cause,
            Ok(panels) => match picture(panels) {
                Ok(text) => r matches Ok(drawn) && drawn@ == text,
                Err(cause) => r matches Err(e) && e@ == cause,
            },
        },
{
    match paint(input.as_str(), 1) {
        Ok(panels) => render(&panels),
        Err(e) => Err(e),
    }
}

} // verus!
