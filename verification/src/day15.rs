//! A repair droid that feels its way through a ship until it knows every
//! place, and what the map says once it is drawn.

use std::collections::VecDeque;
use vstd::prelude::*;

use crate::failure::{Cause, Failure};
use crate::grid::{shift, shifted, Point};
use crate::intcode::cpu::Machine;
use crate::intcode::error::Fault;
use crate::intcode::run::{output_run, until_output, STEP_BUDGET};
use crate::intcode::{Error, Intcode};
use crate::paths::{distances, edges_within, hops};
use crate::text::{chars_of, int_list, same_text};
use crate::tiles::{lookup, put, slot_of, Cell, Tile, Tiles};

verus! {

/// The kind of tile that the droid cannot enter.
pub const WALL: i64 = 0;

/// The kind of tile that the droid can enter.
pub const FLOOR: i64 = 1;

/// The kind of tile that holds the oxygen system.
pub const OXYGEN: i64 = 2;

/// The kind of tile that the droid knows of and has yet to try.
pub const QUEUED: i64 = 3;

/// The step that the command `dir` stands for: 1 is north, 2 south, 3 west
/// and 4 east.
pub open spec fn delta_of(dir: i32) -> Option<Point> {
    if dir == 1 {
        Some((0i32, -1i32))
    } else if dir == 2 {
        Some((0i32, 1i32))
    } else if dir == 3 {
        Some((-1i32, 0i32))
    } else if dir == 4 {
        Some((1i32, 0i32))
    } else {
        None
    }
}

/// The command that undoes the command `dir`.
pub open spec fn reverse_of(dir: i32) -> Option<i32> {
    if dir == 1 {
        Some(2i32)
    } else if dir == 2 {
        Some(1i32)
    } else if dir == 3 {
        Some(4i32)
    } else if dir == 4 {
        Some(3i32)
    } else {
        None
    }
}

/// The step that the command `dir` stands for.
pub fn dir_to_delta(dir: i32) -> (r: Option<(i32, i32)>)
    ensures
        r == delta_of(dir),
{
    if dir == 1 {
        Some((0, -1))
    } else if dir == 2 {
        Some((0, 1))
    } else if dir == 3 {
        Some((-1, 0))
    } else if dir == 4 {
        Some((1, 0))
    } else {
        None
    }
}

/// The command that undoes the command `dir`.
pub fn reverse_dir(dir: i32) -> (r: Option<i32>)
    ensures
        r == reverse_of(dir),
{
    if dir == 1 {
        Some(2)
    } else if dir == 2 {
        Some(1)
    } else if dir == 3 {
        Some(4)
    } else if dir == 4 {
        Some(3)
    } else {
        None
    }
}

/// The place `p` as a place of the map.
pub open spec fn cell(p: Point) -> Cell {
    (p.0 as i64, p.1 as i64)
}

/// The place next to `p` in the direction `dir`, which is one of 1 to 4.
pub open spec fn beside(p: Point, dir: i32) -> Point {
    shifted(p, delta_of(dir).unwrap())
}

/// The droid between two moves.
pub struct Droid {
    /// The machine that runs the droid's program.
    pub machine: Machine,
    /// The commands that wait for the program.
    pub pending: Seq<i64>,
    /// What the droid knows of each place.
    pub room: Seq<Tile>,
    /// Where the droid stands.
    pub pos: Point,
    /// The commands to try, the next one last. Each place to try stands
    /// for two: the command that leads there on top of the one that leads
    /// back.
    pub moves: Seq<i32>,
}

/// The droid after it has looked in the directions from `dir` to 4: each
/// place next to it that it knows nothing of is queued, with the command
/// that leads there and the one that leads back.
pub open spec fn look(droid: Droid, dir: i32) -> Droid
    decreases 5 - dir,
{
    if dir < 1 || dir > 4 {
        droid
    } else {
        let next = cell(beside(droid.pos, dir));
        let seen = if lookup(droid.room, next) is None {
            Droid {
                room: put(droid.room, next, QUEUED),
                moves: droid.moves.push(reverse_of(dir).unwrap()).push(dir),
                ..droid
            }
        } else {
            droid
        };
        look(seen, (dir + 1) as i32)
    }
}

/// One move: the droid looks round, takes the next command, hands it to the
/// program and runs that up to its answer, which says what kind of tile lies
/// that way. At a wall the droid stays and drops the command that would
/// have led back; else it moves. `None` stands for a droid that has no
/// command left. It is a failure if the run fails, if the program halts, if
/// the answer is none of 0, 1 and 2, and if at a wall there is no command
/// to drop.
pub open spec fn advance(droid: Droid) -> Result<Option<Droid>, Cause> {
    let seen = look(droid, 1);
    if seen.moves.len() == 0 {
        Ok(None)
    } else {
        let dir = seen.moves.last();
        let run = output_run(seen.machine, seen.pending.push(dir as i64), STEP_BUDGET as nat);
        match run.outcome {
            Err(fault) => Err(Cause::Machine(fault)),
            Ok(None) => Err(Cause::MissingOutput),
            Ok(Some(kind)) => if kind != WALL && kind != FLOOR && kind != OXYGEN {
                Err(Cause::BadOutput)
            } else {
                let next = beside(seen.pos, dir);
                let room = put(seen.room, cell(next), kind);
                let moves = seen.moves.drop_last();
                if kind == WALL {
                    if moves.len() == 0 {
                        Err(Cause::BadOutput)
                    } else {
                        Ok(
                            Some(
                                Droid {
                                    machine: run.machine,
                                    pending: run.pending,
                                    room,
                                    pos: seen.pos,
                                    moves: moves.drop_last(),
                                },
                            ),
                        )
                    }
                } else {
                    Ok(
                        Some(
                            Droid {
                                machine: run.machine,
                                pending: run.pending,
                                room,
                                pos: next,
                                moves,
                            },
                        ),
                    )
                }
            },
        }
    }
}

/// Whether every command in `moves` is one of 1 to 4.
pub open spec fn all_commands(moves: Seq<i32>) -> bool {
    forall|k: int| 0 <= k < moves.len() ==> 1 <= #[trigger] moves[k] <= 4
}

/// The map once the droid has no command left; a failure if a move fails or
/// `fuel` moves do not get there.
pub open spec fn explore(droid: Droid, fuel: nat) -> Result<Seq<Tile>, Cause>
    decreases fuel,
{
    if fuel == 0 {
        Err(Cause::Machine(Fault::StepLimit))
    } else {
        match advance(droid) {
            Err(cause) => Err(cause),
            Ok(None) => Ok(look(droid, 1).room),
            Ok(Some(next)) => explore(next, (fuel - 1) as nat),
        }
    }
}

/// The map that the droid draws when it runs the program `text`. It starts
/// at `(0, 0)`, which is floor.
pub open spec fn explored(text: Seq<char>) -> Result<Seq<Tile>, Cause> {
    match int_list(text) {
        None => Err(Cause::Machine(Fault::ParseMem)),
        Some(image) => explore(
            Droid {
                machine: Machine::initial(image),
                pending: Seq::empty(),
                room: seq![((0i64, 0i64), FLOOR)],
                pos: (0, 0),
                moves: Seq::empty(),
            },
            STEP_BUDGET as nat,
        ),
    }
}

/// Lets the droid look round.
fn look_round(room: &mut Tiles, moves: &mut Vec<i32>, pos: Point, Ghost(droid): Ghost<Droid>)
    requires
        old(room).wf(),
        droid.room == old(room)@,
        droid.moves == old(moves)@,
        droid.pos == pos,
        all_commands(old(moves)@),
    ensures
        final(room).wf(),
        final(room)@ == look(droid, 1).room,
        final(moves)@ == look(droid, 1).moves,
        look(droid, 1).pos == pos,
        look(droid, 1).machine == droid.machine,
        look(droid, 1).pending == droid.pending,
        all_commands(final(moves)@),
{
    let mut dir: i32 = 1;
    let ghost mut seen = droid;
    while dir <= 4
        invariant
            1 <= dir <= 5,
            room.wf(),
            seen.room == room@,
            seen.moves == moves@,
            seen.pos == pos,
            seen.machine == droid.machine,
            seen.pending == droid.pending,
            all_commands(moves@),
            look(seen, dir) == look(droid, 1),
        decreases 5 - dir,
    {
        let step = match dir_to_delta(dir) {
            Some(step) => step,
            None => (0, 0),
        };
        let next = shift(pos, step);
        if room.get((next.0 as i64, next.1 as i64)).is_none() {
            room.set((next.0 as i64, next.1 as i64), QUEUED);
            let back = match reverse_dir(dir) {
                Some(back) => back,
                None => dir,
            };
            moves.push(back);
            moves.push(dir);
            proof {
                seen = Droid {
                    room: put(seen.room, cell(beside(seen.pos, dir)), QUEUED),
                    moves: seen.moves.push(reverse_of(dir).unwrap()).push(dir),
                    ..seen
                };
            }
        }
        dir = dir + 1;
    }
}

/// Lets the droid feel its way through the ship and gives the map it draws.
pub fn explore_map(input: &str) -> (r: Result<Tiles, Failure>)
    ensures
        match explored(input@) {
            Ok(room) => r matches Ok(map) && map@ == room && map.wf(),
            Err(cause) => r matches Err(e) && e@ == cause,
        },
{
    let mut intcode = match Intcode::new(input) {
        Ok(intcode) => intcode,
        Err(e) => {
            return Err(Failure::Machine(e));
        },
    };
    let mut queue: VecDeque<i64> = VecDeque::new();
    let mut room = Tiles::new();
    room.set((0, 0), FLOOR);
    let mut pos: Point = (0, 0);
    let mut moves: Vec<i32> = Vec::new();
    let mut fuel: u64 = STEP_BUDGET;
    while fuel > 0
        invariant
            room.wf(),
            all_commands(moves@),
            explore(
                Droid { machine: intcode@, pending: queue@, room: room@, pos, moves: moves@ },
                fuel as nat,
            ) == explored(input@),
        decreases fuel,
    {
        let ghost droid = Droid {
            machine: intcode@,
            pending: queue@,
            room: room@,
            pos,
            moves: moves@,
        };
        look_round(&mut room, &mut moves, pos, Ghost(droid));
        let dir = match moves.pop() {
            Some(dir) => dir,
            None => {
                return Ok(room);
            },
        };
        queue.push_back(dir as i64);
        let kind = match until_output(&mut intcode, &mut queue) {
            Err(e) => {
                return Err(Failure::Machine(e));
            },
            Ok(None) => {
                return Err(Failure::MissingOutput);
            },
            Ok(Some(kind)) => kind,
        };
        if kind != WALL && kind != FLOOR && kind != OXYGEN {
            return Err(Failure::BadOutput);
        }
        let step = match dir_to_delta(dir) {
            Some(step) => step,
            None => (0, 0),
        };
        let next = shift(pos, step);
        room.set((next.0 as i64, next.1 as i64), kind);
        if kind == WALL {
            if moves.pop().is_none() {
                return Err(Failure::BadOutput);
            }
        } else {
            pos = next;
        }
        fuel = fuel - 1;
    }
    Err(Failure::Machine(Error::StepLimit))
}

/// The place next to `c` in the direction `dir`, which is one of 1 to 4.
/// Coordinates wrap round at the ends of the 64-bit range.
pub open spec fn next_to(c: Cell, dir: i32) -> Cell {
    let step = delta_of(dir).unwrap();
    (c.0.wrapping_add(step.0 as i64), c.1.wrapping_add(step.1 as i64))
}

/// What joins the tile in slot `s` to the tile next to it in the direction
/// `dir`: an edge between the two if there is such a tile and one can go
/// through both, and else an edge from `s` to itself, which leads nowhere.
pub open spec fn link(room: Seq<Tile>, through: Seq<bool>, s: int, dir: i32) -> (usize, usize) {
    match slot_of(room, next_to(room[s].0, dir), room.len() as int) {
        Some(t) => if through[s] && through[t] {
            (s as usize, t as usize)
        } else {
            (s as usize, s as usize)
        },
        None => (s as usize, s as usize),
    }
}

/// The ways from tile to tile: for each tile four edges, one for each
/// direction.
pub open spec fn links(room: Seq<Tile>, through: Seq<bool>) -> Seq<(usize, usize)> {
    Seq::new(4 * room.len(), |e: int| link(room, through, e / 4, (e % 4 + 1) as i32))
}

/// Whether some tile is still queued.
pub open spec fn unfinished(room: Seq<Tile>) -> bool {
    exists|s: int| 0 <= s < room.len() && (#[trigger] room[s]).1 == QUEUED
}

/// The tiles that the droid can stand on: floor and the oxygen system.
pub open spec fn walkable(room: Seq<Tile>) -> Seq<bool> {
    Seq::new(room.len(), |s: int| room[s].1 == FLOOR || room[s].1 == OXYGEN)
}

/// The tiles that oxygen spreads through from the tile in slot `start`:
/// that tile and floor.
pub open spec fn airy(room: Seq<Tile>, start: int) -> Seq<bool> {
    Seq::new(room.len(), |s: int| room[s].1 == FLOOR || s == start)
}

/// The least number of steps from slot `from` to a tile of the kind `kind`
/// among the first `n` tiles.
pub open spec fn least_to(
    room: Seq<Tile>,
    edges: Seq<(usize, usize)>,
    from: int,
    kind: i64,
    n: int,
) -> Option<usize>
    decreases n,
{
    if n <= 0 {
        None
    } else {
        let before = least_to(room, edges, from, kind, n - 1);
        if room[n - 1].1 != kind {
            before
        } else {
            match (hops(edges, from, n - 1), before) {
                (Some(here), Some(least)) => if here < least {
                    Some(here)
                } else {
                    Some(least)
                },
                (Some(here), None) => Some(here),
                (None, _) => before,
            }
        }
    }
}

/// The greatest number of steps from slot `from` to a tile of the kind
/// `kind` that can be reached, among the first `n` tiles; 0 if there is
/// none.
pub open spec fn most_to(
    room: Seq<Tile>,
    edges: Seq<(usize, usize)>,
    from: int,
    kind: i64,
    n: int,
) -> usize
    decreases n,
{
    if n <= 0 {
        0
    } else {
        let before = most_to(room, edges, from, kind, n - 1);
        if room[n - 1].1 != kind {
            before
        } else {
            match hops(edges, from, n - 1) {
                Some(here) => if here > before {
                    here
                } else {
                    before
                },
                None => before,
            }
        }
    }
}

/// The slot of the first tile of the kind `kind` among those from slot
/// `from` on.
pub open spec fn first_of(room: Seq<Tile>, kind: i64, from: int) -> Option<int>
    decreases room.len() - from,
{
    if from < 0 || from >= room.len() {
        None
    } else if room[from].1 == kind {
        Some(from)
    } else {
        first_of(room, kind, from + 1)
    }
}

/// The number of steps from `(0, 0)` to the nearest oxygen system. It is a
/// failure if a tile is still queued, if the map is too large to number its
/// edges, and if no way leads to an oxygen system.
pub open spec fn way_to_oxygen(room: Seq<Tile>) -> Result<usize, Cause> {
    if unfinished(room) {
        Err(Cause::BadOutput)
    } else if 4 * room.len() > usize::MAX {
        Err(Cause::NoAnswer)
    } else {
        match slot_of(room, (0, 0), room.len() as int) {
            None => Err(Cause::NoAnswer),
            Some(origin) => match least_to(
                room,
                links(room, walkable(room)),
                origin,
                OXYGEN,
                room.len() as int,
            ) {
                Some(steps) => Ok(steps),
                None => Err(Cause::NoAnswer),
            },
        }
    }
}

/// The number of minutes until oxygen, which spreads one step a minute
/// from the first oxygen system on the map, has filled all the floor that it
/// can reach. It is a failure if a tile is still queued, if the map is too
/// large to number its edges, and if there is no oxygen system.
pub open spec fn time_to_fill(room: Seq<Tile>) -> Result<usize, Cause> {
    if unfinished(room) {
        Err(Cause::BadOutput)
    } else if 4 * room.len() > usize::MAX {
        Err(Cause::NoAnswer)
    } else {
        match first_of(room, OXYGEN, 0) {
            None => Err(Cause::NoAnswer),
            Some(start) => Ok(
                most_to(room, links(room, airy(room, start)), start, FLOOR, room.len() as int),
            ),
        }
    }
}

/// Whether some tile is still queued.
fn any_queued(room: &Tiles) -> (r: bool)
    ensures
        r == unfinished(room@),
{
    let mut s: usize = 0;
    while s < room.len()
        invariant
            s <= room@.len(),
            forall|i: int| 0 <= i < s ==> (#[trigger] room@[i]).1 != QUEUED,
        decreases room@.len() - s,
    {
        if room.tile(s).1 == QUEUED {
            return true;
        }
        s = s + 1;
    }
    false
}

/// The ways from tile to tile.
fn ways(room: &Tiles, through: &Vec<bool>) -> (edges: Vec<(usize, usize)>)
    requires
        room.wf(),
        through.len() == room@.len(),
        4 * room@.len() <= usize::MAX,
    ensures
        edges@ == links(room@, through@),
        edges_within(edges@, room@.len() as int),
{
    let n = room.len();
    let mut edges: Vec<(usize, usize)> = Vec::new();
    let mut s: usize = 0;
    while s < n
        invariant
            s <= n == room@.len(),
            room.wf(),
            through.len() == n,
            4 * n <= usize::MAX,
            edges.len() == 4 * s,
            forall|e: int| 0 <= e < 4 * s ==> #[trigger] edges[e] == links(room@, through@)[e],
            forall|e: int| 0 <= e < 4 * s ==> (#[trigger] edges[e]).0 < n && edges[e].1 < n,
        decreases n - s,
    {
        let c = room.tile(s).0;
        let mut dir: i32 = 1;
        while dir <= 4
            invariant
                s < n == room@.len(),
                room.wf(),
                through.len() == n,
                4 * n <= usize::MAX,
                c == room@[s as int].0,
                1 <= dir <= 5,
                edges.len() == 4 * s + (dir - 1),
                forall|e: int|
                    0 <= e < 4 * s + (dir - 1) ==> #[trigger] edges[e] == links(
                        room@,
                        through@,
                    )[e],
                forall|e: int|
                    0 <= e < 4 * s + (dir - 1) ==> (#[trigger] edges[e]).0 < n && edges[e].1 < n,
            decreases 5 - dir,
        {
            let step = match dir_to_delta(dir) {
                Some(step) => step,
                None => (0, 0),
            };
            let next = (c.0.wrapping_add(step.0 as i64), c.1.wrapping_add(step.1 as i64));
            let edge = match room.slot(next) {
                Some(t) => if through[s] && through[t] {
                    (s, t)
                } else {
                    (s, s)
                },
                None => (s, s),
            };
            edges.push(edge);
            dir = dir + 1;
        }
        s = s + 1;
    }
    edges
}

/// The number of steps from `(0, 0)` to the nearest oxygen system on the
/// map.
pub fn shortest_to_oxygen(room: &Tiles) -> (r: Result<usize, Failure>)
    requires
        room.wf(),
    ensures
        match way_to_oxygen(room@) {
            Ok(steps) => r == Ok::<usize, Failure>(steps),
            Err(cause) => r matches Err(e) && e@ == cause,
        },
{
    if any_queued(room) {
        return Err(Failure::BadOutput);
    }
    let n = room.len();
    if n > usize::MAX / 4 {
        return Err(Failure::NoAnswer);
    }
    let origin = match room.slot((0, 0)) {
        Some(origin) => origin,
        None => {
            return Err(Failure::NoAnswer);
        },
    };
    let mut through: Vec<bool> = Vec::new();
    let mut s: usize = 0;
    while s < n
        invariant
            s <= n == room@.len(),
            through.len() == s,
            forall|i: int| 0 <= i < s ==> through[i] == walkable(room@)[i],
        decreases n - s,
    {
        let kind = room.tile(s).1;
        through.push(kind == FLOOR || kind == OXYGEN);
        s = s + 1;
    }
    assert(through@ =~= walkable(room@));
    let edges = ways(room, &through);
    let dist = distances(n, &edges, origin);
    let mut least: Option<usize> = None;
    let mut s: usize = 0;
    while s < n
        invariant
            s <= n == room@.len(),
            dist.len() == n,
            forall|t: int| 0 <= t < n ==> dist[t] == hops(edges@, origin as int, t),
            least == least_to(room@, edges@, origin as int, OXYGEN, s as int),
        decreases n - s,
    {
        if room.tile(s).1 == OXYGEN {
            match dist[s] {
                Some(here) => {
                    least = match least {
                        Some(least) => Some(
                            if here < least {
                                here
                            } else {
                                least
                            },
                        ),
                        None => Some(here),
                    };
                },
                None => {},
            }
        }
        s = s + 1;
    }
    match least {
        Some(steps) => Ok(steps),
        None => Err(Failure::NoAnswer),
    }
}

/// The number of minutes until oxygen has filled all the floor that it can
/// reach from the first oxygen system on the map.
pub fn minutes_to_fill(room: &Tiles) -> (r: Result<usize, Failure>)
    requires
        room.wf(),
    ensures
        match time_to_fill(room@) {
            Ok(minutes) => r == Ok::<usize, Failure>(minutes),
            Err(cause) => r matches Err(e) && e@ == cause,
        },
{
    if any_queued(room) {
        return Err(Failure::BadOutput);
    }
    let n = room.len();
    if n > usize::MAX / 4 {
        return Err(Failure::NoAnswer);
    }
    let mut start: usize = 0;
    while start < n && room.tile(start).1 != OXYGEN
        invariant
            start <= n == room@.len(),
            first_of(room@, OXYGEN, 0) == first_of(room@, OXYGEN, start as int),
        decreases n - start,
    {
        start = start + 1;
    }
    if start == n {
        return Err(Failure::NoAnswer);
    }
    let mut through: Vec<bool> = Vec::new();
    let mut s: usize = 0;
    while s < n
        invariant
            s <= n == room@.len(),
            through.len() == s,
            forall|i: int| 0 <= i < s ==> through[i] == airy(room@, start as int)[i],
        decreases n - s,
    {
        through.push(room.tile(s).1 == FLOOR || s == start);
        s = s + 1;
    }
    assert(through@ =~= airy(room@, start as int));
    let edges = ways(room, &through);
    let dist = distances(n, &edges, start);
    let mut most: usize = 0;
    let mut s: usize = 0;
    while s < n
        invariant
            s <= n == room@.len(),
            dist.len() == n,
            forall|t: int| 0 <= t < n ==> dist[t] == hops(edges@, start as int, t),
            most == most_to(room@, edges@, start as int, FLOOR, s as int),
        decreases n - s,
    {
        if room.tile(s).1 == FLOOR {
            match dist[s] {
                Some(here) => {
                    if here > most {
                        most = here;
                    }
                },
                None => {},
            }
        }
        s = s + 1;
    }
    Ok(most)
}

/// Whether the arguments are in order: there is none, or the first is
/// `vis`, which is taken and changes nothing.
pub open spec fn args_in_order(args: Seq<String>) -> bool {
    args.len() == 0 || args[0]@ == "vis"@
}

/// The number of steps from where the droid starts to the oxygen system, on
/// the map that the droid draws with the program in `input`. It is
/// `Failure::BadArgument` for an argument other than `vis`.
pub fn q1(input: String, args: &[String]) -> (r: Result<usize, Failure>)
    ensures
        !args_in_order(args@) ==> (r matches Err(e) && e@ == Cause::BadArgument),
        args_in_order(args@) ==> match explored(input@) {
            Err(cause) => r matches Err(e) && e@ == cause,
            Ok(room) => match way_to_oxygen(room) {
                Ok(steps) => r == Ok::<usize, Failure>(steps),
                Err(cause) => r matches Err(e) && e@ == cause,
            },
        },
{
    if args.len() > 0 {
        let given = chars_of(args[0].as_str());
        let vis = chars_of("vis");
        if !same_text(&given, &vis) {
            return Err(Failure::BadArgument);
        }
    }
    match explore_map(input.as_str()) {
        Ok(room) => shortest_to_oxygen(&room),
        Err(e) => Err(e),
    }
}

/// The number of minutes until oxygen has filled the ship, on the map that
/// the droid draws with the program in `input`.
pub fn q2(input: String, _args: &[String]) -> (r: Result<usize, Failure>)
    ensures
        match explored(input@) {
            Err(cause) => r matches Err(e) && e@ == cause,
            Ok(room) => match time_to_fill(room) {
                Ok(minutes) => r == Ok::<usize, Failure>(minutes),
                Err(cause) => r matches Err(e) && e@ == cause,
            },
        },
{
    match explore_map(input.as_str()) {
        Ok(room) => minutes_to_fill(&room),
        Err(e) => Err(e),
    }
}

} // verus!
