//! An arcade cabinet: a program that draws tiles, and a player that keeps
//! the paddle under the ball.

use std::collections::VecDeque;
use vstd::prelude::*;

use crate::failure::{Cause, Failure};
use crate::intcode::cpu::Machine;
use crate::intcode::error::Fault;
use crate::intcode::run::{output_run, until_output, STEP_BUDGET};
use crate::intcode::{Error, Intcode};
use crate::text::{chars_of, int_list, parse_u64, parse_u64_in};
use crate::tiles::{put, Tile, Tiles};

verus! {

/// The kind of tile that is a block.
pub const BLOCK: i64 = 2;

/// The kind of tile that is the paddle.
pub const PADDLE: i64 = 3;

/// The kind of tile that is the ball.
pub const BALL: i64 = 4;

/// The game between two rounds.
pub struct Game {
    /// The machine that runs the program.
    pub machine: Machine,
    /// The kind of each tile that was drawn.
    pub tiles: Seq<Tile>,
    /// The score that was shown last.
    pub score: i64,
    /// Where the ball was drawn last.
    pub ball_x: i64,
    /// Where the paddle was drawn last.
    pub paddle_x: i64,
}

/// The way the joystick is held: towards the ball, as seen from the paddle.
pub open spec fn joystick(ball_x: i64, paddle_x: i64) -> i64 {
    if ball_x < paddle_x {
        -1i64
    } else if ball_x > paddle_x {
        1i64
    } else {
        0i64
    }
}

/// One round: the joystick is set, and the program runs up to its next
/// three outputs, which are `x`, `y` and a kind of tile. At `x` -1 and `y` 0
/// the third is the score; anywhere else the tile is drawn, and the player
/// takes note of where the paddle and the ball are. `None` stands for a
/// program that has halted in place of giving `x`. It is a failure if a run
/// fails, if the program halts before the third output, and if it draws a
/// tile of a kind that is none of 0 to 4.
pub open spec fn round(game: Game) -> Result<Option<Game>, Cause> {
    let first = output_run(
        game.machine,
        seq![joystick(game.ball_x, game.paddle_x)],
        STEP_BUDGET as nat,
    );
    match first.outcome {
        Err(fault) => Err(Cause::Machine(fault)),
        Ok(None) => Ok(None),
        Ok(Some(x)) => {
            let second = output_run(first.machine, first.pending, STEP_BUDGET as nat);
            match second.outcome {
                Err(fault) => Err(Cause::Machine(fault)),
                Ok(None) => Err(Cause::MissingOutput),
                Ok(Some(y)) => {
                    let third = output_run(second.machine, second.pending, STEP_BUDGET as nat);
                    match third.outcome {
                        Err(fault) => Err(Cause::Machine(fault)),
                        Ok(None) => Err(Cause::MissingOutput),
                        Ok(Some(kind)) => if x == -1 && y == 0 {
                            Ok(Some(Game { machine: third.machine, score: kind, ..game }))
                        } else if kind < 0 || kind > 4 {
                            Err(Cause::BadOutput)
                        } else {
                            Ok(
                                Some(
                                    Game {
                                        machine: third.machine,
                                        tiles: put(game.tiles, (x, y), kind),
                                        score: game.score,
                                        ball_x: if kind == BALL {
                                            x
                                        } else {
                                            game.ball_x
                                        },
                                        paddle_x: if kind == PADDLE {
                                            x
                                        } else {
                                            game.paddle_x
                                        },
                                    },
                                ),
                            )
                        },
                    }
                },
            }
        },
    }
}

/// The game once the program has halted; a failure if a round fails or
/// `fuel` rounds do not get there.
pub open spec fn play(game: Game, fuel: nat) -> Result<Game, Cause>
    decreases fuel,
{
    if fuel == 0 {
        Err(Cause::Machine(Fault::StepLimit))
    } else {
        match round(game) {
            Err(cause) => Err(cause),
            Ok(None) => Ok(game),
            Ok(Some(next)) => play(next, (fuel - 1) as nat),
        }
    }
}

/// The game that the machine `machine` plays from its first round to its
/// end.
pub open spec fn game_of(machine: Machine) -> Result<Game, Cause> {
    play(
        Game { machine, tiles: Seq::empty(), score: 0, ball_x: 0, paddle_x: 0 },
        STEP_BUDGET as nat,
    )
}

/// The number of tiles of the kind `kind` among the first `n`.
pub open spec fn tally(tiles: Seq<Tile>, kind: i64, n: int) -> nat
    decreases n,
{
    if n <= 0 {
        0
    } else {
        tally(tiles, kind, n - 1) + if tiles[n - 1].1 == kind {
            1nat
        } else {
            0nat
        }
    }
}

/// What is left of a game when it is over.
pub struct GameState {
    /// The kind of each tile that was drawn.
    pub tiles: Tiles,
    /// The score that was shown last.
    pub score: i64,
}

/// Plays the game that the machine holds until the program halts.
pub fn run_game(intcode: &mut Intcode) -> (r: Result<GameState, Failure>)
    ensures
        match game_of(old(intcode)@) {
            Ok(game) => r matches Ok(state) && state.tiles@ == game.tiles && state.tiles.wf()
                && state.score == game.score,
            Err(cause) => r matches Err(e) && e@ == cause,
        },
{
    let mut queue: VecDeque<i64> = VecDeque::new();
    let mut tiles = Tiles::new();
    let mut score: i64 = 0;
    let mut ball_x: i64 = 0;
    let mut paddle_x: i64 = 0;
    let mut fuel: u64 = STEP_BUDGET;
    while fuel > 0
        invariant
            tiles.wf(),
            play(Game { machine: intcode@, tiles: tiles@, score, ball_x, paddle_x }, fuel as nat)
                == game_of(old(intcode)@),
        decreases fuel,
    {
        let cmd: i64 = if ball_x < paddle_x {
            -1
        } else if ball_x > paddle_x {
            1
        } else {
            0
        };
        queue.clear();
        queue.push_back(cmd);
        let x = match until_output(intcode, &mut queue) {
            Err(e) => {
                return Err(Failure::Machine(e));
            },
            Ok(None) => {
                return Ok(GameState { tiles, score });
            },
            Ok(Some(x)) => x,
        };
        let y = match until_output(intcode, &mut queue) {
            Err(e) => {
                return Err(Failure::Machine(e));
            },
            Ok(None) => {
                return Err(Failure::MissingOutput);
            },
            Ok(Some(y)) => y,
        };
        let kind = match until_output(intcode, &mut queue) {
            Err(e) => {
                return Err(Failure::Machine(e));
            },
            Ok(None) => {
                return Err(Failure::MissingOutput);
            },
            Ok(Some(kind)) => kind,
        };
        if x == -1 && y == 0 {
            score = kind;
        } else {
            if kind < 0 || kind > 4 {
                return Err(Failure::BadOutput);
            }
            tiles.set((x, y), kind);
            if kind == PADDLE {
                paddle_x = x;
            } else if kind == BALL {
                ball_x = x;
            }
        }
        fuel = fuel - 1;
    }
    Err(Failure::Machine(Error::StepLimit))
}

/// The number of block tiles on the screen when the game in `input` is
/// over.
pub fn q1(input: String, _args: &[String]) -> (r: Result<usize, Failure>)
    ensures
        match int_list(input@) {
            None => r matches Err(e) && e@ == Cause::Machine(Fault::ParseMem),
            Some(image) => match game_of(Machine::initial(image)) {
                Ok(game) => r == Ok::<usize, Failure>(
                    tally(game.tiles, BLOCK, game.tiles.len() as int) as usize,
                ),
                Err(cause) => r matches Err(e) && e@ == cause,
            },
        },
{
    let mut intcode = match Intcode::new(input.as_str()) {
        Ok(intcode) => intcode,
        Err(e) => {
            return Err(Failure::Machine(e));
        },
    };
    let state = match run_game(&mut intcode) {
        Ok(state) => state,
        Err(e) => {
            return Err(e);
        },
    };
    let mut blocks: usize = 0;
    let mut k: usize = 0;
    while k < state.tiles.len()
        invariant
            k <= state.tiles@.len(),
            blocks == tally(state.tiles@, BLOCK, k as int),
            blocks <= k,
        decreases state.tiles@.len() - k,
    {
        if state.tiles.tile(k).1 == BLOCK {
            blocks = blocks + 1;
        }
        k = k + 1;
    }
    Ok(blocks)
}

/// Whether the arguments are in order: there is none, or the first is a
/// number that fits in 64 bits, the milliseconds to wait between rounds,
/// of which the library does not wait any.
pub open spec fn delay_in_order(args: Seq<String>) -> bool {
    args.len() == 0 || parse_u64(args[0]@) is Some
}

/// The score when the game in `input` is over, played with 2 at address 0,
/// which stands for coins put in. It is `Failure::BadArgument` if the first
/// argument is no number.
pub fn q2(input: String, args: &[String]) -> (r: Result<i64, Failure>)
    ensures
        !delay_in_order(args@) ==> (r matches Err(e) && e@ == Cause::BadArgument),
        delay_in_order(args@) ==> match int_list(input@) {
            None => r matches Err(e) && e@ == Cause::Machine(Fault::ParseMem),
            Some(image) => match game_of(Machine::initial(image).store(0, 2)) {
                Ok(game) => r == Ok::<i64, Failure>(game.score),
                Err(cause) => r matches Err(e) && e@ == cause,
            },
        },
{
    if args.len() > 0 {
        let digits = chars_of(args[0].as_str());
        assert(digits@.subrange(0, digits.len() as int) =~= args@[0]@);
        if parse_u64_in(&digits, 0, digits.len()).is_none() {
            return Err(Failure::BadArgument);
        }
    }
    let mut intcode = match Intcode::new(input.as_str()) {
        Ok(intcode) => intcode,
        Err(e) => {
            return Err(Failure::Machine(e));
        },
    };
    intcode.mem().write(0, 2);
    match run_game(&mut intcode) {
        Ok(state) => Ok(state.score),
        Err(e) => Err(e),
    }
}

} // verus!
