use aoc2019::day13::{q1, q2, run_game};
use aoc2019::failure::Failure;
use aoc2019::intcode::Intcode;

#[test]
fn blocks_are_counted_once_for_each_place() {
    // Draws a block at (1, 2), a block at (3, 4), a wall over the first block,
    // a block at (5, 6), and shows the score 77.
    let program = "104,1,104,2,104,2,104,3,104,4,104,2,104,1,104,2,104,1,\
                   104,5,104,6,104,2,104,-1,104,0,104,77,99";
    assert_eq!(q1(program.to_string(), &[]).unwrap(), 2);
    let mut cpu = Intcode::new(program).unwrap();
    let state = run_game(&mut cpu).unwrap();
    assert_eq!(state.score, 77);
    assert_eq!(state.tiles.len(), 3);
    assert_eq!(state.tiles.get((1, 2)), Some(1));
    assert_eq!(state.tiles.get((3, 4)), Some(2));
    assert_eq!(state.tiles.get((5, 6)), Some(2));
}

#[test]
fn the_joystick_follows_the_ball() {
    // Draws the paddle at x 5 and the ball at x 9, then reads the joystick
    // and shows it as the score.
    let program = "104,5,104,0,104,3,104,9,104,0,104,4,3,100,104,-1,104,0,4,100,99";
    let mut cpu = Intcode::new(program).unwrap();
    assert_eq!(run_game(&mut cpu).unwrap().score, 1);
    // The ball to the left of the paddle.
    let program = "104,5,104,0,104,3,104,2,104,0,104,4,3,100,104,-1,104,0,4,100,99";
    let mut cpu = Intcode::new(program).unwrap();
    assert_eq!(run_game(&mut cpu).unwrap().score, -1);
    // The ball above the paddle.
    let program = "104,5,104,0,104,3,104,5,104,1,104,4,3,100,104,-1,104,0,4,100,99";
    let mut cpu = Intcode::new(program).unwrap();
    assert_eq!(run_game(&mut cpu).unwrap().score, 0);
}

#[test]
fn coins_are_put_in_before_the_game() {
    // With 2 at address 0 the first instruction multiplies cell 0 by itself
    // into cell 20, which is then shown as the score.
    let program = "0,0,0,20,104,-1,104,0,4,20,99";
    assert_eq!(q2(program.to_string(), &[]).unwrap(), 4);
    assert_eq!(q2(program.to_string(), &["5".to_string()]).unwrap(), 4);
    assert_eq!(q2(program.to_string(), &["soon".to_string()]), Err(Failure::BadArgument));
    assert!(matches!(q1(program.to_string(), &[]), Err(Failure::Machine(_))));
}

#[test]
fn failures_of_the_game_program() {
    assert_eq!(q1("104,1,99".to_string(), &[]), Err(Failure::MissingOutput));
    assert_eq!(q1("104,1,104,1,99".to_string(), &[]), Err(Failure::MissingOutput));
    assert_eq!(q1("104,1,104,1,104,5,99".to_string(), &[]), Err(Failure::BadOutput));
    assert_eq!(q1("104,1,104,1,104,-1,99".to_string(), &[]), Err(Failure::BadOutput));
    // As a score any value will do.
    assert_eq!(q1("104,-1,104,0,104,5,99".to_string(), &[]).unwrap(), 0);
    assert_eq!(q1("99".to_string(), &[]).unwrap(), 0);
}
