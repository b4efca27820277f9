use aoc2019::day11::{paint, q1, q2, render};
use aoc2019::failure::Failure;
use aoc2019::tiles::Tiles;

// Paints white, turns with 0, and does so twice; then paints black, turns
// with 1, and halts. It never reads what the robot sees.
const THREE_ROUNDS: &str = "104,1,104,0,104,1,104,0,104,0,104,1,99";

#[test]
fn panels_painted_or_stood_on() {
    // (0, 0), (1, 0) and (1, -1) are painted; the robot ends on (2, -1),
    // which it never paints.
    let panels = paint(THREE_ROUNDS, 0).unwrap();
    let mut tiles = Vec::new();
    for i in 0..panels.len() {
        tiles.push(panels.tile(i));
    }
    assert_eq!(tiles, vec![((0, 0), 1), ((1, 0), 1), ((1, -1), 0), ((2, -1), 0)]);
    assert_eq!(q1(THREE_ROUNDS.to_string(), &[]).unwrap(), 4);
}

#[test]
fn a_program_that_halts_at_once_paints_nothing() {
    assert_eq!(q1("99".to_string(), &[]).unwrap(), 0);
    assert_eq!(q2("99".to_string(), &[]), Err(Failure::NoAnswer));
}

#[test]
fn the_robot_is_told_what_it_stands_on() {
    // Twice the program reads the colour under the robot and paints the
    // panel in that colour, turning with 0; then it halts.
    let program = "3,100,4,100,104,0,3,100,4,100,104,0,99";
    let panels = paint(program, 1).unwrap();
    assert_eq!(panels.len(), 3);
    assert_eq!(panels.tile(0), ((0, 0), 1));
    assert_eq!(panels.tile(1), ((1, 0), 0));
    assert_eq!(panels.tile(2), ((1, -1), 0));
}

#[test]
fn failures_of_the_painting_program() {
    // Names a colour and halts.
    assert_eq!(q1("104,1,99".to_string(), &[]), Err(Failure::MissingOutput));
    // Names a turn that is none.
    assert_eq!(q1("104,1,104,2,99".to_string(), &[]), Err(Failure::BadOutput));
    assert!(matches!(q1("104,x".to_string(), &[]), Err(Failure::Machine(_))));
}

#[test]
fn picture_of_the_panels() {
    let mut panels = Tiles::new();
    panels.set((0, 0), 1);
    panels.set((1, 2), 1);
    panels.set((0, 1), 0);
    assert_eq!(render(&panels).unwrap(), "X..\n..X\n");
    panels.set((-1, 0), 5);
    assert_eq!(render(&panels), Err(Failure::BadOutput));
    assert_eq!(render(&Tiles::new()), Err(Failure::NoAnswer));
    // One line for each x: (0, 0), (1, 0), (1, -1) and (2, -1), the first two white.
    assert_eq!(q2(THREE_ROUNDS.to_string(), &[]).unwrap(), ".X\n.X\n..\n");
}
