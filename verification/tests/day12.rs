use aoc2019::day12::{iter_moons, iter_moons_by_component, moons, q1, q2};
use aoc2019::failure::Failure;

const E1: &str = "
<x=-1, y=0, z=2>
<x=2, y=-10, z=-7>
<x=4, y=-8, z=8>
<x=3, y=5, z=-1>";

const E2: &str = "
<x=-8, y=-10, z=0>
<x=5, y=5, z=10>
<x=2, y=-7, z=3>
<x=9, y=-8, z=-3>";

#[test]
fn day12_q1_e1() {
    let input = E1.trim();
    let output = q1(input.to_string(), &["10".to_string()]);
    assert_eq!(output.unwrap(), 179);
}

#[test]
fn day12_q1_e2() {
    let input = E2.trim();
    let output = q1(input.to_string(), &["100".to_string()]);
    assert_eq!(output.unwrap(), 1940);
}

#[test]
fn moons_are_read_line_by_line() {
    assert_eq!(
        moons(E1.trim()),
        Some(vec![vec![-1, 0, 2], vec![2, -10, -7], vec![4, -8, 8], vec![3, 5, -1]])
    );
    assert_eq!(moons("<x=1, y=2>"), None);
    assert_eq!(moons("<x=1, y=2, z=q>"), None);
    assert_eq!(moons("<x=1, y=2, z=3>\n"), None);
    assert_eq!(moons("1,2,3,4"), Some(vec![vec![1, 2, 3, 4]]));
    assert_eq!(moons("<x=1, y=2, z=2147483648>"), None);
}

#[test]
fn one_step_pulls_then_moves() {
    let mut pos = moons(E1.trim()).unwrap();
    let mut vel = vec![vec![0, 0, 0]; 4];
    let pairs = vec![(0, 1), (0, 2), (0, 3), (1, 2), (1, 3), (2, 3)];
    iter_moons(&mut pos, &mut vel, &pairs);
    assert_eq!(vel, vec![vec![3, -1, -1], vec![1, 3, 3], vec![-3, 1, -3], vec![-1, -3, 1]]);
    assert_eq!(pos, vec![vec![2, -1, 1], vec![3, -7, -4], vec![1, -7, 5], vec![2, 2, 0]]);
}

#[test]
fn one_coordinate_with_one_pair() {
    let mut pos = vec![vec![5, 0, 0], vec![1, 0, 0], vec![3, 0, 0]];
    let mut vel = vec![vec![0, 0, 0]; 3];
    iter_moons_by_component(&mut pos, &mut vel, 0, &vec![(0, 1)]);
    assert_eq!(vel, vec![vec![-1, 0, 0], vec![1, 0, 0], vec![0, 0, 0]]);
    assert_eq!(pos, vec![vec![4, 0, 0], vec![2, 0, 0], vec![3, 0, 0]]);
}

#[test]
fn steps_and_failures() {
    // At rest and alone, a moon has no energy.
    assert_eq!(q1("<x=1, y=2, z=3>".to_string(), &[]).unwrap(), 0);
    assert_eq!(q1(E1.trim().to_string(), &["0".to_string()]).unwrap(), 0);
    assert_eq!(q1(E1.trim().to_string(), &["1".to_string()]).unwrap(), 229);
    assert_eq!(q1(E1.trim().to_string(), &["ten".to_string()]), Err(Failure::BadArgument));
    assert_eq!(q1("<x=1, y=2>".to_string(), &[]), Err(Failure::BadInput));
}

#[test]
fn day12_q2_e1() {
    let input = E1.trim();
    let output = q2(input.to_string(), &[]);
    assert_eq!(output.unwrap(), 2772);
}

#[test]
fn day12_q2_e2() {
    let input = E2.trim();
    let output = q2(input.to_string(), &[]);
    assert_eq!(output.unwrap(), 4686774924);
}

#[test]
fn moons_that_never_move_repeat_at_once() {
    // Alone, or all in one place, the moons are after one step where they were.
    assert_eq!(q2("<x=1, y=2, z=3>".to_string(), &[]).unwrap(), 1);
    assert_eq!(q2("<x=1, y=2, z=3>\n<x=1, y=2, z=3>".to_string(), &[]).unwrap(), 1);
    // Two moons one apart along x swap places and come back: 1 and 0, then
    // 0 and 1 at rest, then back again.
    assert_eq!(q2("<x=0, y=0, z=0>\n<x=1, y=0, z=0>".to_string(), &[]).unwrap(), 4);
    assert_eq!(q2("<x=0, y=0>".to_string(), &[]), Err(Failure::BadInput));
}
