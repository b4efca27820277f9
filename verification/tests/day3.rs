use aoc2019::day3::{q1, q2, Dir, PathChunk};
use aoc2019::failure::Failure;

#[test]
fn nearest_crossings() {
    assert_eq!(q1("R8,U5,L5,D3\nU7,R6,D4,L4".to_string(), &[]).unwrap(), 6);
    assert_eq!(
        q1(
            "R75,D30,R83,U83,L12,D49,R71,U7,L72\nU62,R66,U55,R34,D71,R55,D58,R83".to_string(),
            &[]
        )
        .unwrap(),
        159
    );
    assert_eq!(
        q1(
            "R98,U47,R26,D63,R33,U87,L62,D20,R33,U53,R51\nU98,R91,D20,R16,D67,R40,U7,R15,U6,R7"
                .to_string(),
            &[]
        )
        .unwrap(),
        135
    );
}

#[test]
fn soonest_crossings() {
    assert_eq!(q2("R8,U5,L5,D3\nU7,R6,D4,L4".to_string(), &[]).unwrap(), 30);
    assert_eq!(
        q2(
            "R75,D30,R83,U83,L12,D49,R71,U7,L72\nU62,R66,U55,R34,D71,R55,D58,R83".to_string(),
            &[]
        )
        .unwrap(),
        610
    );
    assert_eq!(
        q2(
            "R98,U47,R26,D63,R33,U87,L62,D20,R33,U53,R51\nU98,R91,D20,R16,D67,R40,U7,R15,U6,R7"
                .to_string(),
            &[]
        )
        .unwrap(),
        410
    );
}

#[test]
fn the_last_visit_of_the_first_wire_counts() {
    // The first wire comes to (1, 0) with its first step and again with its
    // fifth; the second wire gets there with its third.
    assert_eq!(q2("R2,L2,R1\nU1,R1,D1".to_string(), &[]).unwrap(), 5 + 3);
    assert_eq!(q1("R2,L2,R1\nU1,R1,D1".to_string(), &[]).unwrap(), 1);
}

#[test]
fn wires_that_do_not_cross() {
    assert_eq!(q1("R8\nL8".to_string(), &[]), Err(Failure::NoAnswer));
    assert_eq!(q2("R8\nL8".to_string(), &[]), Err(Failure::NoAnswer));
    // The start is a crossing only when both wires come back to it.
    assert_eq!(q1("R1,L1\nU1,D1".to_string(), &[]).unwrap(), 0);
    assert_eq!(q1("R1\nU1".to_string(), &[]), Err(Failure::NoAnswer));
}

#[test]
fn malformed_wires() {
    assert_eq!(q1("R8,U5".to_string(), &[]), Err(Failure::BadInput));
    assert_eq!(q1("R8\nU5\nL3".to_string(), &[]), Err(Failure::BadInput));
    assert_eq!(q1("R8\nX5".to_string(), &[]), Err(Failure::BadInput));
    assert_eq!(q2("R8\nU".to_string(), &[]), Err(Failure::BadInput));
    assert_eq!(q2("R8,\nU1".to_string(), &[]), Err(Failure::BadInput));
    assert_eq!(q2("".to_string(), &[]), Err(Failure::BadInput));
}

#[test]
fn stretches_and_directions() {
    assert_eq!(Dir::from_str("U"), Ok(Dir::Up));
    assert_eq!(Dir::from_str("D"), Ok(Dir::Down));
    assert_eq!(Dir::from_str("L"), Ok(Dir::Left));
    assert_eq!(Dir::from_str("R"), Ok(Dir::Right));
    assert_eq!(Dir::from_str("UD"), Err(()));
    assert_eq!(Dir::from_str(""), Err(()));
    assert_eq!(Dir::Up.to_delta(), (0, -1));
    assert_eq!(Dir::Down.to_delta(), (0, 1));
    assert_eq!(Dir::Left.to_delta(), (-1, 0));
    assert_eq!(Dir::Right.to_delta(), (1, 0));
    assert_eq!(PathChunk::from_str("R75"), Ok(PathChunk { dir: Dir::Right, dist: 75 }));
    assert_eq!(PathChunk::from_str("75"), Err(()));
    assert_eq!(PathChunk::from_str("R"), Err(()));
}
