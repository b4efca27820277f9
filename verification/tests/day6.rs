use aoc2019::day6::{q1, q2};
use aoc2019::failure::Failure;
use aoc2019::paths::distances;

const MAP: &str = "COM)B\nB)C\nC)D\nD)E\nE)F\nB)G\nG)H\nD)I\nE)J\nJ)K\nK)L";

#[test]
fn orbits_straight_and_by_way_of_others() {
    assert_eq!(q1(MAP.to_string(), &[]).unwrap(), 42);
    assert_eq!(q1(MAP.to_string(), &["recursive".to_string()]).unwrap(), 42);
    assert_eq!(q1("COM)A".to_string(), &[]).unwrap(), 1);
    assert_eq!(q1("A)B\nCOM)A".to_string(), &[]).unwrap(), 3);
}

#[test]
fn an_orbit_that_is_named_twice_counts_once() {
    assert_eq!(q1("COM)A\nCOM)A\nA)B".to_string(), &[]).unwrap(), 3);
    // An object that orbits in two ways counts for each.
    assert_eq!(q1("COM)A\nCOM)B\nA)C\nB)C".to_string(), &[]).unwrap(), 1 + 1 + 2 + 2);
}

#[test]
fn maps_without_a_centre_or_without_an_end() {
    assert_eq!(q1("A)B".to_string(), &[]), Err(Failure::NoAnswer));
    assert_eq!(q1("A)B".to_string(), &["recursive".to_string()]).unwrap(), 0);
    // Round and round.
    assert_eq!(q1("COM)A\nA)B\nB)A".to_string(), &[]), Err(Failure::NoAnswer));
    assert_eq!(q1(MAP.to_string(), &["recrusive".to_string()]), Err(Failure::BadArgument));
    assert_eq!(q1(")B".to_string(), &[]), Err(Failure::BadInput));
    assert_eq!(q1("COM)B\n".to_string(), &[]), Err(Failure::BadInput));
    assert_eq!(q1(")B".to_string(), &["no".to_string()]), Err(Failure::BadInput));
    // A line without the sign names an object with the empty name round it.
    assert_eq!(q1("COM".to_string(), &[]).unwrap(), 1);
}

#[test]
fn transfers_from_you_to_santa() {
    let map = format!("{}\nK)YOU\nI)SAN", MAP);
    assert_eq!(q2(map, &[]).unwrap(), 4);
    assert_eq!(q2("A)YOU\nA)SAN".to_string(), &[]).unwrap(), 0);
    assert_eq!(q2("A)YOU\nB)A\nB)SAN".to_string(), &[]).unwrap(), 1);
}

#[test]
fn no_way_to_santa() {
    assert_eq!(q2("A)YOU\nB)SAN".to_string(), &[]), Err(Failure::NoAnswer));
    assert_eq!(q2("A)YOU".to_string(), &[]), Err(Failure::NoAnswer));
    assert_eq!(q2("A)SAN".to_string(), &[]), Err(Failure::NoAnswer));
    assert_eq!(q2(")SAN".to_string(), &[]), Err(Failure::BadInput));
    // One step from YOU to SAN: the count wraps round below 0.
    assert_eq!(q2("YOU)SAN".to_string(), &[]).unwrap(), usize::MAX);
}

#[test]
fn least_steps_in_a_graph() {
    // 0 - 1 - 2 - 3 and a short cut 0 - 3; 4 hangs on 2; 5 is alone.
    let edges = vec![(0, 1), (1, 2), (2, 3), (3, 0), (4, 2)];
    assert_eq!(
        distances(6, &edges, 0),
        vec![Some(0), Some(1), Some(2), Some(1), Some(3), None]
    );
    assert_eq!(
        distances(6, &edges, 4),
        vec![Some(3), Some(2), Some(1), Some(2), Some(0), None]
    );
    assert_eq!(distances(1, &Vec::new(), 0), vec![Some(0)]);
    assert_eq!(distances(2, &vec![(1, 1)], 1), vec![None, Some(0)]);
}
