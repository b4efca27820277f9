use aoc2019::day10::{q1, two_hundredth, Target};
use aoc2019::failure::Failure;
use std::collections::BTreeSet;
use std::f32::consts::PI;
use aoc2019::gcd::{greatest_common_divisor, Gcd};

#[test]
fn day10_q1_e1() {
    let input = "
.#..#
.....
#####
....#
...##
    "
    .trim();
    let output = q1(input.to_string(), &[]);
    assert_eq!(output.unwrap(), (8, (3, 4)));
}

#[test]
fn day10_q1_e2() {
    let input = "
......#.#.
#..#.#....
..#######.
.#.#.###..
.#..#.....
..#....#.#
#..#....#.
.##.#..###
##...#..#.
.#....####
    "
    .trim();
    let output = q1(input.to_string(), &[]);
    assert_eq!(output.unwrap(), (33, (5, 8)));
}

const BIG_INPUT: &str = "
.#..##.###...#######
##.############..##.
.#.######.########.#
.###.#######.####.#.
#####.##.#.##.###.##
..#####..#.#########
####################
#.####....###.#.#.##
##.#################
#####.##.###..####..
..######..##.#######
####.##.####...##..#
.#####..#.######.###
##...#.###X######...
#.##########.#######
.####.#.###.###.#.##
....##.##.###..#####
.#.#.###########.###
#.#.#.#####.####.###
###.##.####.##.#..##";

#[test]
fn day10_q1_e3() {
    let input = BIG_INPUT.trim();
    let output = q1(input.to_string(), &[]);
    assert_eq!(output.unwrap(), (210, (11, 13)));
}

/// The asteroids on the map as targets for a laser at `(sx, sy)`, each with
/// the number of its direction as 32-bit floating point arithmetic gives it.
/// The angles are negative: the cast by way of `i64` keeps their order.
fn targets(input: &str, sx: isize, sy: isize) -> Vec<Target> {
    let mut asteroids = BTreeSet::new();
    for (row, s) in input.split('\n').enumerate() {
        for (col, c) in s.as_bytes().iter().enumerate() {
            if *c == b'#' || *c == b'X' {
                asteroids.insert((col as isize - sx, -(row as isize - sy)));
            }
        }
    }
    let mut targets = Vec::new();
    for (x, y) in asteroids {
        let mut angle = (y as f32).atan2(x as f32);
        if angle < 0. {
            angle += 2. * PI;
        }
        angle -= PI / 2.;
        if angle < 0. {
            angle += 2. * PI;
        }
        angle = -angle;
        targets.push(Target {
            angle: (angle * 10000000.) as i64 as usize,
            magnitude: (x.pow(2) + y.pow(2)) as i64,
            x: (x + sx) as i64,
            y: (-(y - sy)) as i64,
        });
    }
    targets
}

#[test]
fn day10_q2_e1() {
    let input = BIG_INPUT.trim();
    let (_, (sx, sy)) = q1(input.to_string(), &[]).unwrap();
    let output = two_hundredth(&targets(input, sx as isize, sy as isize));
    assert_eq!(output.unwrap(), 802);
}

fn target(angle: usize, magnitude: i64, x: i64, y: i64) -> Target {
    Target { angle, magnitude, x, y }
}

#[test]
fn the_laser_hits_the_nearest_in_each_direction_first() {
    // Three directions; 66 targets in each of the first two, 68 in the third.
    let mut all = Vec::new();
    for k in 0..68 {
        if k < 66 {
            all.push(target(10, k + 1, 1, k));
            all.push(target(20, 100 - k, 2, k));
        }
        all.push(target(30, 5 * k, 3, k));
    }
    // 66 turns hit 198 targets; in the 67th only the third direction is
    // left, and in the 68th its last target, the farthest, is the 200th.
    assert_eq!(two_hundredth(&all).unwrap(), 3 * 100 + 67);
    all.pop();
    assert_eq!(two_hundredth(&all), Err(Failure::NoAnswer));
    assert_eq!(two_hundredth(&Vec::new()), Err(Failure::NoAnswer));
}

#[test]
fn of_two_targets_at_one_place_the_later_counts() {
    let mut all = Vec::new();
    for k in 0..199 {
        all.push(target(k, 1, 0, k as i64));
    }
    all.push(target(500, 7, 9, 1));
    assert_eq!(two_hundredth(&all).unwrap(), 901);
    // The same direction and distance again: the first of the two is gone,
    // and the second is hit in its place.
    all.push(target(500, 7, 9, 2));
    assert_eq!(two_hundredth(&all).unwrap(), 902);
    // One more in a direction between: now that one is the 200th.
    all.push(target(400, 3, 8, 0));
    assert_eq!(two_hundredth(&all).unwrap(), 800);
}

#[test]
fn an_asteroid_hides_the_ones_behind_it() {
    // From either end only the neighbour is seen, from the middle both ends.
    assert_eq!(q1("###".to_string(), &[]).unwrap(), (2, (1, 0)));
    assert_eq!(q1("#.#.#".to_string(), &[]).unwrap(), (2, (2, 0)));
    assert_eq!(q1("#..\n.#.\n..#".to_string(), &[]).unwrap(), (2, (1, 1)));
}

#[test]
fn of_equal_places_the_first_by_column_wins() {
    assert_eq!(q1("#.\n.#".to_string(), &[]).unwrap(), (1, (0, 0)));
    assert_eq!(q1(".#\n#.".to_string(), &[]).unwrap(), (1, (0, 1)));
}

#[test]
fn empty_and_lonely_maps() {
    assert_eq!(q1("".to_string(), &[]).unwrap(), (0, (0, 0)));
    assert_eq!(q1("...\n...".to_string(), &[]).unwrap(), (0, (0, 0)));
    assert_eq!(q1("..\n.#".to_string(), &[]).unwrap(), (0, (0, 0)));
}

#[test]
fn greatest_common_divisors() {
    assert_eq!(0, 0u8.gcd(0));
    assert_eq!(10, 10u8.gcd(0));
    assert_eq!(10, 0u8.gcd(10));
    assert_eq!(10, 10u8.gcd(20));
    assert_eq!(44, 2024u32.gcd(748));
    assert_eq!(1, 17u16.gcd(5));
    assert_eq!(6, 54u64.gcd(24));
    assert_eq!(6, 24usize.gcd(54));
    assert_eq!(1 << 100, (1u128 << 100).gcd(1u128 << 120));
    assert_eq!(greatest_common_divisor(12, 18), 6);
}
