use aoc2019::day15::{
    dir_to_delta, explore_map, minutes_to_fill, q1, q2, reverse_dir, shortest_to_oxygen, FLOOR,
    OXYGEN, QUEUED, WALL,
};
use aoc2019::failure::Failure;
use aoc2019::tiles::Tiles;

// A droid in a corridor of three places, from (0, 0) east to the oxygen
// system at (2, 0). The program keeps the droid's x in cell 102.
const CORRIDOR: &str = "3,100,1008,100,4,101,1005,101,21,1008,100,3,101,1005,101,58,104,0,\
    1105,1,0,1001,102,1,103,1007,103,3,101,1006,101,53,1001,103,0,102,1008,102,2,101,1005,\
    101,48,104,1,1105,1,0,104,2,1105,1,0,104,0,1105,1,0,1001,102,-1,103,1007,103,0,101,1005,\
    101,53,1001,103,0,102,1008,102,2,101,1005,101,48,104,1,1105,1,0";

fn map_of(rows: &[&str]) -> Tiles {
    let mut room = Tiles::new();
    for (y, row) in rows.iter().enumerate() {
        for (x, c) in row.chars().enumerate() {
            let kind = match c {
                '#' => WALL,
                '.' => FLOOR,
                'O' => OXYGEN,
                '?' => QUEUED,
                _ => continue,
            };
            room.set((x as i64 - 1, y as i64 - 1), kind);
        }
    }
    room
}

#[test]
fn commands_and_their_steps() {
    assert_eq!(dir_to_delta(1), Some((0, -1)));
    assert_eq!(dir_to_delta(2), Some((0, 1)));
    assert_eq!(dir_to_delta(3), Some((-1, 0)));
    assert_eq!(dir_to_delta(4), Some((1, 0)));
    assert_eq!(dir_to_delta(0), None);
    assert_eq!(dir_to_delta(5), None);
    assert_eq!(reverse_dir(1), Some(2));
    assert_eq!(reverse_dir(2), Some(1));
    assert_eq!(reverse_dir(3), Some(4));
    assert_eq!(reverse_dir(4), Some(3));
    assert_eq!(reverse_dir(-1), None);
}

#[test]
fn the_droid_draws_the_corridor() {
    let room = explore_map(CORRIDOR).unwrap();
    let mut tiles = Vec::new();
    for i in 0..room.len() {
        tiles.push(room.tile(i));
    }
    assert_eq!(
        tiles,
        vec![
            ((0, 0), FLOOR),
            ((0, -1), WALL),
            ((0, 1), WALL),
            ((-1, 0), WALL),
            ((1, 0), FLOOR),
            ((1, -1), WALL),
            ((1, 1), WALL),
            ((2, 0), OXYGEN),
            ((2, -1), WALL),
            ((2, 1), WALL),
            ((3, 0), WALL),
        ]
    );
    assert_eq!(q1(CORRIDOR.to_string(), &[]).unwrap(), 2);
    assert_eq!(q1(CORRIDOR.to_string(), &["vis".to_string()]).unwrap(), 2);
    assert_eq!(q1(CORRIDOR.to_string(), &["viz".to_string()]), Err(Failure::BadArgument));
    assert_eq!(q2(CORRIDOR.to_string(), &[]).unwrap(), 2);
}

#[test]
fn a_droid_walled_in_finds_nothing() {
    // Answers every command with a wall.
    let program = "3,100,104,0,1105,1,0";
    let room = explore_map(program).unwrap();
    assert_eq!(room.len(), 5);
    assert_eq!(room.get((0, 0)), Some(FLOOR));
    assert_eq!(room.get((1, 0)), Some(WALL));
    assert_eq!(room.get((0, -1)), Some(WALL));
    assert_eq!(q1(program.to_string(), &[]), Err(Failure::NoAnswer));
    assert_eq!(q2(program.to_string(), &[]), Err(Failure::NoAnswer));
}

#[test]
fn droid_programs_that_fail() {
    assert_eq!(q1("3,100,99".to_string(), &[]), Err(Failure::MissingOutput));
    assert_eq!(q1("3,100,104,7,99".to_string(), &[]), Err(Failure::BadOutput));
    // Oxygen to the east, then walls all round, the way back too: the droid
    // runs out of commands to drop.
    assert_eq!(q1("3,100,104,2,3,100,104,0,1105,1,4".to_string(), &[]), Err(Failure::BadOutput));
    assert!(matches!(q2("3,100,104,x".to_string(), &[]), Err(Failure::Machine(_))));
}

#[test]
fn shortest_way_goes_round_walls() {
    //  x: -1 0 1 2 3; the droid starts at (0, 0), the second sign of the second row.
    let room = map_of(&["#####", "#..##", "##.##", "#O..#", "#####"]);
    assert_eq!(shortest_to_oxygen(&room).unwrap(), 4);
    assert_eq!(minutes_to_fill(&room).unwrap(), 4);
    // A second oxygen system, nearer by.
    let room = map_of(&["#####", "#..O#", "##.##", "#O..#", "#####"]);
    assert_eq!(shortest_to_oxygen(&room).unwrap(), 2);
    // Oxygen spreads from the first system on the map, the one in the top
    // row, and reaches the floor beside the other one last.
    assert_eq!(minutes_to_fill(&room).unwrap(), 4);
}

#[test]
fn oxygen_fills_the_farthest_floor_last() {
    let room = map_of(&[
        " ##   ",
        "#..## ",
        "#.#..#",
        "#.O.# ",
        " ###  ",
    ]);
    assert_eq!(minutes_to_fill(&room).unwrap(), 4);
    assert_eq!(shortest_to_oxygen(&room).unwrap(), 3);
    // Floor that no way leads to stays as it is.
    let room = map_of(&["#####", "#.#O#", "#####"]);
    assert_eq!(minutes_to_fill(&room).unwrap(), 0);
    assert_eq!(shortest_to_oxygen(&room), Err(Failure::NoAnswer));
}

#[test]
fn maps_that_are_not_done() {
    let room = map_of(&["#####", "#.?O#", "#####"]);
    assert_eq!(shortest_to_oxygen(&room), Err(Failure::BadOutput));
    assert_eq!(minutes_to_fill(&room), Err(Failure::BadOutput));
    assert_eq!(shortest_to_oxygen(&Tiles::new()), Err(Failure::NoAnswer));
    assert_eq!(minutes_to_fill(&map_of(&["...", "..."])), Err(Failure::NoAnswer));
    // The droid stands on the oxygen system.
    let room = map_of(&["###", "#O.", "###"]);
    assert_eq!(shortest_to_oxygen(&room).unwrap(), 0);
    assert_eq!(minutes_to_fill(&room).unwrap(), 1);
}
