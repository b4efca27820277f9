use aoc2019::tiles::Tiles;

#[test]
fn what_was_set_is_kept() {
    let mut grid = Tiles::new();
    assert_eq!(grid.len(), 0);
    assert_eq!(grid.get((3, -4)), None);
    grid.set((3, -4), 7);
    grid.set((-4, 3), 8);
    assert_eq!(grid.get((3, -4)), Some(7));
    assert_eq!(grid.get((-4, 3)), Some(8));
    assert_eq!(grid.len(), 2);
    grid.set((3, -4), 9);
    assert_eq!(grid.get((3, -4)), Some(9));
    assert_eq!(grid.len(), 2);
    assert_eq!(grid.tile(0), ((3, -4), 9));
    assert_eq!(grid.tile(1), ((-4, 3), 8));
}

#[test]
fn touching_a_place_keeps_zero_for_it() {
    let mut grid = Tiles::new();
    assert_eq!(grid.get_or_zero((1, 1)), 0);
    assert_eq!(grid.len(), 1);
    grid.set((2, 2), 5);
    assert_eq!(grid.get_or_zero((2, 2)), 5);
    assert_eq!(grid.get_or_zero((1, 1)), 0);
    assert_eq!(grid.len(), 2);
}

#[test]
fn far_places_do_not_collide() {
    let mut grid = Tiles::new();
    grid.set((i64::MIN, i64::MAX), 1);
    grid.set((i64::MAX, i64::MIN), 2);
    grid.set((0, 1), 3);
    grid.set((1, 0), 4);
    assert_eq!(grid.get((i64::MIN, i64::MAX)), Some(1));
    assert_eq!(grid.get((i64::MAX, i64::MIN)), Some(2));
    assert_eq!(grid.get((0, 1)), Some(3));
    assert_eq!(grid.get((1, 0)), Some(4));
    assert_eq!(grid.get((0, 0)), None);
}
