//! Values laid out on a grid: what is kept for each place that was ever
//! written to, in the order in which the places were first written.

use std::collections::HashMap;
use vstd::prelude::*;

verus! {

broadcast use vstd::std_specs::hash::group_hash_axioms;

/// A place on the grid, as `x` and `y`.
pub type Cell = (i64, i64);

/// A place and what is kept for it.
pub type Tile = (Cell, i64);

/// The number that stands for the place `c` in a hash table: no two places
/// have the same.
pub open spec fn cell_key(c: Cell) -> u128 {
    ((c.0 + 0x8000_0000_0000_0000) * 0x1_0000_0000_0000_0000 + (c.1 + 0x8000_0000_0000_0000)) as u128
}

/// Where among the first `n` of `tiles` the place `c` is kept.
pub open spec fn slot_of(tiles: Seq<Tile>, c: Cell, n: int) -> Option<int>
    decreases n,
{
    if n <= 0 {
        None
    } else if tiles[n - 1].0 == c {
        Some(n - 1)
    } else {
        slot_of(tiles, c, n - 1)
    }
}

/// What is kept for the place `c`, if anything.
pub open spec fn lookup(tiles: Seq<Tile>, c: Cell) -> Option<i64> {
    match slot_of(tiles, c, tiles.len() as int) {
        Some(i) => Some(tiles[i].1),
        None => None,
    }
}

/// What is kept for the place `c`, and 0 if nothing is.
pub open spec fn lookup_or_zero(tiles: Seq<Tile>, c: Cell) -> i64 {
    match lookup(tiles, c) {
        Some(v) => v,
        None => 0,
    }
}

/// The tiles with `v` kept for the place `c`: in the place's old slot if it
/// has one, and at the end if not.
pub open spec fn put(tiles: Seq<Tile>, c: Cell, v: i64) -> Seq<Tile> {
    match slot_of(tiles, c, tiles.len() as int) {
        Some(i) => tiles.update(i, (c, v)),
        None => tiles.push((c, v)),
    }
}

/// The tiles with 0 kept for the place `c` unless something is kept for it.
pub open spec fn touch(tiles: Seq<Tile>, c: Cell) -> Seq<Tile> {
    match lookup(tiles, c) {
        Some(_) => tiles,
        None => tiles.push((c, 0)),
    }
}

/// Two places with the same number are the same place.
pub proof fn lemma_cell_key_tells_places_apart(c: Cell, d: Cell)
    ensures
        cell_key(c) == cell_key(d) ==> c == d,
{
}

/// A slot that is found lies among the slots searched and keeps the place
/// looked for.
pub proof fn lemma_slot_is_within(tiles: Seq<Tile>, c: Cell, n: int)
    requires
        n <= tiles.len(),
    ensures
        slot_of(tiles, c, n) matches Some(i) ==> 0 <= i < n && tiles[i].0 == c,
    decreases n,
{
    if n > 0 && tiles[n - 1].0 != c {
        lemma_slot_is_within(tiles, c, n - 1);
    }
}

/// A new value for a place moves no place to another slot.
pub proof fn lemma_update_keeps_slots(tiles: Seq<Tile>, i: int, v: i64, c: Cell, n: int)
    requires
        0 <= i < tiles.len(),
        n <= tiles.len(),
    ensures
        slot_of(tiles.update(i, (tiles[i].0, v)), c, n) == slot_of(tiles, c, n),
    decreases n,
{
    if n > 0 {
        lemma_update_keeps_slots(tiles, i, v, c, n - 1);
    }
}

/// What was put for a place is what is kept for it, and what is kept for
/// any other place stays.
pub proof fn lemma_lookup_after_put(tiles: Seq<Tile>, c: Cell, v: i64, d: Cell)
    ensures
        lookup(put(tiles, c, v), c) == Some(v),
        d != c ==> lookup(put(tiles, c, v), d) == lookup(tiles, d),
{
    let n = tiles.len() as int;
    lemma_slot_is_within(tiles, c, n);
    lemma_slot_is_within(tiles, d, n);
    match slot_of(tiles, c, n) {
        Some(i) => {
            lemma_update_keeps_slots(tiles, i, v, c, n);
            lemma_update_keeps_slots(tiles, i, v, d, n);
        },
        None => {
            assert(slot_of(tiles.push((c, v)), d, n) == slot_of(tiles, d, n)) by {
                lemma_push_keeps_slots(tiles, (c, v), d, n);
            }
        },
    }
}

/// A tile added at the end moves no place to another slot.
pub proof fn lemma_push_keeps_slots(tiles: Seq<Tile>, tile: Tile, c: Cell, n: int)
    requires
        n <= tiles.len(),
    ensures
        slot_of(tiles.push(tile), c, n) == slot_of(tiles, c, n),
    decreases n,
{
    if n > 0 {
        lemma_push_keeps_slots(tiles, tile, c, n - 1);
    }
}

/// What a table holds for the key `k`.
pub open spec fn held(table: Map<u128, usize>, k: u128) -> Option<int> {
    if table.contains_key(k) {
        Some(table[k] as int)
    } else {
        None
    }
}

/// Values on a grid. Each place that was written to has one tile; a hash
/// table says where.
pub struct Tiles {
    tiles: Vec<Tile>,
    slots: HashMap<u128, usize>,
}

impl View for Tiles {
    type V = Seq<Tile>;

    closed spec fn view(&self) -> Seq<Tile> {
        self.tiles@
    }
}

impl Tiles {
    /// Whether the hash table says of every place where its tile is.
    pub closed spec fn wf(&self) -> bool {
        forall|c: Cell|
            held(self.slots@, cell_key(c)) == #[trigger] slot_of(
                self.tiles@,
                c,
                self.tiles@.len() as int,
            )
    }

    /// A grid on which nothing is written.
    pub fn new() -> (grid: Tiles)
        ensures
            grid.wf(),
            grid@ == Seq::<Tile>::empty(),
    {
        Tiles { tiles: Vec::new(), slots: HashMap::new() }
    }

    /// The number of places that were written to.
    pub fn len(&self) -> (n: usize)
        ensures
            n == self@.len(),
    {
        self.tiles.len()
    }

    /// The tile in slot `i`.
    pub fn tile(&self, i: usize) -> (tile: Tile)
        requires
            i < self@.len(),
        ensures
            tile == self@[i as int],
    {
        self.tiles[i]
    }

    /// The key of the place `c`.
    fn key(c: Cell) -> (k: u128)
        ensures
            k == cell_key(c),
    {
        ((c.0 as i128 + 0x8000_0000_0000_0000) as u128) * 0x1_0000_0000_0000_0000 + ((c.1 as i128
            + 0x8000_0000_0000_0000) as u128)
    }

    /// The slot of the tile for the place `c`, if it has one.
    pub fn slot(&self, c: Cell) -> (r: Option<usize>)
        requires
            self.wf(),
        ensures
            match slot_of(self@, c, self@.len() as int) {
                Some(i) => r == Some(i as usize) && 0 <= i < self@.len() && self@[i].0 == c,
                None => r is None,
            },
    {
        proof {
            lemma_slot_is_within(self.tiles@, c, self.tiles@.len() as int);
            let _ = slot_of(self.tiles@, c, self.tiles@.len() as int);
        }
        match self.slots.get(&Self::key(c)) {
            Some(i) => Some(*i),
            None => None,
        }
    }

    /// What is kept for the place `c`, if anything.
    pub fn get(&self, c: Cell) -> (v: Option<i64>)
        requires
            self.wf(),
        ensures
            v == lookup(self@, c),
    {
        proof {
            lemma_slot_is_within(self.tiles@, c, self.tiles@.len() as int);
            let _ = slot_of(self.tiles@, c, self.tiles@.len() as int);
        }
        match self.slots.get(&Self::key(c)) {
            Some(i) => Some(self.tiles[*i].1),
            None => None,
        }
    }

    /// Keeps `v` for the place `c`.
    pub fn set(&mut self, c: Cell, v: i64)
        requires
            old(self).wf(),
        ensures
            final(self).wf(),
            final(self)@ == put(old(self)@, c, v),
    {
        let ghost before = self.tiles@;
        let ghost n = before.len() as int;
        proof {
            lemma_slot_is_within(before, c, n);
            let _ = slot_of(before, c, n);
        }
        let found = match self.slots.get(&Self::key(c)) {
            Some(i) => Some(*i),
            None => None,
        };
        match found {
            Some(i) => {
                self.tiles.set(i, (c, v));
                assert forall|d: Cell|
                    held(self.slots@, cell_key(d)) == #[trigger] slot_of(
                        self.tiles@,
                        d,
                        self.tiles@.len() as int,
                    ) by {
                    lemma_update_keeps_slots(before, i as int, v, d, n);
                    let _ = slot_of(before, d, n);
                }
            },
            None => {
                let i = self.tiles.len();
                self.tiles.push((c, v));
                self.slots.insert(Self::key(c), i);
                assert forall|d: Cell|
                    held(self.slots@, cell_key(d)) == #[trigger] slot_of(
                        self.tiles@,
                        d,
                        self.tiles@.len() as int,
                    ) by {
                    lemma_cell_key_tells_places_apart(c, d);
                    lemma_push_keeps_slots(before, (c, v), d, n);
                }
            },
        }
    }

    /// What is kept for the place `c`; keeps 0 for it first if nothing is.
    pub fn get_or_zero(&mut self, c: Cell) -> (v: i64)
        requires
            old(self).wf(),
        ensures
            final(self).wf(),
            final(self)@ == touch(old(self)@, c),
            v == lookup_or_zero(old(self)@, c),
    {
        match self.get(c) {
            Some(v) => v,
            None => {
                self.set(c, 0);
                0
            },
        }
    }
}

} // verus!
