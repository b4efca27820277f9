use std::collections::HashMap;
use vstd::prelude::*;

use super::error::Error;
use crate::text::{int_list, parse_int_list};

verus! {

broadcast use vstd::std_specs::hash::group_hash_axioms;

/// The memory of an Intcode machine as the contracts see it: the image it was
/// built from, and the value of every cell.
pub struct MemView {
    /// The program the memory was built from.
    pub image: Seq<i64>,
    /// The current value of each cell; every address has one.
    pub cells: Map<u64, i64>,
}

impl MemView {
    /// The value that address `addr` holds in a memory that was just built from `image`.
    pub open spec fn image_cell(image: Seq<i64>, addr: u64) -> i64 {
        if addr < image.len() {
            image[addr as int]
        } else {
            0
        }
    }

    /// The memory right after it was built from `image`, or after a reset.
    pub open spec fn fresh(image: Seq<i64>) -> MemView {
        MemView { image, cells: Map::total(|addr: u64| Self::image_cell(image, addr)) }
    }

    /// The value at `addr`.
    pub open spec fn read(self, addr: u64) -> i64 {
        self.cells[addr]
    }

    /// The memory after `val` was stored at `addr`.
    pub open spec fn write(self, addr: u64, val: i64) -> MemView {
        MemView { image: self.image, cells: self.cells.insert(addr, val) }
    }

    /// The memory after a reset.
    pub open spec fn reset(self) -> MemView {
        Self::fresh(self.image)
    }

    /// Every address has a value.
    pub open spec fn total(self) -> bool {
        forall|addr: u64| self.cells.dom().contains(addr)
    }
}

/// An Intcode machine's memory.
///
/// The program sits in a vector ("low memory"); whatever is written past its
/// end goes to a hash map ("high memory"), so that one far address costs one
/// entry.
#[derive(Debug)]
pub struct Mem {
    orig_mem: Vec<i64>,
    lo_mem: Vec<i64>,
    hi_mem: HashMap<u64, i64>,
}

impl View for Mem {
    type V = MemView;

    closed spec fn view(&self) -> MemView {
        MemView {
            image: self.orig_mem@,
            cells: Map::total(
                |addr: u64|
                    if addr < self.lo_mem@.len() {
                        self.lo_mem@[addr as int]
                    } else if self.hi_mem@.contains_key(addr) {
                        self.hi_mem@[addr]
                    } else {
                        0
                    },
            ),
        }
    }
}

impl Clone for Mem {
    /// A copy that shares nothing with `self`.
    fn clone(&self) -> (copy: Mem)
        ensures
            copy@ == self@,
    {
        let copy = Mem {
            orig_mem: self.orig_mem.clone(),
            lo_mem: self.lo_mem.clone(),
            hi_mem: self.hi_mem.clone(),
        };
        copy
    }
}

impl Mem {
    /// Builds a memory from program text: integers with commas between them,
    /// each with any white space around it. Text that is anything else gives
    /// `Error::ParseMem`.
    pub fn new(input: &str) -> (r: Result<Mem, Error>)
        ensures
            match int_list(input@) {
                Some(image) => r matches Ok(mem) && mem@ == MemView::fresh(image),
                None => r == Err::<Mem, Error>(Error::ParseMem),
            },
    {
        match parse_int_list(input) {
            Some(image) => Ok(Mem::with_image(image)),
            None => Err(Error::ParseMem),
        }
    }

    /// A memory that holds `image` from address 0 on, and 0 everywhere else.
    pub fn with_image(image: Vec<i64>) -> (mem: Mem)
        ensures
            mem@ == MemView::fresh(image@),
    {
        let lo_mem = image.clone();
        let mem = Mem { orig_mem: image, lo_mem, hi_mem: HashMap::new() };
        assert(mem@.cells =~= MemView::fresh(image@).cells);
        mem
    }

    /// Puts every cell back to what it held when the memory was built.
    pub fn reset(&mut self)
        ensures
            final(self)@ == old(self)@.reset(),
    {
        self.lo_mem = self.orig_mem.clone();
        self.hi_mem.clear();
        assert(self@.cells =~= old(self)@.reset().cells);
    }

    /// The length of the program the memory was built from.
    pub fn base_len(&self) -> (len: usize)
        ensures
            len == self@.image.len(),
    {
        self.orig_mem.len()
    }

    /// The value at `addr`: 0 if nothing was ever stored there.
    pub fn read(&self, addr: u64) -> (val: i64)
        ensures
            val == self@.read(addr),
    {
        if addr < self.lo_mem.len() as u64 {
            self.lo_mem[addr as usize]
        } else {
            match self.hi_mem.get(&addr) {
                Some(v) => *v,
                None => 0,
            }
        }
    }

    /// Stores `val` at `addr`, whatever the address.
    pub fn write(&mut self, addr: u64, val: i64)
        ensures
            final(self)@ == old(self)@.write(addr, val),
    {
        if addr < self.lo_mem.len() as u64 {
            self.lo_mem.set(addr as usize, val);
        } else {
            self.hi_mem.insert(addr, val);
        }
        assert(self@.cells =~= old(self)@.write(addr, val).cells);
    }
}

/// A memory that was just built holds its image, and 0 at every address past it.
pub proof fn lemma_fresh_memory_reads_image_then_zero(image: Seq<i64>, addr: u64)
    ensures
        addr < image.len() ==> MemView::fresh(image).read(addr) == image[addr as int],
        addr >= image.len() ==> MemView::fresh(image).read(addr) == 0,
        MemView::fresh(image).total(),
{
}

/// A value that was stored is read back from the same address, whatever the
/// address, and every other address keeps what it held.
pub proof fn lemma_read_after_write(mem: MemView, addr: u64, val: i64, other: u64)
    ensures
        mem.write(addr, val).read(addr) == val,
        other != addr ==> mem.write(addr, val).read(other) == mem.read(other),
        mem.total() ==> mem.write(addr, val).total(),
{
}

/// A reset undoes every write: the memory is again what it was when it was built.
pub proof fn lemma_reset_forgets_writes(mem: MemView, addr: u64, val: i64)
    ensures
        mem.write(addr, val).reset() == mem.reset(),
        mem.reset() == MemView::fresh(mem.image),
        mem.reset().reset() == mem.reset(),
{
}

} // verus!
