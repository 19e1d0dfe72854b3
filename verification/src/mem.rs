//! Sparse, word-addressed memory.

use std::collections::HashMap;
use vstd::prelude::*;

verus! {

broadcast use vstd::std_specs::hash::group_hash_axioms;

/// The word that a memory with the written cells `cells` holds at `addr`:
/// the last word written there, and zero where nothing was written.
pub open spec fn word_at(cells: Map<u32, u32>, addr: u32) -> u32 {
    if cells.contains_key(addr) {
        cells[addr]
    } else {
        0
    }
}

/// A flat 32-bit address space of words, of which only the written cells
/// are kept.
#[derive(Debug)]
pub struct MEM {
    mem: HashMap<u32, u32>,
}

impl View for MEM {
    type V = Map<u32, u32>;

    /// The cells that were written, each with the word last written to it.
    closed spec fn view(&self) -> Map<u32, u32> {
        self.mem@
    }
}

impl Clone for MEM {
    fn clone(&self) -> (copy: MEM)
        ensures
            copy@ == self@,
    {
        MEM { mem: self.mem.clone() }
    }
}

impl MEM {
    /// A memory in which no cell was written.
    pub fn new() -> (m: MEM)
        ensures
            m@ == Map::<u32, u32>::empty(),
    {
        MEM { mem: HashMap::new() }
    }

    /// Reads the word at `addr` and leaves the memory as it is.
    pub fn peek(&self, addr: u32) -> (word: u32)
        ensures
            word == word_at(self@, addr),
    {
        match self.mem.get(&addr) {
            Some(word) => *word,
            None => 0,
        }
    }

    /// Reads the word at `addr`.
    pub fn load(&mut self, addr: u32) -> (word: u32)
        ensures
            word == word_at(old(self)@, addr),
            final(self)@ == old(self)@,
    {
        self.peek(addr)
    }

    /// Writes `val` to the cell at `addr`.
    pub fn store(&mut self, addr: u32, val: u32)
        ensures
            final(self)@ == old(self)@.insert(addr, val),
    {
        self.mem.insert(addr, val);
    }
}

} // verus!
