//! The bus between the CPU and its memory, with the two memory-mapped I/O
//! addresses.
//!
//! The bus does no I/O of its own. It holds the bytes that the host has
//! read from the input stream and that no load has consumed yet, and the
//! bytes that stores have sent to the output stream and that the host has
//! not yet collected.

use crate::mem::{word_at, MEM};
use std::collections::VecDeque;
use vstd::prelude::*;

verus! {

broadcast use vstd::std_specs::vecdeque::group_vec_dequeue_axioms;

/// A load from this address consumes one byte of the input stream.
pub const MMIO_INPUT: u32 = 0xffff_0004;

/// A store to this address sends the low byte of the word to the output
/// stream.
pub const MMIO_OUTPUT: u32 = 0xffff_000c;

/// What `peek` shows at `MMIO_INPUT`, so that looking at the memory round
/// it consumes no input.
pub const MMIO_INPUT_PEEK: u32 = 0x1010_1010;

/// The low eight bits of a word.
pub open spec fn low_byte(val: u32) -> u8 {
    (val & 0xff) as u8
}

/// The state of a bus: its memory and its two streams.
pub struct BusState {
    /// The written cells of the memory.
    pub mem: Map<u32, u32>,
    /// The input bytes that no load has consumed yet, oldest first.
    pub input: Seq<u8>,
    /// The output bytes that the host has not collected yet, oldest first.
    pub output: Seq<u8>,
}

impl BusState {
    /// The word that a look at `addr` shows.
    pub open spec fn peek(self, addr: u32) -> u32 {
        if addr == MMIO_INPUT {
            MMIO_INPUT_PEEK
        } else {
            word_at(self.mem, addr)
        }
    }

    /// Whether a load from `addr` can be served: away from `MMIO_INPUT`
    /// always, there only while an input byte is pending.
    pub open spec fn can_load(self, addr: u32) -> bool {
        addr == MMIO_INPUT ==> self.input.len() > 0
    }

    /// The word that a load from `addr` returns. At `MMIO_INPUT` it is the
    /// oldest pending input byte, zero-extended (and, to keep the function
    /// total, zero where none is pending).
    pub open spec fn loaded_word(self, addr: u32) -> u32 {
        if addr != MMIO_INPUT {
            word_at(self.mem, addr)
        } else if self.input.len() > 0 {
            self.input[0] as u32
        } else {
            0
        }
    }

    /// The bus after a load from `addr`: at `MMIO_INPUT` the oldest pending
    /// input byte is gone, elsewhere nothing has changed.
    pub open spec fn after_load(self, addr: u32) -> BusState {
        if addr == MMIO_INPUT && self.input.len() > 0 {
            BusState { input: self.input.drop_first(), ..self }
        } else {
            self
        }
    }

    /// The bus with the memory of `snapshot` and its own two streams.
    pub open spec fn restored(self, snapshot: BusState) -> BusState {
        BusState { mem: snapshot.mem, ..self }
    }

    /// The bus after a store of `val` to `addr`: at `MMIO_OUTPUT` the low
    /// byte of `val` joins the output, elsewhere the cell is written.
    pub open spec fn after_store(self, addr: u32, val: u32) -> BusState {
        if addr == MMIO_OUTPUT {
            BusState { output: self.output.push(low_byte(val)), ..self }
        } else {
            BusState { mem: self.mem.insert(addr, val), ..self }
        }
    }
}

/// Mediates the CPU's memory accesses.
#[derive(Debug)]
pub struct Bus {
    mem: MEM,
    input: VecDeque<u8>,
    output: Vec<u8>,
}

impl View for Bus {
    type V = BusState;

    closed spec fn view(&self) -> BusState {
        BusState { mem: self.mem@, input: self.input@, output: self.output@ }
    }
}

impl Clone for Bus {
    fn clone(&self) -> (copy: Bus)
        ensures
            copy@ == self@,
    {
        let input = self.input.clone();
        let output = self.output.clone();
        assert(input@ =~= self.input@);
        assert(output@ =~= self.output@);
        Bus { mem: self.mem.clone(), input, output }
    }
}

impl Bus {
    /// A bus over `mem`, with no input pending and no output waiting.
    pub fn new(mem: MEM) -> (bus: Bus)
        ensures
            bus@ == (BusState { mem: mem@, input: Seq::empty(), output: Seq::empty() }),
    {
        Bus { mem, input: VecDeque::new(), output: Vec::new() }
    }

    /// Reads the word at `addr` without any effect on the bus.
    pub fn peek(&self, addr: u32) -> (word: u32)
        ensures
            word == self@.peek(addr),
    {
        if addr == MMIO_INPUT {
            MMIO_INPUT_PEEK
        } else {
            self.mem.peek(addr)
        }
    }

    /// Reads the word at `addr`. A load from `MMIO_INPUT` consumes the
    /// oldest pending input byte and returns it zero-extended; the host
    /// must have supplied one.
    pub fn load(&mut self, addr: u32) -> (word: u32)
        requires
            old(self)@.can_load(addr),
        ensures
            word == old(self)@.loaded_word(addr),
            final(self)@ == old(self)@.after_load(addr),
    {
        if addr == MMIO_INPUT {
            let byte = self.input.pop_front().unwrap();
            assert(self.input@ =~= old(self).input@.drop_first());
            byte as u32
        } else {
            self.mem.load(addr)
        }
    }

    /// Writes `val` to `addr`. A store to `MMIO_OUTPUT` sends the low byte
    /// of `val` to the output stream and leaves the memory as it is.
    pub fn store(&mut self, addr: u32, val: u32)
        ensures
            final(self)@ == old(self)@.after_store(addr, val),
    {
        if addr == MMIO_OUTPUT {
            self.output.push((val & 0xff) as u8);
        } else {
            self.mem.store(addr, val);
        }
    }

    /// Takes the memory back to that of `snapshot`. The two streams stay
    /// as they are: what was consumed or sent is not undone.
    pub fn restore(&mut self, snapshot: Bus)
        ensures
            final(self)@ == old(self)@.restored(snapshot@),
    {
        self.mem = snapshot.mem;
    }

    /// Whether an input byte is pending.
    pub fn has_input(&self) -> (pending: bool)
        ensures
            pending == (self@.input.len() > 0),
    {
        self.input.len() > 0
    }

    /// Hands the bus the next byte of the input stream.
    pub fn feed_input(&mut self, byte: u8)
        ensures
            final(self)@ == (BusState { input: old(self)@.input.push(byte), ..old(self)@ }),
    {
        self.input.push_back(byte);
    }

    /// Collects the bytes sent to the output stream since the last call,
    /// oldest first.
    pub fn take_output(&mut self) -> (bytes: Vec<u8>)
        ensures
            bytes@ == old(self)@.output,
            final(self)@ == (BusState { output: Seq::empty(), ..old(self)@ }),
    {
        let mut bytes: Vec<u8> = Vec::new();
        std::mem::swap(&mut self.output, &mut bytes);
        bytes
    }
}

/// A word stored away from the two I/O addresses is what a look at its
/// address then shows, and a look at any other address shows what it
/// showed before.
pub proof fn lemma_store_then_peek(bus: BusState, addr: u32, val: u32)
    requires
        addr != MMIO_INPUT,
        addr != MMIO_OUTPUT,
    ensures
        bus.after_store(addr, val).peek(addr) == val,
        forall|other: u32| other != addr ==> bus.after_store(addr, val).peek(other) == bus.peek(other),
{
}

/// The bus after the stores `writes`, each an address with a word, made
/// in order.
pub open spec fn after_stores(bus: BusState, writes: Seq<(u32, u32)>) -> BusState
    decreases writes.len(),
{
    if writes.len() == 0 {
        bus
    } else {
        after_stores(bus, writes.drop_last()).after_store(writes.last().0, writes.last().1)
    }
}

/// A look at an address that was never written shows zero: on a bus that
/// started with an empty memory and saw only stores to other addresses,
/// every address but `MMIO_INPUT` reads as zero.
pub proof fn lemma_unwritten_reads_zero(bus: BusState, writes: Seq<(u32, u32)>, addr: u32)
    requires
        bus.mem == Map::<u32, u32>::empty(),
        addr != MMIO_INPUT,
        forall|k: int| 0 <= k < writes.len() ==> (#[trigger] writes[k]).0 != addr,
    ensures
        !after_stores(bus, writes).mem.contains_key(addr),
        after_stores(bus, writes).peek(addr) == 0,
        after_stores(bus, writes).loaded_word(addr) == 0,
    decreases writes.len(),
{
    if writes.len() > 0 {
        lemma_unwritten_reads_zero(bus, writes.drop_last(), addr);
        assert(writes.last() == writes[writes.len() - 1]);
    }
}

} // verus!
