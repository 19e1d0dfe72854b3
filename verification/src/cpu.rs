//! The CPU: the program counter, the register file, `hi` and `lo`, and the
//! fetch-step interpreter.

use crate::bus::{Bus, BusState, MMIO_INPUT};
use crate::instr::{decode, Instr, I, J, R};
use crate::mem::word_at;
use crate::word::{
    add32, div_signed, div_unsigned, high_word, low_word, mul_signed, mul_unsigned, signed, sub32,
    times4, to_signed, trunc_div, trunc_rem, word_of,
};
use crate::text::{
    decimal, decimal_2, hex8, padded, push_decimal_2, push_decimal_signed, push_hex8, push_padded,
};
use vstd::prelude::*;
use vstd::string::*;

verus! {

broadcast use vstd::array::group_array_axioms;

/// The return address that a new CPU holds in register 31. A step that
/// finds the program counter here halts: the program has returned.
pub const HALT_ADDR: u32 = 0x8123_456c;

/// What can go wrong in the CPU.
#[derive(Copy, Clone, Debug, PartialEq, Eq, Structural)]
pub enum Error {
    /// A register number is out of range.
    InvalidReg,
    /// The word at the program counter is no instruction.
    BadInstr,
}

/// A register of the CPU.
#[derive(Copy, Clone, Debug, PartialEq, Eq, Structural)]
pub enum Reg {
    /// The program counter.
    PC,
    /// The upper result register of multiplication and division.
    Hi,
    /// The lower result register of multiplication and division.
    Lo,
    /// The general purpose register with this number.
    Reg(usize),
}

/// The state of a CPU.
pub struct CpuState {
    /// The address of the next instruction.
    pub pc: u32,
    /// The 32 general purpose registers.
    pub regs: Seq<u32>,
    /// The upper result register.
    pub hi: u32,
    /// The lower result register.
    pub lo: u32,
    /// The bus with the memory and the two streams.
    pub bus: BusState,
}

/// How a step ends, and the state it leaves.
pub struct StepOutcome {
    /// The state after the step.
    pub state: CpuState,
    /// `Ok(true)` where an instruction was executed, `Ok(false)` where the
    /// CPU has halted, and the error where the step failed.
    pub result: Result<bool, Error>,
}

impl CpuState {
    /// The state of a new CPU on `bus` whose program starts at `load_addr`:
    /// the program counter and register 29 hold `load_addr`, register 30
    /// holds `0x01000000 + load_addr`, register 31 holds `HALT_ADDR`, and
    /// everything else is zero.
    pub open spec fn initial(bus: BusState, load_addr: u32) -> CpuState {
        CpuState {
            pc: load_addr,
            regs: Seq::new(
                32,
                |r: int|
                    if r == 29 {
                        load_addr
                    } else if r == 30 {
                        word_of(0x0100_0000 + load_addr)
                    } else if r == 31 {
                        HALT_ADDR
                    } else {
                        0
                    },
            ),
            hi: 0,
            lo: 0,
            bus,
        }
    }

    /// Whether the state has its 32 registers.
    pub open spec fn wf(self) -> bool {
        self.regs.len() == 32
    }

    /// The value of a register, where `reg` names one.
    pub open spec fn get(self, reg: Reg) -> Result<u32, Error> {
        match reg {
            Reg::PC => Ok(self.pc),
            Reg::Hi => Ok(self.hi),
            Reg::Lo => Ok(self.lo),
            Reg::Reg(r) => if r < 32 {
                Ok(self.regs[r as int])
            } else {
                Err(Error::InvalidReg)
            },
        }
    }

    /// The state with `val` in the register `reg`; the state itself where
    /// `reg` names no register.
    pub open spec fn set(self, reg: Reg, val: u32) -> CpuState {
        match reg {
            Reg::PC => CpuState { pc: val, ..self },
            Reg::Hi => CpuState { hi: val, ..self },
            Reg::Lo => CpuState { lo: val, ..self },
            Reg::Reg(r) => if r < 32 {
                self.with_reg(r as int, val)
            } else {
                self
            },
        }
    }

    /// The state with `val` in the general purpose register `r`.
    pub open spec fn with_reg(self, r: int, val: u32) -> CpuState {
        CpuState { regs: self.regs.update(r, val), ..self }
    }

    /// The state with the program counter at `pc`.
    pub open spec fn with_pc(self, pc: u32) -> CpuState {
        CpuState { pc, ..self }
    }

    /// The state after the fetch of a step: the word at the program
    /// counter was loaded and the program counter moved on by four.
    pub open spec fn fetched(self) -> CpuState {
        CpuState { pc: word_of(self.pc + 4), bus: self.bus.after_load(self.pc), ..self }
    }

    /// The state after `instr` was executed in the state `self`, which is
    /// the state after the fetch. Sums, differences and addresses are
    /// taken modulo 2^32. A branch goes four times its immediate away from
    /// the program counter, which has moved on already. `mult` and `div`
    /// read the registers as signed numbers, and `div` rounds towards zero.
    /// A division by zero changes nothing.
    pub open spec fn execute(self, instr: Instr) -> CpuState {
        match instr {
            Instr::Inval(_) => self,
            Instr::J { op, i } => match op {
                J::J => self.with_pc(word_of(4 * i)),
                J::JAL => self.with_reg(31, self.pc).with_pc(word_of(4 * i)),
            },
            Instr::I { op, s, t, i } => {
                let rs = self.regs[s as int];
                let rt = self.regs[t as int];
                match op {
                    I::BEQ => if rs == rt {
                        self.with_pc(word_of(self.pc + word_of(4 * i)))
                    } else {
                        self
                    },
                    I::BNE => if rs != rt {
                        self.with_pc(word_of(self.pc + word_of(4 * i)))
                    } else {
                        self
                    },
                    I::ADDI => self.with_reg(t as int, word_of(rs + i)),
                    I::LW => {
                        let addr = word_of(rs + i);
                        CpuState {
                            regs: self.regs.update(t as int, self.bus.loaded_word(addr)),
                            bus: self.bus.after_load(addr),
                            ..self
                        }
                    },
                    I::SW => CpuState { bus: self.bus.after_store(word_of(rs + i), rt), ..self },
                }
            },
            Instr::R { op, s, t, d } => {
                let rs = self.regs[s as int];
                let rt = self.regs[t as int];
                match op {
                    R::MFHI => self.with_reg(d as int, self.hi),
                    R::MFLO => self.with_reg(d as int, self.lo),
                    R::LIS => CpuState {
                        pc: word_of(self.pc + 4),
                        regs: self.regs.update(d as int, self.bus.loaded_word(self.pc)),
                        bus: self.bus.after_load(self.pc),
                        ..self
                    },
                    R::JR => self.with_pc(rs),
                    R::JALR => self.with_reg(31, self.pc).with_pc(rs),
                    R::MULT => CpuState {
                        hi: high_word(signed(rs) * signed(rt)),
                        lo: low_word(signed(rs) * signed(rt)),
                        ..self
                    },
                    R::MULTU => CpuState {
                        hi: high_word(rs * rt),
                        lo: low_word(rs * rt),
                        ..self
                    },
                    R::DIV => if rt == 0 {
                        self
                    } else {
                        CpuState {
                            hi: word_of(trunc_rem(signed(rs), signed(rt))),
                            lo: word_of(trunc_div(signed(rs), signed(rt))),
                            ..self
                        }
                    },
                    R::DIVU => if rt == 0 {
                        self
                    } else {
                        CpuState { hi: rs % rt, lo: rs / rt, ..self }
                    },
                    R::ADD => self.with_reg(d as int, word_of(rs + rt)),
                    R::SUB => self.with_reg(d as int, word_of(rs - rt)),
                    R::SLT => self.with_reg(
                        d as int,
                        if signed(rs) < signed(rt) {
                            1
                        } else {
                            0
                        },
                    ),
                    R::SLTU => self.with_reg(
                        d as int,
                        if rs < rt {
                            1
                        } else {
                            0
                        },
                    ),
                }
            },
        }
    }

    /// One step of the CPU. At `HALT_ADDR` nothing happens and the CPU
    /// has halted. Otherwise the word at the program counter is fetched;
    /// where it is no instruction the step fails after the fetch, and
    /// where it is one, it is executed and register 0 is set to zero.
    pub open spec fn step(self) -> StepOutcome {
        if self.pc == HALT_ADDR {
            StepOutcome { state: self, result: Ok(false) }
        } else {
            let instr = decode(self.bus.loaded_word(self.pc));
            if instr is Inval {
                StepOutcome { state: self.fetched(), result: Err(Error::BadInstr) }
            } else {
                StepOutcome {
                    state: self.fetched().execute(instr).with_reg(0, 0),
                    result: Ok(true),
                }
            }
        }
    }

    /// Whether two states differ in nothing but the two streams: they
    /// agree on the program counter, all registers, `hi`, `lo` and the
    /// memory.
    pub open spec fn same_machine(self, other: CpuState) -> bool {
        &&& self.pc == other.pc
        &&& self.regs == other.regs
        &&& self.hi == other.hi
        &&& self.lo == other.lo
        &&& self.bus.mem == other.bus.mem
    }

    /// Whether two states look the same from outside: they agree on the
    /// program counter, all registers, `hi` and `lo`, a look at any address
    /// shows the same word in both, and the same input is pending.
    pub open spec fn looks_like(self, other: CpuState) -> bool {
        &&& self.pc == other.pc
        &&& self.regs == other.regs
        &&& self.hi == other.hi
        &&& self.lo == other.lo
        &&& self.bus.input == other.bus.input
        &&& forall|addr: u32| #[trigger] self.bus.peek(addr) == other.bus.peek(addr)
    }

    /// The state `snapshot` with the two streams of `self`.
    pub open spec fn restored(self, snapshot: CpuState) -> CpuState {
        CpuState { bus: self.bus.restored(snapshot.bus), ..snapshot }
    }

    /// The output bytes that the next step sends.
    pub open spec fn step_output(self) -> Seq<u8> {
        self.step().state.bus.output.skip(self.bus.output.len() as int)
    }

    /// The text for the register `r` with the value `val`: the number in
    /// two digits, the value in hexadecimal and, in brackets and filled up
    /// with spaces to thirteen characters, as a signed number.
    pub open spec fn reg_entry(r: nat, val: u32) -> Seq<char> {
        "$"@ + decimal_2(r) + " = 0x"@ + hex8(val) + " "@ + padded(
            "("@ + decimal(signed(val)) + ")"@,
            13,
        )
    }

    /// What stands before the entry of the register `r`: nothing before
    /// the first, a line end before every fourth after it, a space before
    /// the others.
    pub open spec fn reg_separator(r: int) -> Seq<char> {
        if r <= 1 {
            Seq::empty()
        } else if (r - 1) % 4 == 0 {
            "\n"@
        } else {
            " "@
        }
    }

    /// The entries of the registers 1 to `count`, four to a line.
    pub open spec fn reg_entries(self, count: int) -> Seq<char>
        decreases count,
    {
        if count <= 0 {
            Seq::empty()
        } else {
            self.reg_entries(count - 1) + CpuState::reg_separator(count) + CpuState::reg_entry(
                count as nat,
                self.regs[count],
            )
        }
    }

    /// The registers as text: the entries of the registers 1 to 31, four
    /// to a line, and the program counter.
    pub open spec fn text(self) -> Seq<char> {
        self.reg_entries(31) + " $pc = 0x"@ + hex8(self.pc)
    }

    /// The address from which the instruction in memory at the program
    /// counter loads a word when it is executed, if it loads one: the
    /// operand of `lw`, and the word after the instruction for `lis`.
    pub open spec fn data_load_addr(self) -> Option<u32> {
        match decode(word_at(self.bus.mem, self.pc)) {
            Instr::I { op: I::LW, s, t, i } => Some(word_of(self.regs[s as int] + i)),
            Instr::R { op: R::LIS, s, t, d } => Some(word_of(self.pc + 4)),
            _ => None,
        }
    }

    /// Whether the next step consumes a byte of the input stream: the CPU
    /// has not halted and either fetches its instruction from `MMIO_INPUT`
    /// or executes one that loads from there.
    pub open spec fn awaits_input(self) -> bool {
        self.pc != HALT_ADDR && (self.pc == MMIO_INPUT || self.data_load_addr() == Some(
            MMIO_INPUT,
        ))
    }

    /// Whether a step can be made: where it consumes an input byte, one is
    /// pending.
    pub open spec fn can_step(self) -> bool {
        self.awaits_input() ==> self.bus.input.len() > 0
    }
}

/// A MIPS CPU with its bus.
#[derive(Debug)]
pub struct CPU {
    /// The address space.
    mem: Bus,
    /// The program counter.
    pc: u32,
    /// The general purpose registers.
    reg: [u32; 32],
    /// The upper result register.
    hi: u32,
    /// The lower result register.
    lo: u32,
}

impl View for CPU {
    type V = CpuState;

    closed spec fn view(&self) -> CpuState {
        CpuState { pc: self.pc, regs: self.reg@, hi: self.hi, lo: self.lo, bus: self.mem@ }
    }
}

impl Clone for CPU {
    fn clone(&self) -> (copy: CPU)
        ensures
            copy@ == self@,
    {
        CPU { mem: self.mem.clone(), pc: self.pc, reg: self.reg, hi: self.hi, lo: self.lo }
    }
}

impl CPU {
    /// Every CPU has its 32 registers.
    pub proof fn lemma_wf(&self)
        ensures
            self@.wf(),
    {
    }

    /// A CPU on `mem` that starts at `load_addr`.
    pub fn new(mem: Bus, load_addr: u32) -> (cpu: CPU)
        ensures
            cpu@ == CpuState::initial(mem@, load_addr),
    {
        let mut cpu = CPU { mem, pc: load_addr, reg: [0; 32], hi: 0, lo: 0 };
        cpu.reg[29] = load_addr;
        cpu.reg[30] = add32(0x0100_0000, load_addr);
        cpu.reg[31] = HALT_ADDR;
        assert(cpu@.regs =~= CpuState::initial(mem@, load_addr).regs);
        cpu
    }

    /// Looks at a location of the address space, without any effect.
    pub fn peek(&self, addr: u32) -> (word: u32)
        ensures
            word == self@.bus.peek(addr),
    {
        self.mem.peek(addr)
    }

    /// Loads a word from the address space. A load from `MMIO_INPUT`
    /// consumes the oldest pending input byte; the host must have supplied
    /// one.
    pub fn load(&mut self, addr: u32) -> (word: u32)
        requires
            old(self)@.bus.can_load(addr),
        ensures
            word == old(self)@.bus.loaded_word(addr),
            final(self)@ == (CpuState { bus: old(self)@.bus.after_load(addr), ..old(self)@ }),
    {
        self.mem.load(addr)
    }

    /// Stores a word into the address space.
    pub fn store(&mut self, addr: u32, val: u32)
        ensures
            final(self)@ == (CpuState { bus: old(self)@.bus.after_store(addr, val), ..old(self)@ }),
    {
        self.mem.store(addr, val)
    }

    /// Sets a register. Fails with `InvalidReg`, and changes nothing,
    /// where `reg` is a general purpose register with a number of 32 or
    /// more.
    pub fn set_reg(&mut self, reg: Reg, val: u32) -> (res: Result<(), Error>)
        ensures
            final(self)@ == old(self)@.set(reg, val),
            res == (if old(self)@.get(reg) is Ok {
                Ok::<(), Error>(())
            } else {
                Err(Error::InvalidReg)
            }),
    {
        match reg {
            Reg::PC => self.pc = val,
            Reg::Hi => self.hi = val,
            Reg::Lo => self.lo = val,
            Reg::Reg(r) => {
                if r >= 32 {
                    return Err(Error::InvalidReg);
                }
                self.reg[r] = val;
            },
        }
        Ok(())
    }

    /// Reads a register. Fails with `InvalidReg` where `reg` is a general
    /// purpose register with a number of 32 or more.
    pub fn get_reg(&self, reg: Reg) -> (res: Result<u32, Error>)
        ensures
            res == self@.get(reg),
    {
        let val = match reg {
            Reg::PC => self.pc,
            Reg::Hi => self.hi,
            Reg::Lo => self.lo,
            Reg::Reg(r) => {
                if r >= 32 {
                    return Err(Error::InvalidReg);
                }
                self.reg[r]
            },
        };
        Ok(val)
    }

    /// Whether the next step consumes a byte of the input stream. The host
    /// asks this before a step, and supplies a byte where none is pending.
    pub fn awaits_input(&self) -> (awaited: bool)
        ensures
            awaited == self@.awaits_input(),
    {
        if self.pc == HALT_ADDR {
            false
        } else if self.pc == MMIO_INPUT {
            true
        } else {
            match Instr::from_u32(self.mem.peek(self.pc)) {
                Instr::I { op: I::LW, s, t, i } => add32(self.reg[s], i) == MMIO_INPUT,
                Instr::R { op: R::LIS, s, t, d } => add32(self.pc, 4) == MMIO_INPUT,
                _ => false,
            }
        }
    }

    /// Whether an input byte is pending on the bus.
    pub fn has_input(&self) -> (pending: bool)
        ensures
            pending == (self@.bus.input.len() > 0),
    {
        self.mem.has_input()
    }

    /// Hands the bus the next byte of the input stream.
    pub fn feed_input(&mut self, byte: u8)
        ensures
            final(self)@ == (CpuState {
                bus: BusState { input: old(self)@.bus.input.push(byte), ..old(self)@.bus },
                ..old(self)@
            }),
    {
        self.mem.feed_input(byte)
    }

    /// Collects the bytes sent to the output stream since the last call,
    /// oldest first.
    pub fn take_output(&mut self) -> (bytes: Vec<u8>)
        ensures
            bytes@ == old(self)@.bus.output,
            final(self)@ == (CpuState {
                bus: BusState { output: Seq::empty(), ..old(self)@.bus },
                ..old(self)@
            }),
    {
        self.mem.take_output()
    }

    /// Takes the program counter, the registers, `hi`, `lo` and the memory
    /// back to those of `snapshot`. The two streams stay as they are: what
    /// was consumed or sent is not undone.
    pub fn restore(&mut self, snapshot: CPU)
        ensures
            final(self)@ == old(self)@.restored(snapshot@),
    {
        self.pc = snapshot.pc;
        self.reg = snapshot.reg;
        self.hi = snapshot.hi;
        self.lo = snapshot.lo;
        self.mem.restore(snapshot.mem);
    }

    /// Adds the registers as text to `out`.
    pub fn write_to(&self, out: &mut String)
        ensures
            final(out)@ == old(out)@ + self@.text(),
    {
        let mut r: usize = 1;
        assert(out@ =~= old(out)@ + self@.reg_entries(0));
        while r < 32
            invariant
                1 <= r <= 32,
                out@ == old(out)@ + self@.reg_entries(r - 1),
            decreases 32 - r,
        {
            if r > 1 {
                if (r - 1) % 4 == 0 {
                    out.append("\n");
                } else {
                    out.append(" ");
                }
            }
            let val = self.reg[r];
            out.append("$");
            push_decimal_2(out, r);
            out.append(" = 0x");
            push_hex8(out, val);
            out.append(" ");
            let mut number = String::from_str("(");
            push_decimal_signed(&mut number, val);
            number.append(")");
            push_padded(out, number.as_str(), 13);
            assert(out@ =~= old(out)@ + self@.reg_entries(r as int));
            r = r + 1;
        }
        out.append(" $pc = 0x");
        push_hex8(out, self.pc);
        assert(out@ =~= old(out)@ + self@.text());
    }

    /// The registers as text.
    pub fn to_string(&self) -> (text: String)
        ensures
            text@ == self@.text(),
    {
        let mut text = String::new();
        self.write_to(&mut text);
        assert(text@ =~= self@.text());
        text
    }

    /// Ticks the CPU forward by one instruction. Returns whether the CPU
    /// is still running: `Ok(false)` says that the program counter is at
    /// `HALT_ADDR`. Fails with `BadInstr`, after the fetch, where the word
    /// at the program counter is no instruction.
    ///
    /// A step that executes an instruction leaves zero in register 0,
    /// whatever the instruction wrote there, and no step puts anything but
    /// zero there.
    pub fn step(&mut self) -> (res: Result<bool, Error>)
        requires
            old(self)@.can_step(),
        ensures
            final(self)@ == old(self)@.step().state,
            res == old(self)@.step().result,
            res == Ok::<bool, Error>(true) || old(self)@.regs[0] == 0 ==> final(self)@.regs[0]
                == 0,
    {
        // A jump back to the caller of the program ends the run.
        if self.pc == HALT_ADDR {
            return Ok(false);
        }
        proof {
            if self.pc == MMIO_INPUT {
                lemma_input_byte_is_no_load(self@);
            }
        }
        let instr = Instr::from_u32(self.mem.load(self.pc));
        self.pc = add32(self.pc, 4);
        let ghost fetched = self@;
        assert(fetched == old(self)@.fetched());

        match instr {
            Instr::Inval(_) => return Err(Error::BadInstr),
            Instr::J { op, i } => match op {
                J::J => self.pc = times4(i),
                J::JAL => {
                    self.reg[31] = self.pc;
                    self.pc = times4(i);
                },
            },
            Instr::I { op, s, t, i } => match op {
                I::BEQ => {
                    if self.reg[s] == self.reg[t] {
                        self.pc = add32(self.pc, times4(i));
                    }
                },
                I::BNE => {
                    if self.reg[s] != self.reg[t] {
                        self.pc = add32(self.pc, times4(i));
                    }
                },
                I::ADDI => self.reg[t] = add32(self.reg[s], i),
                I::LW => {
                    let word = self.mem.load(add32(self.reg[s], i));
                    self.reg[t] = word;
                },
                I::SW => self.mem.store(add32(self.reg[s], i), self.reg[t]),
            },
            Instr::R { op, s, t, d } => match op {
                R::MFHI => self.reg[d] = self.hi,
                R::MFLO => self.reg[d] = self.lo,
                R::LIS => {
                    let word = self.mem.load(self.pc);
                    self.reg[d] = word;
                    self.pc = add32(self.pc, 4);
                },
                R::JR => self.pc = self.reg[s],
                R::JALR => {
                    let target = self.reg[s];
                    self.reg[31] = self.pc;
                    self.pc = target;
                },
                R::MULT => {
                    let (hi, lo) = mul_signed(self.reg[s], self.reg[t]);
                    self.hi = hi;
                    self.lo = lo;
                },
                R::MULTU => {
                    let (hi, lo) = mul_unsigned(self.reg[s], self.reg[t]);
                    self.hi = hi;
                    self.lo = lo;
                },
                R::DIV => {
                    if self.reg[t] != 0 {
                        let (rem, quot) = div_signed(self.reg[s], self.reg[t]);
                        self.hi = rem;
                        self.lo = quot;
                    }
                },
                R::DIVU => {
                    if self.reg[t] != 0 {
                        let (rem, quot) = div_unsigned(self.reg[s], self.reg[t]);
                        self.hi = rem;
                        self.lo = quot;
                    }
                },
                R::ADD => self.reg[d] = add32(self.reg[s], self.reg[t]),
                R::SUB => self.reg[d] = sub32(self.reg[s], self.reg[t]),
                R::SLT => {
                    let less = to_signed(self.reg[s]) < to_signed(self.reg[t]);
                    self.reg[d] = if less {
                        1
                    } else {
                        0
                    };
                },
                R::SLTU => {
                    let less = self.reg[s] < self.reg[t];
                    self.reg[d] = if less {
                        1
                    } else {
                        0
                    };
                },
            },
        }
        assert(self@ == fetched.execute(instr));

        // Register 0 is always zero.
        self.reg[0] = 0;

        Ok(true)
    }
}

/// A word fetched from `MMIO_INPUT` is an input byte, and a byte is never
/// an immediate-mode instruction: a step consumes at most one input byte.
pub proof fn lemma_input_byte_is_no_load(cpu: CpuState)
    requires
        cpu.pc == MMIO_INPUT,
    ensures
        !(decode(cpu.bus.loaded_word(cpu.pc)) is I),
        word_of(cpu.pc + 4) != MMIO_INPUT,
{
    let word = cpu.bus.loaded_word(cpu.pc);
    assert(word < 256);
    assert(word >> 26 == 0) by (bit_vector)
        requires
            word < 256,
    ;
}

/// A step that executes an instruction leaves zero in register 0,
/// whatever the instruction wrote there, and no step puts anything but zero
/// there. (A step that executes nothing, at `HALT_ADDR` or on a word that is
/// no instruction, leaves register 0 as it is.)
pub proof fn lemma_step_register_zero(cpu: CpuState)
    requires
        cpu.wf(),
    ensures
        cpu.step().result == Ok::<bool, Error>(true) ==> cpu.step().state.regs[0] == 0,
        cpu.step().result != Ok::<bool, Error>(true) ==> cpu.step().state.regs[0] == cpu.regs[0],
        cpu.step().result == Ok::<bool, Error>(true) || cpu.regs[0] == 0 ==> cpu.step().state.regs[0]
            == 0,
{
    crate::instr::lemma_decode_wf(cpu.bus.loaded_word(cpu.pc));
}

/// A step keeps the 32 registers, and sends at most one byte, after those
/// that were waiting.
pub proof fn lemma_step_shape(cpu: CpuState)
    requires
        cpu.wf(),
    ensures
        cpu.step().state.wf(),
        cpu.step_output().len() <= 1,
        cpu.step().state.bus.output == cpu.bus.output + cpu.step_output(),
{
    crate::instr::lemma_decode_wf(cpu.bus.loaded_word(cpu.pc));
    let next = cpu.step().state;
    assert(next.bus.output == cpu.bus.output + cpu.step_output());
}

/// A step takes from the input stream the one byte it consumes where it
/// awaits input, and nothing where it does not.
pub proof fn lemma_step_input(cpu: CpuState)
    requires
        cpu.wf(),
        cpu.can_step(),
    ensures
        cpu.step().state.bus.input == (if cpu.awaits_input() {
            cpu.bus.input.drop_first()
        } else {
            cpu.bus.input
        }),
{
    if cpu.pc == MMIO_INPUT {
        lemma_input_byte_is_no_load(cpu);
    }
}

/// Two states that agree on the machine, and on the word that `instr`
/// loads where it loads one, agree on the machine after `instr`, and
/// `instr` sends the same bytes from both.
pub proof fn lemma_execute_deterministic(a: CpuState, b: CpuState, instr: Instr)
    requires
        a.wf(),
        b.wf(),
        instr.wf(),
        a.same_machine(b),
        instr matches Instr::I { op: I::LW, s, t, i } ==> a.bus.loaded_word(
            word_of(a.regs[s as int] + i),
        ) == b.bus.loaded_word(word_of(a.regs[s as int] + i)),
        instr matches Instr::R { op: R::LIS, s, t, d } ==> a.bus.loaded_word(a.pc)
            == b.bus.loaded_word(a.pc),
    ensures
        a.execute(instr).same_machine(b.execute(instr)),
        a.execute(instr).bus.output.skip(a.bus.output.len() as int) == b.execute(
            instr,
        ).bus.output.skip(b.bus.output.len() as int),
{
    let (x, y) = (a.execute(instr), b.execute(instr));
    match instr {
        Instr::I { op: I::SW, s, t, i } => {
            assert(x.bus.output.skip(a.bus.output.len() as int) =~= y.bus.output.skip(
                b.bus.output.len() as int,
            ));
        },
        _ => {
            assert(x.bus.output == a.bus.output);
            assert(y.bus.output == b.bus.output);
            assert(x.bus.output.skip(a.bus.output.len() as int) =~= y.bus.output.skip(
                b.bus.output.len() as int,
            ));
        },
    }
}

/// A step is a function of the machine and of the next input byte, where
/// it consumes one: two states that agree on the program counter, the
/// registers, `hi`, `lo` and the memory, and on the oldest pending input
/// byte where the step awaits input, end the step with the same result,
/// agree again, and have sent the same bytes.
pub proof fn lemma_step_deterministic(a: CpuState, b: CpuState)
    requires
        a.wf(),
        b.wf(),
        a.same_machine(b),
        a.can_step(),
        b.can_step(),
        a.awaits_input() ==> a.bus.input[0] == b.bus.input[0],
    ensures
        a.awaits_input() == b.awaits_input(),
        a.step().result == b.step().result,
        a.step().state.same_machine(b.step().state),
        a.step_output() == b.step_output(),
{
    if a.pc == HALT_ADDR {
        assert(a.step_output() =~= b.step_output());
    } else {
        if a.pc == MMIO_INPUT {
            lemma_input_byte_is_no_load(a);
            lemma_input_byte_is_no_load(b);
        }
        let word = a.bus.loaded_word(a.pc);
        assert(word == b.bus.loaded_word(b.pc));
        let instr = decode(word);
        crate::instr::lemma_decode_wf(word);
        let (fa, fb) = (a.fetched(), b.fetched());
        assert(fa.same_machine(fb));
        assert(fa.bus.output == a.bus.output && fb.bus.output == b.bus.output);
        if instr is Inval {
            assert(a.step_output() =~= b.step_output());
        } else {
            lemma_execute_deterministic(fa, fb, instr);
            let (xa, xb) = (fa.execute(instr), fb.execute(instr));
            assert(a.step().state == xa.with_reg(0, 0));
            assert(b.step().state == xb.with_reg(0, 0));
            assert(a.step_output() =~= b.step_output());
        }
    }
}

/// Two states that look the same load the same word from every address.
pub proof fn lemma_same_look_loads(a: CpuState, b: CpuState, addr: u32)
    requires
        a.looks_like(b),
    ensures
        a.bus.loaded_word(addr) == b.bus.loaded_word(addr),
        a.bus.after_load(addr).input == b.bus.after_load(addr).input,
        a.bus.after_load(addr).mem == a.bus.mem,
        b.bus.after_load(addr).mem == b.bus.mem,
        a.bus.after_load(addr).output == a.bus.output,
        b.bus.after_load(addr).output == b.bus.output,
{
    assert(a.bus.peek(addr) == b.bus.peek(addr));
}

/// A step is a function of what can be seen of the machine, and of the
/// input that is pending: two states with the same program counter,
/// registers, `hi` and `lo`, the same word at every address and the same
/// pending input end the step with the same result, look the same again,
/// and have sent the same bytes.
pub proof fn lemma_step_same_look(a: CpuState, b: CpuState)
    requires
        a.wf(),
        b.wf(),
        a.looks_like(b),
    ensures
        a.step().result == b.step().result,
        a.step().state.looks_like(b.step().state),
        a.step_output() == b.step_output(),
{
    if a.pc == HALT_ADDR {
        assert(a.step_output() =~= b.step_output());
    } else {
        lemma_same_look_loads(a, b, a.pc);
        let word = a.bus.loaded_word(a.pc);
        let instr = decode(word);
        crate::instr::lemma_decode_wf(word);
        let (fa, fb) = (a.fetched(), b.fetched());
        assert forall|addr: u32| #[trigger] fa.bus.peek(addr) == fb.bus.peek(addr) by {
            assert(a.bus.peek(addr) == b.bus.peek(addr));
        }
        assert(fa.looks_like(fb));
        if instr is Inval {
            assert(a.step_output() =~= b.step_output());
        } else {
            lemma_execute_same_look(fa, fb, instr);
            let (xa, xb) = (fa.execute(instr), fb.execute(instr));
            let (na, nb) = (a.step().state, b.step().state);
            assert(na == xa.with_reg(0, 0));
            assert(nb == xb.with_reg(0, 0));
            assert forall|addr: u32| #[trigger] na.bus.peek(addr) == nb.bus.peek(addr) by {
                assert(xa.bus.peek(addr) == xb.bus.peek(addr));
            }
            assert(a.step_output() =~= b.step_output());
        }
    }
}

/// Two states that look the same look the same after `instr`, and `instr`
/// sends the same bytes from both.
pub proof fn lemma_execute_same_look(a: CpuState, b: CpuState, instr: Instr)
    requires
        a.wf(),
        b.wf(),
        instr.wf(),
        a.looks_like(b),
    ensures
        a.execute(instr).looks_like(b.execute(instr)),
        a.execute(instr).bus.output.skip(a.bus.output.len() as int) == b.execute(
            instr,
        ).bus.output.skip(b.bus.output.len() as int),
{
    let (x, y) = (a.execute(instr), b.execute(instr));
    match instr {
        Instr::I { op: I::SW, s, t, i } => {
            let addr = word_of(a.regs[s as int] + i);
            assert forall|other: u32| #[trigger] x.bus.peek(other) == y.bus.peek(other) by {
                assert(a.bus.peek(other) == b.bus.peek(other));
            }
            assert(x.bus.output.skip(a.bus.output.len() as int) =~= y.bus.output.skip(
                b.bus.output.len() as int,
            ));
        },
        Instr::I { op: I::LW, s, t, i } => {
            let addr = word_of(a.regs[s as int] + i);
            lemma_same_look_loads(a, b, addr);
            assert forall|other: u32| #[trigger] x.bus.peek(other) == y.bus.peek(other) by {
                assert(a.bus.peek(other) == b.bus.peek(other));
            }
            assert(x.bus.output.skip(a.bus.output.len() as int) =~= y.bus.output.skip(
                b.bus.output.len() as int,
            ));
        },
        Instr::R { op: R::LIS, s, t, d } => {
            lemma_same_look_loads(a, b, a.pc);
            assert forall|other: u32| #[trigger] x.bus.peek(other) == y.bus.peek(other) by {
                assert(a.bus.peek(other) == b.bus.peek(other));
            }
            assert(x.bus.output.skip(a.bus.output.len() as int) =~= y.bus.output.skip(
                b.bus.output.len() as int,
            ));
        },
        _ => {
            assert(x.bus == a.bus);
            assert(y.bus == b.bus);
            assert forall|other: u32| #[trigger] x.bus.peek(other) == y.bus.peek(other) by {
                assert(a.bus.peek(other) == b.bus.peek(other));
            }
            assert(x.bus.output.skip(a.bus.output.len() as int) =~= y.bus.output.skip(
                b.bus.output.len() as int,
            ));
        },
    }
}

} // verus!
