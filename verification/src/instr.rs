//! Instructions and the decoder from 32-bit words.
//!
//! Bit 31 is the most significant bit of an instruction word. Bits 31..26
//! hold the primary opcode, bits 25..21 the register `s`, bits 20..16 the
//! register `t`, bits 15..11 the register `d`, bits 15..0 the immediate of
//! an immediate-mode instruction and bits 25..0 the target of a jump. A
//! word whose primary opcode is zero is in register mode, and its low eight
//! bits hold the function code.

use crate::text::{
    decimal, hex8, push_decimal_signed, push_decimal_signed_16, push_hex8, push_reg, reg_name,
    signed_16,
};
use crate::word::signed;
use vstd::prelude::*;
use vstd::string::*;

verus! {

/// Register-mode opcodes.
#[derive(Copy, Clone, Debug, PartialEq, Eq, Structural)]
pub enum R {
    MFHI,
    MFLO,
    LIS,
    JR,
    JALR,
    MULT,
    MULTU,
    DIV,
    DIVU,
    ADD,
    SUB,
    SLT,
    SLTU,
}

/// Immediate-mode opcodes.
#[derive(Copy, Clone, Debug, PartialEq, Eq, Structural)]
pub enum I {
    BEQ,
    BNE,
    ADDI,
    LW,
    SW,
}

/// Jump-mode opcodes.
#[derive(Copy, Clone, Debug, PartialEq, Eq, Structural)]
pub enum J {
    J,
    JAL,
}

/// A MIPS instruction: an opcode with its operands, or a word that is no
/// instruction.
#[allow(inconsistent_fields)]
#[derive(Copy, Clone, Debug, PartialEq, Eq, Structural)]
pub enum Instr {
    /// A jump to the 26-bit target `i`.
    J { op: J, i: u32 },
    /// An immediate-mode instruction on the registers `s` and `t`; `i` is
    /// the 16-bit immediate, sign-extended to 32 bits.
    I { op: I, s: usize, t: usize, i: u32 },
    /// A register-mode instruction on the registers `s`, `t` and `d`.
    R { op: R, s: usize, t: usize, d: usize },
    /// A word that matches no known instruction.
    Inval(u32),
}

impl R {
    /// The function code of the opcode.
    pub open spec fn code(self) -> u8 {
        match self {
            R::MFHI => 0x10,
            R::MFLO => 0x12,
            R::LIS => 0x14,
            R::JR => 0x08,
            R::JALR => 0x09,
            R::MULT => 0x18,
            R::MULTU => 0x19,
            R::DIV => 0x1a,
            R::DIVU => 0x1b,
            R::ADD => 0x20,
            R::SUB => 0x22,
            R::SLT => 0x2a,
            R::SLTU => 0x2b,
        }
    }

    /// The opcode with the function code `n`, if there is one.
    pub open spec fn with_code(n: u8) -> Option<R> {
        if exists|op: R| op.code() == n {
            Some(choose|op: R| op.code() == n)
        } else {
            None
        }
    }

    /// No two opcodes share a function code, so `with_code` is the inverse
    /// of `code`.
    pub proof fn lemma_code_inverse(op: R)
        ensures
            R::with_code(op.code()) == Some(op),
    {
        let found = choose|other: R| other.code() == op.code();
        assert(found.code() == op.code());
    }

    /// Converts a function code into its opcode.
    pub fn from_raw_op(n: u8) -> (res: Option<R>)
        ensures
            res == R::with_code(n),
    {
        let op = match n {
            0x10 => R::MFHI,
            0x12 => R::MFLO,
            0x14 => R::LIS,
            0x08 => R::JR,
            0x09 => R::JALR,
            0x18 => R::MULT,
            0x19 => R::MULTU,
            0x1a => R::DIV,
            0x1b => R::DIVU,
            0x20 => R::ADD,
            0x22 => R::SUB,
            0x2a => R::SLT,
            0x2b => R::SLTU,
            _ => {
                assert(forall|op: R| op.code() != n);
                return None;
            },
        };
        proof {
            R::lemma_code_inverse(op);
        }
        Some(op)
    }
}

impl I {
    /// The primary opcode.
    pub open spec fn code(self) -> u8 {
        match self {
            I::BEQ => 0x04,
            I::BNE => 0x05,
            I::ADDI => 0x08,
            I::LW => 0x23,
            I::SW => 0x2b,
        }
    }

    /// The opcode with the primary opcode `n`, if there is one.
    pub open spec fn with_code(n: u8) -> Option<I> {
        if exists|op: I| op.code() == n {
            Some(choose|op: I| op.code() == n)
        } else {
            None
        }
    }

    /// No two opcodes share a primary opcode, so `with_code` is the
    /// inverse of `code`.
    pub proof fn lemma_code_inverse(op: I)
        ensures
            I::with_code(op.code()) == Some(op),
    {
        let found = choose|other: I| other.code() == op.code();
        assert(found.code() == op.code());
    }

    /// Converts a primary opcode into its immediate-mode opcode.
    pub fn from_raw_op(n: u8) -> (res: Option<I>)
        ensures
            res == I::with_code(n),
    {
        let op = match n {
            0x04 => I::BEQ,
            0x05 => I::BNE,
            0x08 => I::ADDI,
            0x23 => I::LW,
            0x2b => I::SW,
            _ => {
                assert(forall|op: I| op.code() != n);
                return None;
            },
        };
        proof {
            I::lemma_code_inverse(op);
        }
        Some(op)
    }
}

impl J {
    /// The primary opcode.
    pub open spec fn code(self) -> u8 {
        match self {
            J::J => 0x02,
            J::JAL => 0x03,
        }
    }

    /// The opcode with the primary opcode `n`, if there is one.
    pub open spec fn with_code(n: u8) -> Option<J> {
        if exists|op: J| op.code() == n {
            Some(choose|op: J| op.code() == n)
        } else {
            None
        }
    }

    /// No two opcodes share a primary opcode, so `with_code` is the
    /// inverse of `code`.
    pub proof fn lemma_code_inverse(op: J)
        ensures
            J::with_code(op.code()) == Some(op),
    {
        let found = choose|other: J| other.code() == op.code();
        assert(found.code() == op.code());
    }

    /// Converts a primary opcode into its jump-mode opcode.
    pub fn from_raw_op(n: u8) -> (res: Option<J>)
        ensures
            res == J::with_code(n),
    {
        let op = match n {
            0x02 => J::J,
            0x03 => J::JAL,
            _ => {
                assert(forall|op: J| op.code() != n);
                return None;
            },
        };
        proof {
            J::lemma_code_inverse(op);
        }
        Some(op)
    }
}

/// The primary opcode of a word: bits 31..26.
pub open spec fn field_top6(raw: u32) -> u32 {
    raw >> 26
}

/// The register `s` of a word: bits 25..21.
pub open spec fn field_s(raw: u32) -> u32 {
    (raw >> 21) & 0x1f
}

/// The register `t` of a word: bits 20..16.
pub open spec fn field_t(raw: u32) -> u32 {
    (raw >> 16) & 0x1f
}

/// The register `d` of a word: bits 15..11.
pub open spec fn field_d(raw: u32) -> u32 {
    (raw >> 11) & 0x1f
}

/// The function code of a register-mode word: its low eight bits.
pub open spec fn field_funct(raw: u32) -> u32 {
    raw & 0xff
}

/// The jump target of a word: bits 25..0.
pub open spec fn field_target(raw: u32) -> u32 {
    raw & 0x03ff_ffff
}

/// The sixteen low bits of a word, sign-extended to 32 bits: bit 15 is
/// copied into bits 31..16.
pub open spec fn sign_extend_16(raw: u32) -> u32 {
    if raw & 0x8000 == 0 {
        raw & 0xffff
    } else {
        (raw & 0xffff) | 0xffff_0000
    }
}

/// Whether `imm` is a 16-bit value that was sign-extended to 32 bits: its
/// bits 31..15 are all equal.
pub open spec fn is_sign_extended_16(imm: u32) -> bool {
    imm < 0x8000 || imm >= 0xffff_8000
}

/// The instruction that a word stands for.
pub open spec fn decode(raw: u32) -> Instr {
    let top6 = field_top6(raw);
    if top6 == 0 {
        match R::with_code(field_funct(raw) as u8) {
            Some(op) => Instr::R {
                op,
                s: field_s(raw) as usize,
                t: field_t(raw) as usize,
                d: field_d(raw) as usize,
            },
            None => Instr::Inval(raw),
        }
    } else if top6 == 2 || top6 == 3 {
        match J::with_code(top6 as u8) {
            Some(op) => Instr::J { op, i: field_target(raw) },
            None => Instr::Inval(raw),
        }
    } else {
        match I::with_code(top6 as u8) {
            Some(op) => Instr::I {
                op,
                s: field_s(raw) as usize,
                t: field_t(raw) as usize,
                i: sign_extend_16(raw),
            },
            None => Instr::Inval(raw),
        }
    }
}

/// The word made by putting each operand of `instr` into its field, with
/// zeros in the bits that no field covers. For `Inval` it is the word
/// itself.
pub open spec fn encode(instr: Instr) -> u32 {
    match instr {
        Instr::R { op, s, t, d } => ((s as u32) << 21) | ((t as u32) << 16) | ((d as u32) << 11) | (
        op.code() as u32),
        Instr::I { op, s, t, i } => ((op.code() as u32) << 26) | ((s as u32) << 21) | ((t as u32)
            << 16) | (i & 0xffff),
        Instr::J { op, i } => ((op.code() as u32) << 26) | i,
        Instr::Inval(raw) => raw,
    }
}

impl Instr {
    /// Whether the operands fit their fields: register numbers are below
    /// 32, an immediate is a sign-extended 16-bit value, a jump target has
    /// 26 bits, and the word in `Inval` is indeed no instruction.
    pub open spec fn wf(self) -> bool {
        match self {
            Instr::R { op, s, t, d } => s < 32 && t < 32 && d < 32,
            Instr::I { op, s, t, i } => s < 32 && t < 32 && is_sign_extended_16(i),
            Instr::J { op, i } => i < 0x0400_0000,
            Instr::Inval(raw) => decode(raw) == Instr::Inval(raw),
        }
    }

    /// Decodes a word. A word that is no instruction decodes to `Inval`
    /// with the word in it.
    pub fn from_u32(raw: u32) -> (instr: Instr)
        ensures
            instr == decode(raw),
            instr.wf(),
    {
        proof {
            lemma_fields_in_range(raw);
        }
        let top6 = raw >> 26;
        if top6 == 0 {
            let s = (raw >> 21) & 0x1f;
            let t = (raw >> 16) & 0x1f;
            let d = (raw >> 11) & 0x1f;
            match R::from_raw_op((raw & 0xff) as u8) {
                Some(op) => Instr::R { op, s: s as usize, t: t as usize, d: d as usize },
                None => Instr::Inval(raw),
            }
        } else if top6 == 2 || top6 == 3 {
            let i = raw & 0x03ff_ffff;
            match J::from_raw_op(top6 as u8) {
                Some(op) => Instr::J { op, i },
                None => Instr::Inval(raw),
            }
        } else {
            let s = (raw >> 21) & 0x1f;
            let t = (raw >> 16) & 0x1f;
            let i = if raw & 0x8000 == 0 {
                raw & 0xffff
            } else {
                (raw & 0xffff) | 0xffff_0000
            };
            match I::from_raw_op(top6 as u8) {
                Some(op) => Instr::I { op, s: s as usize, t: t as usize, i },
                None => Instr::Inval(raw),
            }
        }
    }
}

/// Every field of a word is within the range of what it holds.
pub proof fn lemma_fields_in_range(raw: u32)
    ensures
        field_top6(raw) < 64,
        field_s(raw) < 32,
        field_t(raw) < 32,
        field_d(raw) < 32,
        field_funct(raw) < 256,
        field_target(raw) < 0x0400_0000,
        is_sign_extended_16(sign_extend_16(raw)),
{
    assert(raw >> 26 < 64) by (bit_vector);
    assert((raw >> 21) & 0x1f < 32) by (bit_vector);
    assert((raw >> 16) & 0x1f < 32) by (bit_vector);
    assert((raw >> 11) & 0x1f < 32) by (bit_vector);
    assert(raw & 0xff < 256) by (bit_vector);
    assert(raw & 0x03ff_ffff < 0x0400_0000) by (bit_vector);
    assert(raw & 0x8000 == 0 ==> raw & 0xffff < 0x8000) by (bit_vector);
    assert(raw & 0x8000 != 0 ==> (raw & 0xffff) | 0xffff_0000 >= 0xffff_8000) by (bit_vector);
}

/// Every word decodes to a well-formed instruction.
pub proof fn lemma_decode_wf(raw: u32)
    ensures
        decode(raw).wf(),
{
    lemma_fields_in_range(raw);
}

/// Decoding undoes encoding: a well-formed instruction, put into a word
/// field by field and decoded again, comes back as it was.
pub proof fn lemma_decode_encode(instr: Instr)
    requires
        instr.wf(),
    ensures
        decode(encode(instr)) == instr,
{
    match instr {
        Instr::R { op, s, t, d } => {
            let (s32, t32, d32) = (s as u32, t as u32, d as u32);
            let code = op.code() as u32;
            let raw = (s32 << 21) | (t32 << 16) | (d32 << 11) | code;
            assert(raw >> 26 == 0 && (raw >> 21) & 0x1f == s32 && (raw >> 16) & 0x1f == t32 && (raw
                >> 11) & 0x1f == d32 && raw & 0xff == code) by (bit_vector)
                requires
                    raw == (s32 << 21) | (t32 << 16) | (d32 << 11) | code,
                    s32 < 32,
                    t32 < 32,
                    d32 < 32,
                    code < 0x40,
            ;
            R::lemma_code_inverse(op);
        },
        Instr::I { op, s, t, i } => {
            let (s32, t32) = (s as u32, t as u32);
            let code = op.code() as u32;
            let raw = (code << 26) | (s32 << 21) | (t32 << 16) | (i & 0xffff);
            assert(raw >> 26 == code && (raw >> 21) & 0x1f == s32 && (raw >> 16) & 0x1f == t32)
                by (bit_vector)
                requires
                    raw == (code << 26) | (s32 << 21) | (t32 << 16) | (i & 0xffff),
                    s32 < 32,
                    t32 < 32,
                    code < 0x40,
            ;
            assert(raw & 0x8000 == i & 0x8000 && raw & 0xffff == i & 0xffff) by (bit_vector)
                requires
                    raw == (code << 26) | (s32 << 21) | (t32 << 16) | (i & 0xffff),
            ;
            assert(i & 0x8000 == 0 ==> i & 0xffff == i) by (bit_vector)
                requires
                    i < 0x8000 || i >= 0xffff_8000,
            ;
            assert(i & 0x8000 != 0 ==> (i & 0xffff) | 0xffff_0000 == i) by (bit_vector)
                requires
                    i < 0x8000 || i >= 0xffff_8000,
            ;
            I::lemma_code_inverse(op);
        },
        Instr::J { op, i } => {
            let code = op.code() as u32;
            let raw = (code << 26) | i;
            assert(raw >> 26 == code && raw & 0x03ff_ffff == i) by (bit_vector)
                requires
                    raw == (code << 26) | i,
                    i < 0x0400_0000,
                    code < 0x40,
            ;
            J::lemma_code_inverse(op);
        },
        Instr::Inval(raw) => {},
    }
}

impl R {
    /// The mnemonic of the opcode.
    pub open spec fn mnemonic(self) -> Seq<char> {
        match self {
            R::MFHI => "mfhi"@,
            R::MFLO => "mflo"@,
            R::LIS => "lis"@,
            R::JR => "jr"@,
            R::JALR => "jalr"@,
            R::MULT => "mult"@,
            R::MULTU => "multu"@,
            R::DIV => "div"@,
            R::DIVU => "divu"@,
            R::ADD => "add"@,
            R::SUB => "sub"@,
            R::SLT => "slt"@,
            R::SLTU => "sltu"@,
        }
    }

    /// The mnemonic of the opcode.
    pub fn name(self) -> (name: &'static str)
        ensures
            name@ == self.mnemonic(),
    {
        match self {
            R::MFHI => "mfhi",
            R::MFLO => "mflo",
            R::LIS => "lis",
            R::JR => "jr",
            R::JALR => "jalr",
            R::MULT => "mult",
            R::MULTU => "multu",
            R::DIV => "div",
            R::DIVU => "divu",
            R::ADD => "add",
            R::SUB => "sub",
            R::SLT => "slt",
            R::SLTU => "sltu",
        }
    }
}

impl I {
    /// The mnemonic of the opcode.
    pub open spec fn mnemonic(self) -> Seq<char> {
        match self {
            I::BEQ => "beq"@,
            I::BNE => "bne"@,
            I::ADDI => "addi"@,
            I::LW => "lw"@,
            I::SW => "sw"@,
        }
    }

    /// The mnemonic of the opcode.
    pub fn name(self) -> (name: &'static str)
        ensures
            name@ == self.mnemonic(),
    {
        match self {
            I::BEQ => "beq",
            I::BNE => "bne",
            I::ADDI => "addi",
            I::LW => "lw",
            I::SW => "sw",
        }
    }
}

impl J {
    /// The mnemonic of the opcode.
    pub open spec fn mnemonic(self) -> Seq<char> {
        match self {
            J::J => "j"@,
            J::JAL => "jal"@,
        }
    }

    /// The mnemonic of the opcode.
    pub fn name(self) -> (name: &'static str)
        ensures
            name@ == self.mnemonic(),
    {
        match self {
            J::J => "j",
            J::JAL => "jal",
        }
    }
}

impl Instr {
    /// The instruction in assembly syntax: the mnemonic, a space and the
    /// operands. A jump shows its target as `0x` and eight hexadecimal
    /// digits; an immediate is shown as a signed 16-bit number; a word that
    /// is no instruction is shown as `.word`, the word in hexadecimal, and
    /// in brackets the word as a signed number.
    pub open spec fn text(self) -> Seq<char> {
        match self {
            Instr::J { op, i } => op.mnemonic() + " 0x"@ + hex8(i),
            Instr::I { op, s, t, i } => match op {
                I::BEQ | I::BNE => op.mnemonic() + " "@ + reg_name(s as nat) + ", "@ + reg_name(
                    t as nat,
                ) + ", "@ + decimal(signed_16(i)),
                I::ADDI => op.mnemonic() + " "@ + reg_name(t as nat) + ", "@ + reg_name(s as nat)
                    + ", "@ + decimal(signed_16(i)),
                I::LW | I::SW => op.mnemonic() + " "@ + reg_name(t as nat) + ", "@ + decimal(
                    signed_16(i),
                ) + "("@ + reg_name(s as nat) + ")"@,
            },
            Instr::R { op, s, t, d } => match op {
                R::MFHI | R::MFLO | R::LIS => op.mnemonic() + " "@ + reg_name(d as nat),
                R::JR | R::JALR => op.mnemonic() + " "@ + reg_name(s as nat),
                R::MULT | R::MULTU | R::DIV | R::DIVU => op.mnemonic() + " "@ + reg_name(s as nat)
                    + ", "@ + reg_name(t as nat),
                R::ADD | R::SUB | R::SLT | R::SLTU => op.mnemonic() + " "@ + reg_name(d as nat)
                    + ", "@ + reg_name(s as nat) + ", "@ + reg_name(t as nat),
            },
            Instr::Inval(raw) => ".word 0x"@ + hex8(raw) + " ("@ + decimal(signed(raw)) + ")"@,
        }
    }

    /// Adds the instruction in assembly syntax to `out`.
    pub fn write_to(&self, out: &mut String)
        ensures
            final(out)@ == old(out)@ + self.text(),
    {
        match *self {
            Instr::J { op, i } => {
                out.append(op.name());
                out.append(" 0x");
                push_hex8(out, i);
            },
            Instr::I { op, s, t, i } => {
                out.append(op.name());
                out.append(" ");
                match op {
                    I::BEQ | I::BNE => {
                        push_reg(out, s);
                        out.append(", ");
                        push_reg(out, t);
                        out.append(", ");
                        push_decimal_signed_16(out, i);
                    },
                    I::ADDI => {
                        push_reg(out, t);
                        out.append(", ");
                        push_reg(out, s);
                        out.append(", ");
                        push_decimal_signed_16(out, i);
                    },
                    I::LW | I::SW => {
                        push_reg(out, t);
                        out.append(", ");
                        push_decimal_signed_16(out, i);
                        out.append("(");
                        push_reg(out, s);
                        out.append(")");
                    },
                }
            },
            Instr::R { op, s, t, d } => {
                out.append(op.name());
                out.append(" ");
                match op {
                    R::MFHI | R::MFLO | R::LIS => {
                        push_reg(out, d);
                    },
                    R::JR | R::JALR => {
                        push_reg(out, s);
                    },
                    R::MULT | R::MULTU | R::DIV | R::DIVU => {
                        push_reg(out, s);
                        out.append(", ");
                        push_reg(out, t);
                    },
                    R::ADD | R::SUB | R::SLT | R::SLTU => {
                        push_reg(out, d);
                        out.append(", ");
                        push_reg(out, s);
                        out.append(", ");
                        push_reg(out, t);
                    },
                }
            },
            Instr::Inval(raw) => {
                out.append(".word 0x");
                push_hex8(out, raw);
                out.append(" (");
                push_decimal_signed(out, raw);
                out.append(")");
            },
        }
        assert(out@ =~= old(out)@ + self.text());
    }

    /// The instruction in assembly syntax.
    pub fn to_string(&self) -> (text: String)
        ensures
            text@ == self.text(),
    {
        let mut text = String::new();
        self.write_to(&mut text);
        assert(text@ =~= self.text());
        text
    }
}

} // verus!
