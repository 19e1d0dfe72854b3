use uwmips::bus::{Bus, MMIO_INPUT, MMIO_OUTPUT};
use uwmips::cpu::{Error, Reg, CPU, HALT_ADDR};
use uwmips::mem::MEM;

fn r_type(s: u32, t: u32, d: u32, funct: u32) -> u32 {
    (s << 21) | (t << 16) | (d << 11) | funct
}

fn i_type(op: u32, s: u32, t: u32, imm: u32) -> u32 {
    (op << 26) | (s << 21) | (t << 16) | (imm & 0xffff)
}

fn j_type(op: u32, target: u32) -> u32 {
    (op << 26) | target
}

const MFHI: u32 = 0x10;
const MFLO: u32 = 0x12;
const LIS: u32 = 0x14;
const JR: u32 = 0x08;
const JALR: u32 = 0x09;
const MULT: u32 = 0x18;
const MULTU: u32 = 0x19;
const DIV: u32 = 0x1a;
const DIVU: u32 = 0x1b;
const ADD: u32 = 0x20;
const SUB: u32 = 0x22;
const SLT: u32 = 0x2a;
const SLTU: u32 = 0x2b;
const BEQ: u32 = 0x04;
const BNE: u32 = 0x05;
const ADDI: u32 = 0x08;
const LW: u32 = 0x23;
const SW: u32 = 0x2b;

fn cpu_with(words: &[u32], load_addr: u32) -> CPU {
    let mut cpu = CPU::new(Bus::new(MEM::new()), load_addr);
    for (k, word) in words.iter().enumerate() {
        cpu.store(load_addr + 4 * (k as u32), *word);
    }
    cpu
}

fn reg(cpu: &CPU, r: usize) -> u32 {
    cpu.get_reg(Reg::Reg(r)).unwrap()
}

fn set(cpu: &mut CPU, r: usize, val: u32) {
    cpu.set_reg(Reg::Reg(r), val).unwrap();
}

/// Steps until the CPU halts, and hands back the number of instructions.
fn run(cpu: &mut CPU) -> usize {
    let mut count = 0;
    loop {
        assert!(!cpu.awaits_input() || cpu.has_input());
        match cpu.step() {
            Ok(true) => count += 1,
            Ok(false) => return count,
            Err(err) => panic!("the CPU failed: {:?}", err),
        }
        assert!(count < 100_000);
    }
}

/// The register `d` after one register-mode instruction on `rs` and `rt`.
fn after_r(funct: u32, rs: u32, rt: u32) -> CPU {
    let mut cpu = cpu_with(&[r_type(1, 2, 3, funct)], 0);
    set(&mut cpu, 1, rs);
    set(&mut cpu, 2, rt);
    assert_eq!(cpu.step(), Ok(true));
    cpu
}

#[test]
fn new_cpu_holds_the_start_values() {
    let cpu = CPU::new(Bus::new(MEM::new()), 0x40);
    assert_eq!(cpu.get_reg(Reg::PC), Ok(0x40));
    assert_eq!(cpu.get_reg(Reg::Hi), Ok(0));
    assert_eq!(cpu.get_reg(Reg::Lo), Ok(0));
    for r in 0..29 {
        assert_eq!(reg(&cpu, r), 0);
    }
    assert_eq!(reg(&cpu, 29), 0x40);
    assert_eq!(reg(&cpu, 30), 0x0100_0040);
    assert_eq!(reg(&cpu, 31), 0x8123_456c);
    assert_eq!(HALT_ADDR, 0x8123_456c);
}

#[test]
fn new_cpu_wraps_the_frame_pointer() {
    let cpu = CPU::new(Bus::new(MEM::new()), 0xffff_fffc);
    assert_eq!(reg(&cpu, 30), 0x00ff_fffc);
}

#[test]
fn registers_out_of_range_are_refused() {
    let mut cpu = CPU::new(Bus::new(MEM::new()), 0);
    assert_eq!(cpu.get_reg(Reg::Reg(32)), Err(Error::InvalidReg));
    assert_eq!(cpu.set_reg(Reg::Reg(32), 1), Err(Error::InvalidReg));
    assert_eq!(cpu.get_reg(Reg::Reg(usize::MAX)), Err(Error::InvalidReg));
    assert_eq!(cpu.set_reg(Reg::Reg(31), 7), Ok(()));
    assert_eq!(cpu.get_reg(Reg::Reg(31)), Ok(7));
    assert_eq!(cpu.set_reg(Reg::PC, 8), Ok(()));
    assert_eq!(cpu.set_reg(Reg::Hi, 9), Ok(()));
    assert_eq!(cpu.set_reg(Reg::Lo, 10), Ok(()));
    assert_eq!(cpu.get_reg(Reg::PC), Ok(8));
    assert_eq!(cpu.get_reg(Reg::Hi), Ok(9));
    assert_eq!(cpu.get_reg(Reg::Lo), Ok(10));
}

#[test]
fn halt_on_sentinel() {
    let mut cpu = cpu_with(&[0x03e0_0008], 0);
    assert_eq!(cpu.step(), Ok(true));
    assert_eq!(cpu.get_reg(Reg::PC), Ok(0x8123_456c));
    assert_eq!(cpu.step(), Ok(false));
    assert_eq!(cpu.get_reg(Reg::PC), Ok(0x8123_456c));
}

#[test]
fn invalid_instruction() {
    let mut cpu = cpu_with(&[0xffff_ffff], 0);
    assert_eq!(cpu.step(), Err(Error::BadInstr));
    assert_eq!(cpu.get_reg(Reg::PC), Ok(4));
}

#[test]
fn zero_word_is_no_instruction() {
    // A word of zeros has the function code 0, which is no opcode.
    let mut cpu = CPU::new(Bus::new(MEM::new()), 0);
    assert_eq!(cpu.step(), Err(Error::BadInstr));
}

#[test]
fn add_wraps() {
    let cpu = after_r(ADD, 0xffff_ffff, 1);
    assert_eq!(reg(&cpu, 3), 0);
    assert_eq!(reg(&after_r(ADD, 7, 35), 3), 42);
}

#[test]
fn sub_wraps() {
    assert_eq!(reg(&after_r(SUB, 0, 1), 3), 0xffff_ffff);
    assert_eq!(reg(&after_r(SUB, 50, 8), 3), 42);
}

#[test]
fn slt_is_signed_and_sltu_is_not() {
    assert_eq!(reg(&after_r(SLT, 0xffff_ffff, 0), 3), 1);
    assert_eq!(reg(&after_r(SLTU, 0xffff_ffff, 0), 3), 0);
    assert_eq!(reg(&after_r(SLT, 0, 0xffff_ffff), 3), 0);
    assert_eq!(reg(&after_r(SLTU, 0, 0xffff_ffff), 3), 1);
    assert_eq!(reg(&after_r(SLT, 5, 5), 3), 0);
    assert_eq!(reg(&after_r(SLTU, 5, 5), 3), 0);
}

#[test]
fn mult_is_signed() {
    // -1 * 2 = -2
    let cpu = after_r(MULT, 0xffff_ffff, 2);
    assert_eq!(cpu.get_reg(Reg::Hi), Ok(0xffff_ffff));
    assert_eq!(cpu.get_reg(Reg::Lo), Ok(0xffff_fffe));
    // 0x10000 * 0x10000 = 2^32
    let cpu = after_r(MULT, 0x1_0000, 0x1_0000);
    assert_eq!(cpu.get_reg(Reg::Hi), Ok(1));
    assert_eq!(cpu.get_reg(Reg::Lo), Ok(0));
    // (-2^31) * (-2^31) = 2^62
    let cpu = after_r(MULT, 0x8000_0000, 0x8000_0000);
    assert_eq!(cpu.get_reg(Reg::Hi), Ok(0x4000_0000));
    assert_eq!(cpu.get_reg(Reg::Lo), Ok(0));
    assert_eq!(reg(&cpu, 3), 0);
}

#[test]
fn multu_is_unsigned() {
    let cpu = after_r(MULTU, 0xffff_ffff, 2);
    assert_eq!(cpu.get_reg(Reg::Hi), Ok(1));
    assert_eq!(cpu.get_reg(Reg::Lo), Ok(0xffff_fffe));
    let cpu = after_r(MULTU, 0xffff_ffff, 0xffff_ffff);
    assert_eq!(cpu.get_reg(Reg::Hi), Ok(0xffff_fffe));
    assert_eq!(cpu.get_reg(Reg::Lo), Ok(1));
}

#[test]
fn div_rounds_towards_zero() {
    // -7 / 2 = -3, remainder -1
    let cpu = after_r(DIV, (-7i32) as u32, 2);
    assert_eq!(cpu.get_reg(Reg::Lo), Ok((-3i32) as u32));
    assert_eq!(cpu.get_reg(Reg::Hi), Ok((-1i32) as u32));
    // 7 / -2 = -3, remainder 1
    let cpu = after_r(DIV, 7, (-2i32) as u32);
    assert_eq!(cpu.get_reg(Reg::Lo), Ok((-3i32) as u32));
    assert_eq!(cpu.get_reg(Reg::Hi), Ok(1));
    // -7 / -2 = 3, remainder -1
    let cpu = after_r(DIV, (-7i32) as u32, (-2i32) as u32);
    assert_eq!(cpu.get_reg(Reg::Lo), Ok(3));
    assert_eq!(cpu.get_reg(Reg::Hi), Ok((-1i32) as u32));
    let cpu = after_r(DIV, 42, 5);
    assert_eq!(cpu.get_reg(Reg::Lo), Ok(8));
    assert_eq!(cpu.get_reg(Reg::Hi), Ok(2));
}

#[test]
fn div_wraps_on_the_least_number() {
    let cpu = after_r(DIV, 0x8000_0000, 0xffff_ffff);
    assert_eq!(cpu.get_reg(Reg::Lo), Ok(0x8000_0000));
    assert_eq!(cpu.get_reg(Reg::Hi), Ok(0));
}

#[test]
fn divu_is_unsigned() {
    let cpu = after_r(DIVU, 0xffff_ffff, 2);
    assert_eq!(cpu.get_reg(Reg::Lo), Ok(0x7fff_ffff));
    assert_eq!(cpu.get_reg(Reg::Hi), Ok(1));
}

#[test]
fn division_by_zero_leaves_hi_and_lo() {
    for funct in [DIV, DIVU] {
        let mut cpu = cpu_with(&[r_type(1, 2, 3, funct)], 0);
        set(&mut cpu, 1, 9);
        cpu.set_reg(Reg::Hi, 0x1111).unwrap();
        cpu.set_reg(Reg::Lo, 0x2222).unwrap();
        assert_eq!(cpu.step(), Ok(true));
        assert_eq!(cpu.get_reg(Reg::Hi), Ok(0x1111));
        assert_eq!(cpu.get_reg(Reg::Lo), Ok(0x2222));
        assert_eq!(cpu.get_reg(Reg::PC), Ok(4));
    }
}

#[test]
fn mfhi_and_mflo_copy() {
    let mut cpu = cpu_with(&[r_type(0, 0, 3, MFHI), r_type(0, 0, 4, MFLO)], 0);
    cpu.set_reg(Reg::Hi, 0xaaaa).unwrap();
    cpu.set_reg(Reg::Lo, 0xbbbb).unwrap();
    assert_eq!(cpu.step(), Ok(true));
    assert_eq!(cpu.step(), Ok(true));
    assert_eq!(reg(&cpu, 3), 0xaaaa);
    assert_eq!(reg(&cpu, 4), 0xbbbb);
}

#[test]
fn lis_loads_the_next_word_and_skips_it() {
    let mut cpu = cpu_with(&[r_type(0, 0, 5, LIS), 0xdead_beef, 0x03e0_0008], 0);
    assert_eq!(cpu.step(), Ok(true));
    assert_eq!(reg(&cpu, 5), 0xdead_beef);
    assert_eq!(cpu.get_reg(Reg::PC), Ok(8));
}

#[test]
fn jr_and_jalr_jump() {
    let mut cpu = cpu_with(&[r_type(1, 0, 0, JR)], 0);
    set(&mut cpu, 1, 0x100);
    assert_eq!(cpu.step(), Ok(true));
    assert_eq!(cpu.get_reg(Reg::PC), Ok(0x100));

    let mut cpu = cpu_with(&[r_type(1, 0, 0, JALR)], 0x20);
    set(&mut cpu, 1, 0x100);
    assert_eq!(cpu.step(), Ok(true));
    assert_eq!(cpu.get_reg(Reg::PC), Ok(0x100));
    assert_eq!(reg(&cpu, 31), 0x24);

    // jalr through register 31 itself jumps to the old value.
    let mut cpu = cpu_with(&[r_type(31, 0, 0, JALR)], 0);
    set(&mut cpu, 31, 0x200);
    assert_eq!(cpu.step(), Ok(true));
    assert_eq!(cpu.get_reg(Reg::PC), Ok(0x200));
    assert_eq!(reg(&cpu, 31), 4);
}

#[test]
fn j_with_target_zero() {
    let mut cpu = cpu_with(&[j_type(2, 0)], 0x40);
    assert_eq!(cpu.step(), Ok(true));
    assert_eq!(cpu.get_reg(Reg::PC), Ok(0));
}

#[test]
fn j_and_jal_shift_the_target() {
    let mut cpu = cpu_with(&[j_type(2, 0x123)], 0);
    assert_eq!(cpu.step(), Ok(true));
    assert_eq!(cpu.get_reg(Reg::PC), Ok(0x48c));
    assert_eq!(reg(&cpu, 31), 0x8123_456c);

    let mut cpu = cpu_with(&[j_type(3, 0x03ff_ffff)], 0x10);
    assert_eq!(cpu.step(), Ok(true));
    assert_eq!(cpu.get_reg(Reg::PC), Ok(0x0fff_fffc));
    assert_eq!(reg(&cpu, 31), 0x14);
}

#[test]
fn beq_backwards_by_one() {
    // Taken: the program counter, already moved on, goes back by four.
    let mut cpu = cpu_with(&[i_type(BEQ, 1, 2, 0xffff)], 0x40);
    assert_eq!(cpu.step(), Ok(true));
    assert_eq!(cpu.get_reg(Reg::PC), Ok(0x40));
    // Not taken.
    let mut cpu = cpu_with(&[i_type(BEQ, 1, 2, 0xffff)], 0x40);
    set(&mut cpu, 1, 1);
    assert_eq!(cpu.step(), Ok(true));
    assert_eq!(cpu.get_reg(Reg::PC), Ok(0x44));
}

#[test]
fn bne_forwards() {
    let mut cpu = cpu_with(&[i_type(BNE, 1, 2, 3)], 0);
    set(&mut cpu, 1, 1);
    assert_eq!(cpu.step(), Ok(true));
    assert_eq!(cpu.get_reg(Reg::PC), Ok(16));
    let mut cpu = cpu_with(&[i_type(BNE, 1, 2, 3)], 0);
    assert_eq!(cpu.step(), Ok(true));
    assert_eq!(cpu.get_reg(Reg::PC), Ok(4));
}

#[test]
fn addi_sign_extends() {
    let mut cpu = cpu_with(&[i_type(ADDI, 1, 2, 0xffff), i_type(ADDI, 1, 3, 5)], 0);
    set(&mut cpu, 1, 10);
    assert_eq!(cpu.step(), Ok(true));
    assert_eq!(cpu.step(), Ok(true));
    assert_eq!(reg(&cpu, 2), 9);
    assert_eq!(reg(&cpu, 3), 15);
}

#[test]
fn lw_and_sw_go_through_memory() {
    let mut cpu = cpu_with(&[i_type(SW, 1, 2, 0xfffc), i_type(LW, 1, 3, 0xfffc)], 0);
    set(&mut cpu, 1, 0x104);
    set(&mut cpu, 2, 0xcafe);
    assert_eq!(cpu.step(), Ok(true));
    assert_eq!(cpu.peek(0x100), 0xcafe);
    assert_eq!(cpu.step(), Ok(true));
    assert_eq!(reg(&cpu, 3), 0xcafe);
}

#[test]
fn register_zero_is_zero_after_a_step() {
    // addi $0, $0, 5 writes to register 0.
    let mut cpu = cpu_with(&[i_type(ADDI, 0, 0, 5), r_type(0, 0, 0, LIS), 77], 0);
    assert_eq!(cpu.step(), Ok(true));
    assert_eq!(reg(&cpu, 0), 0);
    assert_eq!(cpu.step(), Ok(true));
    assert_eq!(reg(&cpu, 0), 0);
    // A value set from outside is gone after the next instruction.
    let mut cpu = cpu_with(&[r_type(1, 2, 3, ADD)], 0);
    set(&mut cpu, 0, 99);
    assert_eq!(reg(&cpu, 0), 99);
    assert_eq!(cpu.step(), Ok(true));
    assert_eq!(reg(&cpu, 0), 0);
}

#[test]
fn register_zero_stays_where_nothing_is_executed() {
    // A halted CPU executes nothing, so it leaves register 0 alone.
    let mut cpu = CPU::new(Bus::new(MEM::new()), HALT_ADDR);
    set(&mut cpu, 0, 5);
    assert_eq!(cpu.step(), Ok(false));
    assert_eq!(reg(&cpu, 0), 5);
}

#[test]
fn step_is_deterministic() {
    let program = [
        i_type(ADDI, 0, 1, 5),
        i_type(ADDI, 1, 1, 1),
        r_type(1, 1, 2, MULT),
        r_type(0, 0, 4, MFLO),
        0x03e0_0008,
    ];
    let mut a = cpu_with(&program, 0);
    let mut b = cpu_with(&program, 0);
    loop {
        let (ra, rb) = (a.step(), b.step());
        assert_eq!(ra, rb);
        assert_eq!(a.to_string(), b.to_string());
        if ra != Ok(true) {
            break;
        }
    }
    assert_eq!(reg(&a, 4), 36);
}

#[test]
fn add_two_inputs() {
    let mut cpu = cpu_with(&[r_type(1, 2, 3, ADD), r_type(31, 0, 0, JR)], 0);
    let frontend = uwmips::args::InputFrontend::TwoInts { int1: 7, int2: 35 };
    uwmips::loader::apply_frontend(&mut cpu, &frontend, 0);
    assert_eq!(run(&mut cpu), 2);
    assert_eq!(reg(&cpu, 3), 42);
}

#[test]
fn array_sum() {
    let program = [
        i_type(BEQ, 2, 0, 5),
        i_type(LW, 1, 5, 0),
        r_type(3, 5, 3, ADD),
        i_type(ADDI, 1, 1, 4),
        i_type(ADDI, 2, 2, 0xffff),
        i_type(BEQ, 0, 0, 0xfffa),
        r_type(31, 0, 0, JR),
    ];
    let mut cpu = cpu_with(&program, 0);
    let frontend = uwmips::args::InputFrontend::Array { array: vec![1, 2, 3, 4, 5] };
    uwmips::loader::apply_frontend(&mut cpu, &frontend, 0);
    assert_eq!(reg(&cpu, 1), 0x20);
    assert_eq!(reg(&cpu, 2), 5);
    run(&mut cpu);
    assert_eq!(reg(&cpu, 3), 15);
}

fn echo_program() -> Vec<u32> {
    vec![
        r_type(0, 0, 1, LIS),
        MMIO_INPUT,
        r_type(0, 0, 2, LIS),
        MMIO_OUTPUT,
        i_type(LW, 1, 3, 0),
        i_type(BEQ, 3, 0, 2),
        i_type(SW, 2, 3, 0),
        i_type(BEQ, 0, 0, 0xfffc),
        r_type(31, 0, 0, JR),
    ]
}

#[test]
fn mmio_echo() {
    let mut cpu = cpu_with(&echo_program(), 0);
    for byte in b"hi\0" {
        cpu.feed_input(*byte);
    }
    run(&mut cpu);
    assert_eq!(cpu.take_output(), b"hi".to_vec());
    assert!(!cpu.has_input());
    assert!(cpu.take_output().is_empty());
}

#[test]
fn mmio_echo_fed_byte_by_byte() {
    let mut cpu = cpu_with(&echo_program(), 0);
    let mut input = b"hi\0".iter();
    let mut output = Vec::new();
    let mut reads = 0;
    loop {
        if cpu.awaits_input() {
            assert!(!cpu.has_input());
            cpu.feed_input(*input.next().unwrap());
            reads += 1;
        }
        match cpu.step() {
            Ok(true) => output.extend(cpu.take_output()),
            Ok(false) => break,
            Err(err) => panic!("the CPU failed: {:?}", err),
        }
    }
    assert_eq!(output, b"hi".to_vec());
    assert_eq!(reads, 3);
}

#[test]
fn fetch_from_the_input_address_consumes_a_byte() {
    // The byte 0x08 is `jr $0`.
    let mut cpu = CPU::new(Bus::new(MEM::new()), MMIO_INPUT);
    assert!(cpu.awaits_input());
    cpu.feed_input(0x08);
    assert_eq!(cpu.step(), Ok(true));
    assert_eq!(cpu.get_reg(Reg::PC), Ok(0));
    assert!(!cpu.has_input());
}

#[test]
fn awaits_input_only_for_loads_from_the_input_address() {
    let mut cpu = cpu_with(&[i_type(LW, 1, 3, 4), i_type(SW, 1, 3, 4)], 0);
    set(&mut cpu, 1, 0xffff_0000);
    assert!(cpu.awaits_input());
    set(&mut cpu, 1, 0xffff_0008);
    assert!(!cpu.awaits_input());
    cpu.set_reg(Reg::PC, 4).unwrap();
    set(&mut cpu, 1, 0xffff_0000);
    assert!(!cpu.awaits_input());
    cpu.set_reg(Reg::PC, HALT_ADDR).unwrap();
    assert!(!cpu.awaits_input());
    // lis at 0xffff0000 loads its word from the input address.
    let mut cpu = cpu_with(&[r_type(0, 0, 1, LIS)], 0xffff_0000);
    assert!(cpu.awaits_input());
    cpu.feed_input(b'x');
    assert_eq!(cpu.step(), Ok(true));
    assert_eq!(reg(&cpu, 1), b'x' as u32);
    assert_eq!(cpu.get_reg(Reg::PC), Ok(0xffff_0008));
}

#[test]
fn program_counter_wraps() {
    let mut cpu = cpu_with(&[], 0);
    cpu.store(0xffff_fffc, r_type(1, 2, 3, ADD));
    cpu.set_reg(Reg::PC, 0xffff_fffc).unwrap();
    assert_eq!(cpu.step(), Ok(true));
    assert_eq!(cpu.get_reg(Reg::PC), Ok(0));
}

#[test]
fn restore_keeps_the_streams() {
    let mut cpu = cpu_with(&[i_type(ADDI, 0, 1, 5)], 0);
    let snapshot = cpu.clone();
    cpu.feed_input(b'a');
    assert_eq!(cpu.step(), Ok(true));
    cpu.store(MMIO_OUTPUT, b'z' as u32);
    cpu.store(0x80, 1);
    cpu.restore(snapshot);
    assert_eq!(reg(&cpu, 1), 0);
    assert_eq!(cpu.get_reg(Reg::PC), Ok(0));
    assert_eq!(cpu.peek(0x80), 0);
    assert!(cpu.has_input());
    assert_eq!(cpu.take_output(), vec![b'z']);
}
