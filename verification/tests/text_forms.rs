use uwmips::bus::Bus;
use uwmips::cpu::{Reg, CPU};
use uwmips::debug::Debugger;
use uwmips::instr::Instr;
use uwmips::mem::MEM;
use uwmips::text::{
    digit_str, push_decimal_2, push_decimal_nat, push_decimal_signed, push_decimal_signed_16,
    push_hex8, push_padded, push_reg, same_text,
};

const WORDS: [u32; 12] = [
    0,
    1,
    9,
    10,
    0xff,
    0x1234_5678,
    0x7fff_ffff,
    0x8000_0000,
    0x8000_0001,
    0xdead_beef,
    0xffff_fffe,
    0xffff_ffff,
];

#[test]
fn digits() {
    let all = "0123456789abcdef";
    for d in 0..16u32 {
        assert_eq!(digit_str(d), &all[d as usize..d as usize + 1]);
    }
}

#[test]
fn words_in_hexadecimal() {
    for w in WORDS {
        let mut out = String::from("0x");
        push_hex8(&mut out, w);
        assert_eq!(out, format!("0x{:08x}", w));
    }
    let mut out = String::new();
    push_hex8(&mut out, 0x0a0b_0c0d);
    assert_eq!(out, "0a0b0c0d");
}

#[test]
fn numbers_in_decimal() {
    for n in [0u64, 7, 10, 99, 100, 4_294_967_295, 1 << 40, u64::MAX] {
        let mut out = String::from("n=");
        push_decimal_nat(&mut out, n);
        assert_eq!(out, format!("n={}", n));
    }
}

#[test]
fn words_as_signed_numbers() {
    for w in WORDS {
        let mut out = String::new();
        push_decimal_signed(&mut out, w);
        assert_eq!(out, format!("{}", w as i32));
    }
    let mut out = String::new();
    push_decimal_signed(&mut out, 0x8000_0000);
    assert_eq!(out, "-2147483648");
}

#[test]
fn low_halves_as_signed_numbers() {
    for w in [0u32, 1, 0x7fff, 0x8000, 0xffff, 0x1_0000, 0x1234_8001, 0xffff_ffff, 0xffff_7fff] {
        let mut out = String::new();
        push_decimal_signed_16(&mut out, w);
        assert_eq!(out, format!("{}", w as i16));
    }
}

#[test]
fn register_names_and_numbers() {
    for r in [0usize, 5, 9, 10, 31, 100] {
        let mut name = String::new();
        push_reg(&mut name, r);
        assert_eq!(name, format!("${}", r));
        let mut number = String::new();
        push_decimal_2(&mut number, r);
        assert_eq!(number, format!("{:02}", r));
    }
}

#[test]
fn padding() {
    for text in ["", "(0)", "(-2147483648)", "1234567890123", "12345678901234"] {
        let mut out = String::from("|");
        push_padded(&mut out, text, 13);
        assert_eq!(out, format!("|{:13}", text));
    }
    let mut out = String::new();
    push_padded(&mut out, "ab", 0);
    assert_eq!(out, "ab");
}

#[test]
fn texts_are_compared_by_characters() {
    assert!(same_text("", ""));
    assert!(same_text("run", "run"));
    assert!(!same_text("run", "Run"));
    assert!(!same_text("run", "run "));
    assert!(!same_text("", " "));
}

/// The registers as the formatting of the standard library lays them out.
fn expected_registers(cpu: &CPU) -> String {
    let entries: Vec<String> = (1..=31)
        .map(|r| {
            let val = cpu.get_reg(Reg::Reg(r)).unwrap();
            format!("${:02} = 0x{:08x} {:13}", r, val, format!("({})", val as i32))
        })
        .collect();
    let lines: Vec<String> = entries.chunks(4).map(|chunk| chunk.join(" ")).collect();
    format!("{} $pc = 0x{:08x}", lines.join("\n"), cpu.get_reg(Reg::PC).unwrap())
}

fn sample_cpu() -> CPU {
    let mut cpu = CPU::new(Bus::new(MEM::new()), 0x40);
    for (r, w) in WORDS.iter().enumerate() {
        cpu.set_reg(Reg::Reg(r + 1), *w).unwrap();
    }
    cpu.store(0x40, 0x0022_1820);
    cpu.store(0x44, 0x03e0_0008);
    cpu.store(0x3c, 0xffff_ffff);
    cpu.store(0x0100_0040, 77);
    cpu.store(0x0100_0044, 0xffff_fff6);
    cpu
}

#[test]
fn registers_as_text() {
    let cpu = CPU::new(Bus::new(MEM::new()), 0);
    assert_eq!(cpu.to_string(), expected_registers(&cpu));
    let text = cpu.to_string();
    let lines: Vec<&str> = text.lines().collect();
    assert_eq!(lines.len(), 8);
    assert_eq!(
        lines[0],
        "$01 = 0x00000000 (0)           $02 = 0x00000000 (0)           $03 = 0x00000000 (0)           $04 = 0x00000000 (0)          "
    );
    assert_eq!(
        lines[7],
        "$29 = 0x00000000 (0)           $30 = 0x01000000 (16777216)    $31 = 0x8123456c (-2128394900) $pc = 0x00000000"
    );
    let cpu = sample_cpu();
    assert_eq!(cpu.to_string(), expected_registers(&cpu));
    let mut out = String::from("x");
    cpu.write_to(&mut out);
    assert_eq!(out, format!("x{}", expected_registers(&cpu)));
}

/// The dump, laid out with the formatting of the standard library.
fn expected_dump(cpu: &CPU) -> String {
    let mut out = String::new();
    out += "  -------------==== Stack ====-------------\n";
    out += "       ADDR    |     HEX     |     VAL     \n";
    out += "  -------------|-------------|-------------\n";
    let stack_addr = cpu.get_reg(Reg::Reg(30)).unwrap();
    for offset in -6i32..=6 {
        let addr = stack_addr.wrapping_add((4 * offset) as u32);
        let indicator = if addr == stack_addr { '>' } else { ' ' };
        let val = cpu.peek(addr);
        out += &format!("{}  0x{:08x}  | 0x{:08x}  | {}\n", indicator, addr, val, val as i32);
    }
    out += "\n";
    out += "  ---------====== Program RAM ======--------\n";
    out += "     ADDR    |   HEXVAL   :     MIPS ASM    \n";
    out += "  -----------|------------------------------\n";
    let pc = cpu.get_reg(Reg::PC).unwrap();
    for offset in -6i32..=6 {
        let addr = pc.wrapping_add((4 * offset) as u32);
        let indicator = if addr == pc { '>' } else { ' ' };
        let val = cpu.peek(addr);
        out += &format!("{} 0x{:08x} | 0x{:08x} : {}\n", indicator, addr, val, Instr::from_u32(val).to_string());
    }
    out += "\n";
    out += "------------------------------------------------====== CPU State ======------------------------------------------------\n";
    out += &expected_registers(cpu);
    out += "\n";
    out
}

#[test]
fn machine_dump() {
    let debugger = Debugger::new(sample_cpu());
    let dump = debugger.dump_cpu_state();
    assert_eq!(dump, expected_dump(debugger.cpu()));
    let lines: Vec<&str> = dump.lines().collect();
    assert_eq!(lines.len(), 3 + 13 + 1 + 3 + 13 + 1 + 1 + 8);
    assert_eq!(lines[3], "   0x01000028  | 0x00000000  | 0");
    assert_eq!(lines[9], ">  0x01000040  | 0x0000004d  | 77");
    assert_eq!(lines[10], "   0x01000044  | 0xfffffff6  | -10");
    assert_eq!(lines[16], "");
    assert_eq!(lines[20], "  0x00000028 | 0x00000000 : .word 0x00000000 (0)");
    assert_eq!(lines[25], "  0x0000003c | 0xffffffff : .word 0xffffffff (-1)");
    assert_eq!(lines[26], "> 0x00000040 | 0x00221820 : add $3, $1, $2");
    assert_eq!(lines[27], "  0x00000044 | 0x03e00008 : jr $31");
    assert_eq!(lines[33], "");
}

#[test]
fn machine_dump_wraps_round_the_address_space() {
    let mut cpu = CPU::new(Bus::new(MEM::new()), 8);
    cpu.set_reg(Reg::Reg(30), 0xffff_fffc).unwrap();
    cpu.store(0xffff_fffc, 5);
    cpu.feed_input(b'a');
    let debugger = Debugger::new(cpu);
    let dump = debugger.dump_cpu_state();
    assert_eq!(dump, expected_dump(debugger.cpu()));
    let lines: Vec<&str> = dump.lines().collect();
    assert_eq!(lines[3], "   0xffffffe4  | 0x00000000  | 0");
    // The look at the input address shows the marker and consumes nothing.
    assert!(dump.contains("   0xffff0004  | 0x10101010  | 269488144\n") == false);
    assert_eq!(lines[9], ">  0xfffffffc  | 0x00000005  | 5");
    assert_eq!(lines[10], "   0x00000000  | 0x00000000  | 0");
    assert_eq!(lines[20], "  0xfffffff0 | 0x00000000 : .word 0x00000000 (0)");
    assert!(debugger.has_input());
}

#[test]
fn machine_dump_shows_the_marker_at_the_input_address() {
    let mut cpu = CPU::new(Bus::new(MEM::new()), 0xffff_0004);
    cpu.set_reg(Reg::Reg(30), 0xffff_0004).unwrap();
    cpu.feed_input(b'a');
    let debugger = Debugger::new(cpu);
    let dump = debugger.dump_cpu_state();
    let lines: Vec<&str> = dump.lines().collect();
    assert_eq!(lines[9], ">  0xffff0004  | 0x10101010  | 269488144");
    assert_eq!(lines[26], "> 0xffff0004 | 0x10101010 : beq $0, $16, 4112");
    assert!(debugger.has_input());
}
