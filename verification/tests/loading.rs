use uwmips::args::InputFrontend;
use uwmips::bus::{Bus, MMIO_OUTPUT};
use uwmips::cpu::{Reg, CPU};
use uwmips::loader::{apply_frontend, load_image, word_from_bytes, ARRAY_OFFSET};
use uwmips::mem::MEM;
use uwmips::word::{
    add32, div_signed, div_unsigned, from_signed, mul_signed, mul_unsigned, sub32, times4,
    to_signed,
};

fn new_cpu(load_addr: u32) -> CPU {
    CPU::new(Bus::new(MEM::new()), load_addr)
}

#[test]
fn words_are_big_endian() {
    assert_eq!(word_from_bytes(0x12, 0x34, 0x56, 0x78), 0x1234_5678);
    assert_eq!(word_from_bytes(0xff, 0, 0, 0), 0xff00_0000);
    assert_eq!(word_from_bytes(0, 0, 0, 1), 1);
    assert_eq!(word_from_bytes(0x03, 0xe0, 0x00, 0x08), 0x03e0_0008);
}

#[test]
fn image_is_stored_word_by_word() {
    let mut cpu = new_cpu(0x10);
    let image = [0x00, 0x22, 0x18, 0x20, 0x03, 0xe0, 0x00, 0x08, 0xff, 0xff, 0xff, 0xff];
    assert_eq!(load_image(&mut cpu, &image, 0x10), Ok(()));
    assert_eq!(cpu.peek(0x10), 0x0022_1820);
    assert_eq!(cpu.peek(0x14), 0x03e0_0008);
    assert_eq!(cpu.peek(0x18), 0xffff_ffff);
    assert_eq!(cpu.peek(0x0c), 0);
    assert_eq!(cpu.peek(0x1c), 0);
    assert_eq!(cpu.get_reg(Reg::PC), Ok(0x10));
}

#[test]
fn empty_image_stores_nothing() {
    let mut cpu = new_cpu(0);
    assert_eq!(load_image(&mut cpu, &[], 0), Ok(()));
    assert_eq!(cpu.peek(0), 0);
}

#[test]
fn image_that_is_not_word_aligned_is_refused() {
    for len in [1usize, 2, 3, 5, 6, 7, 9] {
        let mut cpu = new_cpu(0);
        let image = vec![0xabu8; len];
        assert_eq!(load_image(&mut cpu, &image, 0), Err("File is not word aligned"));
        assert_eq!(cpu.peek(0), 0);
        assert_eq!(cpu.peek(4), 0);
    }
}

#[test]
fn image_wraps_round_the_address_space() {
    let mut cpu = new_cpu(0xffff_fffc);
    let image = [0, 0, 0, 1, 0, 0, 0, 2];
    assert_eq!(load_image(&mut cpu, &image, 0xffff_fffc), Ok(()));
    assert_eq!(cpu.peek(0xffff_fffc), 1);
    assert_eq!(cpu.peek(0), 2);
}

#[test]
fn image_over_the_output_address_is_sent() {
    let mut cpu = new_cpu(0xffff_0008);
    let image = [0, 0, 0, 1, 0, 0, 1, 0x41, 0, 0, 0, 3];
    assert_eq!(load_image(&mut cpu, &image, 0xffff_0008), Ok(()));
    assert_eq!(cpu.peek(0xffff_0008), 1);
    assert_eq!(cpu.peek(MMIO_OUTPUT), 0);
    assert_eq!(cpu.peek(0xffff_0010), 3);
    assert_eq!(cpu.take_output(), vec![0x41]);
}

#[test]
fn frontend_without_arguments_touches_nothing() {
    let mut cpu = new_cpu(8);
    let before = cpu.to_string();
    apply_frontend(&mut cpu, &InputFrontend::NoArgs, 8);
    assert_eq!(cpu.to_string(), before);
}

#[test]
fn frontend_with_two_numbers() {
    let mut cpu = new_cpu(0);
    apply_frontend(&mut cpu, &InputFrontend::TwoInts { int1: -1, int2: i32::MIN }, 0);
    assert_eq!(cpu.get_reg(Reg::Reg(1)), Ok(0xffff_ffff));
    assert_eq!(cpu.get_reg(Reg::Reg(2)), Ok(0x8000_0000));
    assert_eq!(cpu.get_reg(Reg::Reg(3)), Ok(0));
}

#[test]
fn frontend_with_an_array() {
    let mut cpu = new_cpu(0x100);
    apply_frontend(&mut cpu, &InputFrontend::Array { array: vec![1, -2, 3] }, 0x100);
    assert_eq!(ARRAY_OFFSET, 0x20);
    assert_eq!(cpu.get_reg(Reg::Reg(1)), Ok(0x120));
    assert_eq!(cpu.get_reg(Reg::Reg(2)), Ok(3));
    assert_eq!(cpu.peek(0x120), 1);
    assert_eq!(cpu.peek(0x124), 0xffff_fffe);
    assert_eq!(cpu.peek(0x128), 3);
    assert_eq!(cpu.peek(0x12c), 0);
    assert_eq!(cpu.peek(0x11c), 0);
}

#[test]
fn frontend_with_an_empty_array() {
    let mut cpu = new_cpu(0);
    apply_frontend(&mut cpu, &InputFrontend::Array { array: vec![] }, 0);
    assert_eq!(cpu.get_reg(Reg::Reg(1)), Ok(0x20));
    assert_eq!(cpu.get_reg(Reg::Reg(2)), Ok(0));
    assert_eq!(cpu.peek(0x20), 0);
}

#[test]
fn frontend_array_wraps_round_the_address_space() {
    let mut cpu = new_cpu(0xffff_ffe0);
    apply_frontend(&mut cpu, &InputFrontend::Array { array: vec![7, 8] }, 0xffff_ffe0);
    assert_eq!(cpu.get_reg(Reg::Reg(1)), Ok(0));
    assert_eq!(cpu.peek(0), 7);
    assert_eq!(cpu.peek(4), 8);
}

#[test]
fn word_arithmetic() {
    assert_eq!(add32(0xffff_ffff, 1), 0);
    assert_eq!(add32(7, 35), 42);
    assert_eq!(sub32(0, 1), 0xffff_ffff);
    assert_eq!(times4(0x4000_0001), 4);
    assert_eq!(times4(0xffff_ffff), 0xffff_fffc);
    assert_eq!(to_signed(0xffff_ffff), -1);
    assert_eq!(to_signed(0x8000_0000), i32::MIN);
    assert_eq!(to_signed(0x7fff_ffff), i32::MAX);
    assert_eq!(from_signed(-1), 0xffff_ffff);
    assert_eq!(from_signed(i32::MIN), 0x8000_0000);
}

#[test]
fn word_products_and_quotients() {
    let samples = [0u32, 1, 2, 3, 7, 0x7fff_ffff, 0x8000_0000, 0x8000_0001, 0xffff_fff9, 0xffff_ffff, 0x1234_5678];
    for a in samples {
        for b in samples {
            let signed = (a as i32 as i64) * (b as i32 as i64);
            assert_eq!(mul_signed(a, b), ((signed >> 32) as u32, signed as u32));
            let unsigned = (a as u64) * (b as u64);
            assert_eq!(mul_unsigned(a, b), ((unsigned >> 32) as u32, unsigned as u32));
            if b != 0 {
                let (x, y) = (a as i32, b as i32);
                assert_eq!(div_signed(a, b), (x.wrapping_rem(y) as u32, x.wrapping_div(y) as u32));
                assert_eq!(div_unsigned(a, b), (a % b, a / b));
            }
        }
    }
}
