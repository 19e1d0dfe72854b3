use uwmips::bus::{Bus, MMIO_INPUT, MMIO_INPUT_PEEK, MMIO_OUTPUT};
use uwmips::mem::MEM;

#[test]
fn memory_reads_zero_where_nothing_was_written() {
    let mut mem = MEM::new();
    for addr in [0, 4, 0x1000, 0xffff_0004, 0xffff_000c, 0xffff_fffc] {
        assert_eq!(mem.peek(addr), 0);
        assert_eq!(mem.load(addr), 0);
    }
}

#[test]
fn memory_store_then_peek() {
    let mut mem = MEM::new();
    mem.store(8, 0x1234_5678);
    assert_eq!(mem.peek(8), 0x1234_5678);
    assert_eq!(mem.load(8), 0x1234_5678);
    assert_eq!(mem.peek(4), 0);
    assert_eq!(mem.peek(12), 0);
    mem.store(8, 1);
    assert_eq!(mem.peek(8), 1);
    mem.store(8, 0);
    assert_eq!(mem.peek(8), 0);
}

#[test]
fn memory_clone_is_independent() {
    let mut mem = MEM::new();
    mem.store(4, 1);
    let copy = mem.clone();
    mem.store(4, 2);
    mem.store(8, 3);
    assert_eq!(copy.peek(4), 1);
    assert_eq!(copy.peek(8), 0);
    assert_eq!(mem.peek(4), 2);
}

#[test]
fn bus_store_then_peek() {
    let mut bus = Bus::new(MEM::new());
    for (addr, val) in [(0, 5), (4, 0xffff_ffff), (0x8123_456c, 7), (0xffff_fffc, 9), (0xffff_0008, 3)] {
        bus.store(addr, val);
        assert_eq!(bus.peek(addr), val);
        assert_eq!(bus.load(addr), val);
    }
    assert_eq!(bus.peek(4), 0xffff_ffff);
    assert_eq!(bus.peek(0), 5);
}

#[test]
fn bus_reads_zero_where_nothing_was_written() {
    let mut bus = Bus::new(MEM::new());
    bus.store(0x100, 1);
    bus.store(MMIO_OUTPUT, 2);
    for addr in [0, 0xfc, 0x104, MMIO_OUTPUT, 0xffff_0000, 0xffff_0008] {
        assert_eq!(bus.peek(addr), 0);
        assert_eq!(bus.load(addr), 0);
    }
}

#[test]
fn bus_peek_at_the_input_address_is_the_marker() {
    let mut bus = Bus::new(MEM::new());
    assert_eq!(MMIO_INPUT, 0xffff_0004);
    assert_eq!(bus.peek(0xffff_0004), 0x1010_1010);
    assert_eq!(MMIO_INPUT_PEEK, 0x1010_1010);
    bus.feed_input(b'a');
    assert_eq!(bus.peek(MMIO_INPUT), 0x1010_1010);
    assert!(bus.has_input());
    // A store there goes to memory, and does not show in a peek.
    bus.store(MMIO_INPUT, 77);
    assert_eq!(bus.peek(MMIO_INPUT), 0x1010_1010);
    assert_eq!(bus.load(MMIO_INPUT), b'a' as u32);
}

#[test]
fn bus_load_at_the_input_address_consumes_bytes_in_order() {
    let mut bus = Bus::new(MEM::new());
    assert!(!bus.has_input());
    bus.feed_input(0x41);
    bus.feed_input(0xff);
    assert_eq!(bus.load(MMIO_INPUT), 0x41);
    assert!(bus.has_input());
    assert_eq!(bus.load(MMIO_INPUT), 0xff);
    assert!(!bus.has_input());
}

#[test]
fn bus_store_at_the_output_address_sends_the_low_byte() {
    let mut bus = Bus::new(MEM::new());
    assert_eq!(MMIO_OUTPUT, 0xffff_000c);
    bus.store(0xffff_000c, 0x1234_5668);
    bus.store(0xffff_000c, 0x69);
    assert_eq!(bus.peek(MMIO_OUTPUT), 0);
    assert_eq!(bus.load(MMIO_OUTPUT), 0);
    assert_eq!(bus.take_output(), b"hi".to_vec());
    assert_eq!(bus.take_output(), Vec::<u8>::new());
}

#[test]
fn bus_clone_is_independent() {
    let mut bus = Bus::new(MEM::new());
    bus.store(4, 1);
    bus.feed_input(9);
    let mut copy = bus.clone();
    bus.store(4, 2);
    assert_eq!(bus.load(MMIO_INPUT), 9);
    assert_eq!(copy.peek(4), 1);
    assert!(copy.has_input());
    assert_eq!(copy.load(MMIO_INPUT), 9);
}

#[test]
fn bus_restore_takes_the_memory_only() {
    let mut bus = Bus::new(MEM::new());
    bus.store(4, 1);
    let snapshot = bus.clone();
    bus.store(4, 2);
    bus.store(8, 3);
    bus.feed_input(5);
    bus.store(MMIO_OUTPUT, 6);
    bus.restore(snapshot);
    assert_eq!(bus.peek(4), 1);
    assert_eq!(bus.peek(8), 0);
    assert!(bus.has_input());
    assert_eq!(bus.take_output(), vec![6]);
}
