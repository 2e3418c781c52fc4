use emu16::machine::Emulator;

#[test]
fn test_instructions() {
    // 0 0000 001 010 00000
    assert_eq!(Emulator::mov(1u16, 2u16), 320u16);
    // 0 0001 001 010 00000
    assert_eq!(Emulator::add(1u16, 2u16), 2368u16);
    // 0 0010 001 010 00000
    assert_eq!(Emulator::sub(1u16, 2u16), 4416u16);
    // 0 0011 001 010 00000
    assert_eq!(Emulator::and(1u16, 2u16), 6464u16);
    // 0 0100 001 010 00000
    assert_eq!(Emulator::or(1u16, 2u16), 8512u16);
    // 0 0101 001 00000000
    assert_eq!(Emulator::sl(1u16), 10496u16);
    // 0 0110 001 00000000
    assert_eq!(Emulator::sr(1u16), 12544u16);
    // 0 0111 001 00000000
    assert_eq!(Emulator::sra(1u16), 14592u16);
    // 0 1000 001 00000101
    assert_eq!(Emulator::ldl(1u16, 5u16), 16645u16);
    // 0 1001 001 00000101
    assert_eq!(Emulator::ldh(1u16, 5u16), 18693u16);
    // 0 1010 001 00000101
    assert_eq!(Emulator::cmp(1u16, 5u16), 20896u16);
    // 0 1011 000 00000101
    assert_eq!(Emulator::je(5u16), 22533u16);
    // 0 1100 000 00000101
    assert_eq!(Emulator::jmp(5u16), 24581u16);
    // 0 1101 001 00000101
    assert_eq!(Emulator::ld(1u16, 5u16), 26885u16);
    // 0 1110 101 00000001
    assert_eq!(Emulator::st(5u16, 1u16), 29953u16);
    // 0 1111 101 00000001
    assert_eq!(Emulator::hlt(), 30720u16);
}

#[test]
fn test_operations() {
    // 0 1000 00000000000
    assert_eq!(Emulator::op_code(32768u16), 16u16);
    // 0 0000 100 00000000
    assert_eq!(Emulator::op_reg_a(1024u16), 4u16);
    // 0 0000 000 100 00000
    assert_eq!(Emulator::op_reg_b(128u16), 4u16);
    // 0 0000 001 10000000
    assert_eq!(Emulator::op_data(384u16), 128u16);
    // 0 0000 001 00000001
    assert_eq!(Emulator::op_addr(257u16), 1u16);
}

#[test]
fn round_trip_register_register() {
    let w = Emulator::mov(3, 5);
    assert_eq!(Emulator::op_code(w), 0);
    assert_eq!(Emulator::op_reg_a(w), 3);
    assert_eq!(Emulator::op_reg_b(w), 5);
    let w = Emulator::cmp(7, 1);
    assert_eq!(Emulator::op_code(w), 10);
    assert_eq!(Emulator::op_reg_a(w), 7);
    assert_eq!(Emulator::op_reg_b(w), 1);
}

#[test]
fn round_trip_one_register() {
    let w = Emulator::sl(6);
    assert_eq!(Emulator::op_code(w), 5);
    assert_eq!(Emulator::op_reg_a(w), 6);
    let w = Emulator::sra(2);
    assert_eq!(Emulator::op_code(w), 7);
    assert_eq!(Emulator::op_reg_a(w), 2);
}

#[test]
fn round_trip_immediate() {
    let w = Emulator::ldl(2, 0xfe);
    assert_eq!(Emulator::op_code(w), 8);
    assert_eq!(Emulator::op_reg_a(w), 2);
    assert_eq!(Emulator::op_data(w), 0xfe);
    let w = Emulator::ldh(4, 0);
    assert_eq!(Emulator::op_code(w), 9);
    assert_eq!(Emulator::op_reg_a(w), 4);
    assert_eq!(Emulator::op_data(w), 0);
}

#[test]
fn round_trip_memory() {
    let w = Emulator::ld(1, 255);
    assert_eq!(Emulator::op_code(w), 13);
    assert_eq!(Emulator::op_reg_a(w), 1);
    assert_eq!(Emulator::op_addr(w), 255);
    let w = Emulator::st(6, 64);
    assert_eq!(Emulator::op_code(w), 14);
    assert_eq!(Emulator::op_reg_a(w), 6);
    assert_eq!(Emulator::op_addr(w), 64);
}

#[test]
fn round_trip_branch() {
    let w = Emulator::je(200);
    assert_eq!(Emulator::op_code(w), 11);
    assert_eq!(Emulator::op_addr(w), 200);
    let w = Emulator::jmp(14);
    assert_eq!(Emulator::op_code(w), 12);
    assert_eq!(Emulator::op_addr(w), 14);
}

#[test]
fn round_trip_halt() {
    let w = Emulator::hlt();
    assert_eq!(Emulator::op_code(w), 15);
    assert_eq!(Emulator::op_reg_a(w), 0);
    assert_eq!(Emulator::op_reg_b(w), 0);
    assert_eq!(Emulator::op_addr(w), 0);
}

#[test]
fn immediate_value_is_masked_to_a_byte() {
    let w = Emulator::ldl(1, 0x1234);
    assert_eq!(Emulator::op_data(w), 0x34);
    let w = Emulator::jmp(0x0108);
    assert_eq!(Emulator::op_addr(w), 0x08);
}
