use emu16::machine::Emulator;

/// Sets one register through the two byte-load instructions.
fn set_reg(e: &mut Emulator, r: u16, val: u16) {
    e.step(Emulator::ldh(r, val >> 8), 0, 0);
    e.step(Emulator::ldl(r, val & 0x00ff), 0, 0);
    assert_eq!(e.reg_at(r), val);
}

#[test]
fn mov_copies_register() {
    let mut e = Emulator::new();
    set_reg(&mut e, 1, 0x1234);
    e.step(Emulator::mov(0, 1), 0, 0);
    assert_eq!(e.reg_at(0), 0x1234);
    assert_eq!(e.reg_at(1), 0x1234);
}

#[test]
fn add_wraps_past_maximum() {
    let mut e = Emulator::new();
    set_reg(&mut e, 0, 0xffff);
    set_reg(&mut e, 1, 1);
    e.step(Emulator::add(0, 1), 0, 0);
    assert_eq!(e.reg_at(0), 0);
}

#[test]
fn sub_wraps_below_zero() {
    let mut e = Emulator::new();
    set_reg(&mut e, 1, 1);
    e.step(Emulator::sub(0, 1), 0, 0);
    assert_eq!(e.reg_at(0), 0xffff);
}

#[test]
fn add_and_sub_without_wrap() {
    let mut e = Emulator::new();
    set_reg(&mut e, 0, 300);
    set_reg(&mut e, 1, 58);
    e.step(Emulator::add(0, 1), 0, 0);
    assert_eq!(e.reg_at(0), 358);
    e.step(Emulator::sub(0, 1), 0, 0);
    assert_eq!(e.reg_at(0), 300);
}

#[test]
fn bitwise_and_or() {
    let mut e = Emulator::new();
    set_reg(&mut e, 0, 0xf0f0);
    set_reg(&mut e, 1, 0x0ff0);
    e.step(Emulator::and(0, 1), 0, 0);
    assert_eq!(e.reg_at(0), 0x00f0);
    set_reg(&mut e, 0, 0xf0f0);
    e.step(Emulator::or(0, 1), 0, 0);
    assert_eq!(e.reg_at(0), 0xfff0);
}

#[test]
fn shifts_move_one_bit() {
    let mut e = Emulator::new();
    set_reg(&mut e, 0, 0x8001);
    e.step(Emulator::sl(0), 0, 0);
    assert_eq!(e.reg_at(0), 0x0002);
    set_reg(&mut e, 1, 0x8002);
    e.step(Emulator::sr(1), 0, 0);
    assert_eq!(e.reg_at(1), 0x4001);
}

#[test]
fn arithmetic_shift_keeps_top_bit() {
    let mut e = Emulator::new();
    set_reg(&mut e, 0, 0x8000);
    e.step(Emulator::sra(0), 0, 0);
    assert_eq!(e.reg_at(0), 0xc000);
}

#[test]
fn arithmetic_shift_of_positive_word() {
    let mut e = Emulator::new();
    set_reg(&mut e, 0, 0x4002);
    e.step(Emulator::sra(0), 0, 0);
    assert_eq!(e.reg_at(0), 0x2001);
}

#[test]
fn load_low_byte_keeps_high_byte() {
    let mut e = Emulator::new();
    set_reg(&mut e, 0, 0xab00);
    e.step(Emulator::ldl(0, 0x34), 0, 0);
    assert_eq!(e.reg_at(0), 0xab34);
}

#[test]
fn load_high_byte_keeps_low_byte() {
    let mut e = Emulator::new();
    set_reg(&mut e, 0, 0x00cd);
    e.step(Emulator::ldh(0, 0x12), 0, 0);
    assert_eq!(e.reg_at(0), 0x12cd);
}

#[test]
fn compare_sets_flag_only_on_equality() {
    let mut e = Emulator::new();
    set_reg(&mut e, 0, 7);
    set_reg(&mut e, 1, 7);
    set_reg(&mut e, 2, 8);
    let (_, flag) = e.step(Emulator::cmp(0, 1), 0, 0);
    assert_eq!(flag, 1);
    let (_, flag) = e.step(Emulator::cmp(0, 2), 0, flag);
    assert_eq!(flag, 0);
}

#[test]
fn jump_if_equal_branches_only_on_flag() {
    let mut e = Emulator::new();
    let (pc, _) = e.step(Emulator::je(42), 5, 1);
    assert_eq!(pc, 42);
    let (pc, _) = e.step(Emulator::je(42), 5, 0);
    assert_eq!(pc, 5);
}

#[test]
fn jump_is_unconditional() {
    let mut e = Emulator::new();
    let (pc, _) = e.step(Emulator::jmp(99), 5, 0);
    assert_eq!(pc, 99);
    let (pc, _) = e.step(Emulator::jmp(99), 5, 1);
    assert_eq!(pc, 99);
}

#[test]
fn store_and_load_data() {
    let mut e = Emulator::new();
    set_reg(&mut e, 0, 0xbeef);
    e.step(Emulator::st(0, 200), 0, 0);
    assert_eq!(e.ram_at(200), 0xbeef);
    e.step(Emulator::ld(1, 200), 0, 0);
    assert_eq!(e.reg_at(1), 0xbeef);
}

#[test]
fn halt_mutates_nothing() {
    let mut e = Emulator::new();
    set_reg(&mut e, 0, 0x1111);
    set_reg(&mut e, 3, 0x2222);
    e.step(Emulator::st(0, 10), 0, 0);
    let (pc, flag) = e.step(Emulator::hlt(), 7, 1);
    assert_eq!(pc, 7);
    assert_eq!(flag, 1);
    assert_eq!(e.reg_at(0), 0x1111);
    assert_eq!(e.reg_at(3), 0x2222);
    assert_eq!(e.ram_at(10), 0x1111);
}

#[test]
fn unknown_opcode_is_a_no_op() {
    let mut e = Emulator::new();
    set_reg(&mut e, 0, 0x1234);
    // Opcode 16 is outside the instruction set.
    let (pc, flag) = e.step(16u16 << 11 | 0x0123, 9, 0);
    assert_eq!(pc, 9);
    assert_eq!(flag, 0);
    assert_eq!(e.reg_at(0), 0x1234);
    assert_eq!(e.reg_at(1), 0);
}

#[test]
fn run_stops_at_once_on_a_halt_word() {
    let mut e = Emulator::new();
    e.set_rom(0, Emulator::hlt());
    e.run();
    for r in 0..8u16 {
        assert_eq!(e.reg_at(r), 0);
    }
    assert_eq!(e.ram_at(0), 0);
    assert_eq!(e.ram_at(64), 0);
}

#[test]
fn run_executes_a_small_program() {
    let mut e = Emulator::new();
    // reg0 := 3, reg1 := 4, reg0 += reg1, store reg0 at 5, halt.
    e.set_rom(0, Emulator::ldl(0, 3));
    e.set_rom(1, Emulator::ldl(1, 4));
    e.set_rom(2, Emulator::add(0, 1));
    e.set_rom(3, Emulator::st(0, 5));
    e.set_rom(4, Emulator::hlt());
    e.run();
    assert_eq!(e.ram_at(5), 7);
    assert_eq!(e.reg_at(0), 7);
}

#[test]
fn assembler_writes_the_reference_program() {
    let mut e = Emulator::new();
    e.assembler();
    assert_eq!(e.rom_at(0), Emulator::ldh(0, 0));
    assert_eq!(e.rom_at(7), Emulator::ldl(3, 10));
    assert_eq!(e.rom_at(8), Emulator::add(2, 1));
    assert_eq!(e.rom_at(12), Emulator::je(14));
    assert_eq!(e.rom_at(13), Emulator::jmp(8));
    assert_eq!(e.rom_at(14), Emulator::hlt());
    assert_eq!(e.rom_at(15), 0);
}

#[test]
fn reference_program_sums_one_through_ten() {
    let mut e = Emulator::new();
    e.assembler();
    e.run();
    assert_eq!(e.ram_at(64), 55);
    assert_eq!(e.reg_at(0), 55);
    assert_eq!(e.reg_at(2), 10);
}
