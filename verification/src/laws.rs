//! General properties of the encoding and of the instruction semantics.
//!
//! The round-trip lemmas cover every operand layout the encoder produces:
//! decoding a word built by the encoder gives back the opcode and every
//! operand field.  The remaining lemmas state, for all inputs, how the
//! arithmetic wraps, how the byte loads and the arithmetic right shift
//! treat the untouched bits, when the comparison flag is set and the
//! conditional branch taken, and that a decoded halt changes nothing.

use crate::model::{
    addr_word, exec_instr, halted, halts_within, imm_word, ldh_of, ldl_of, low_byte_of,
    op_code_of, op_word, reference_program, reg_a_of, reg_b_of, reg_word, rr_word, run_config,
    sra_of, step_config, wrap_add, wrap_sub, zeroed_config, Config, ADD, CMP, HLT, JE, JMP, LDH,
    LDL, ST,
};
use vstd::prelude::*;

verus! {

/// Decoding a register-register word gives back the opcode and both
/// register indices, and leaves the low five bits clear.
pub proof fn lemma_rr_round_trip(op: u16, ra: u16, rb: u16)
    by (bit_vector)
    requires
        op < 32,
        ra < 8,
        rb < 8,
    ensures
        op_code_of(rr_word(op, ra, rb)) == op,
        reg_a_of(rr_word(op, ra, rb)) == ra,
        reg_b_of(rr_word(op, ra, rb)) == rb,
        rr_word(op, ra, rb) & 0x001f == 0,
{
}

/// Decoding a one-register word gives back the opcode and the register
/// index, and leaves the low byte and the register-B field clear.
pub proof fn lemma_reg_round_trip(op: u16, ra: u16)
    by (bit_vector)
    requires
        op < 32,
        ra < 8,
    ensures
        op_code_of(reg_word(op, ra)) == op,
        reg_a_of(reg_word(op, ra)) == ra,
        reg_b_of(reg_word(op, ra)) == 0,
        low_byte_of(reg_word(op, ra)) == 0,
{
}

/// Decoding an immediate or memory word gives back the opcode, the register
/// index and the byte value, which any value in 0..256 survives unchanged.
pub proof fn lemma_imm_round_trip(op: u16, ra: u16, v: u16)
    by (bit_vector)
    requires
        op < 32,
        ra < 8,
    ensures
        op_code_of(imm_word(op, ra, v)) == op,
        reg_a_of(imm_word(op, ra, v)) == ra,
        low_byte_of(imm_word(op, ra, v)) == v & 0x00ff,
        v < 256 ==> low_byte_of(imm_word(op, ra, v)) == v,
{
}

/// Decoding a branch word gives back the opcode and the target address,
/// which any address in 0..256 survives unchanged, and leaves the
/// register-A field clear.
pub proof fn lemma_addr_round_trip(op: u16, addr: u16)
    by (bit_vector)
    requires
        op < 32,
    ensures
        op_code_of(addr_word(op, addr)) == op,
        reg_a_of(addr_word(op, addr)) == 0,
        low_byte_of(addr_word(op, addr)) == addr & 0x00ff,
        addr < 256 ==> low_byte_of(addr_word(op, addr)) == addr,
{
}

/// Decoding an operand-free word gives back the opcode and leaves every
/// operand field clear.
pub proof fn lemma_op_round_trip(op: u16)
    by (bit_vector)
    requires
        op < 32,
    ensures
        op_code_of(op_word(op)) == op,
        reg_a_of(op_word(op)) == 0,
        reg_b_of(op_word(op)) == 0,
        low_byte_of(op_word(op)) == 0,
{
}

/// The machine's addition is addition modulo 2^16: one past the largest
/// word comes back to zero.
pub proof fn lemma_add_wraps(x: u16, y: u16)
    ensures
        wrap_add(x, y) == (x + y) % 0x10000,
{
}

/// The machine's subtraction is subtraction modulo 2^16: one below zero
/// comes back to the largest word.
pub proof fn lemma_sub_wraps(x: u16, y: u16)
    ensures
        wrap_sub(x, y) == (x - y + 0x10000) % 0x10000,
{
}

/// The arithmetic right shift keeps the original top bit in place, shifts
/// every other bit right by one, and so never sign-extends past bit 14.
pub proof fn lemma_sra_keeps_high_bit(x: u16)
    by (bit_vector)
    ensures
        sra_of(x) & 0x8000 == x & 0x8000,
        sra_of(x) & 0x7fff == x >> 1,
{
}

/// Loading the low byte leaves the high byte untouched and puts the byte
/// value in the low half.
pub proof fn lemma_ldl_keeps_high_byte(x: u16, v: u16)
    by (bit_vector)
    ensures
        ldl_of(x, v) & 0xff00 == x & 0xff00,
        ldl_of(x, v) & 0x00ff == v & 0x00ff,
{
}

/// Loading the high byte leaves the low byte untouched and puts the byte
/// value in the high half.
pub proof fn lemma_ldh_keeps_low_byte(x: u16, v: u16)
    by (bit_vector)
    ensures
        ldh_of(x, v) & 0x00ff == x & 0x00ff,
        ldh_of(x, v) >> 8 == v & 0x00ff,
{
}

/// The comparison instruction sets the flag to one exactly when the two
/// registers hold equal words, and changes nothing else.
pub proof fn lemma_cmp_sets_flag_on_equality(c: Config)
    requires
        op_code_of(c.ir) == CMP,
    ensures
        exec_instr(c).flag == (if c.regs[reg_a_of(c.ir) as int] == c.regs[reg_b_of(c.ir) as int] {
            1u16
        } else {
            0u16
        }),
        exec_instr(c).regs == c.regs,
        exec_instr(c).ram == c.ram,
        exec_instr(c).pc == c.pc,
{
}

/// The conditional branch goes to the decoded target exactly when the flag
/// is one and otherwise falls through to the already advanced program
/// counter, and changes nothing else.
pub proof fn lemma_je_branches_on_flag(c: Config)
    requires
        op_code_of(c.ir) == JE,
    ensures
        exec_instr(c).pc == (if c.flag == 1 {
            low_byte_of(c.ir)
        } else {
            c.pc
        }),
        exec_instr(c).regs == c.regs,
        exec_instr(c).ram == c.ram,
        exec_instr(c).flag == c.flag,
{
}

/// A decoded halt mutates nothing: the configuration it executes in is the
/// configuration it leaves.
pub proof fn lemma_halt_mutates_nothing(c: Config)
    requires
        op_code_of(c.ir) == HLT,
    ensures
        exec_instr(c) == c,
{
}

/// Once the machine is halted the cycle loop takes no further step: no
/// allowance of further cycles changes the configuration.
pub proof fn lemma_halted_stays(rom: Seq<u16>, c: Config, n: nat)
    requires
        halted(c),
    ensures
        run_config(rom, c, n) == c,
{
}

/// An all-zero instruction store, data store or register file.
spec fn zeros(n: nat) -> Seq<u16> {
    Seq::new(n, |i: int| 0u16)
}

/// The reference hardcoded program over an otherwise empty instruction
/// store.
spec fn ref_rom() -> Seq<u16> {
    reference_program(zeros(256))
}

/// The register file while the reference program's loop runs: the
/// accumulated sum, the constant step one, the counter, the constant bound
/// ten, and four untouched registers.
spec fn loop_regs(sum: u16, k: u16) -> Seq<u16> {
    seq![sum, 1u16, k, 10u16, 0u16, 0u16, 0u16, 0u16]
}

/// The configuration at the top of the reference program's loop: the sum so
/// far is in register 0 and at data address 64, the counter in register 2.
spec fn loop_entry(sum: u16, k: u16, ir: u16) -> Config {
    Config { regs: loop_regs(sum, k), ram: zeros(256).update(64, sum), pc: 8, flag: 0, ir: ir }
}

/// The configuration the reference program halts in, holding the final sum.
spec fn final_cfg(sum: u16) -> Config {
    Config {
        regs: loop_regs(sum, 10),
        ram: zeros(256).update(64, sum),
        pc: 15,
        flag: 1,
        ir: op_word(HLT),
    }
}

/// The sum the reference program's loop accumulates when it starts a pass
/// with sum `sum` and counter `k`: the counter steps up to ten and each
/// value is added in.
spec fn pass_sum(sum: u16, k: u16) -> u16
    decreases 10 - k,
{
    if k >= 9 {
        wrap_add(sum, 10)
    } else {
        pass_sum(wrap_add(sum, (k + 1) as u16), (k + 1) as u16)
    }
}

/// Folds one cycle into the cycle-loop predicates: a configuration that can
/// take a step and then halts within `n` cycles halts within `n + 1`.
proof fn lemma_chain(rom: Seq<u16>, c: Config, n: nat)
    requires
        !halted(c),
        c.pc < 256,
        halts_within(rom, step_config(rom, c), n),
    ensures
        halts_within(rom, c, n + 1),
        run_config(rom, c, n + 1) == run_config(rom, step_config(rom, c), n),
{
}

/// One full pass of the reference program's loop, by induction on the
/// counter: from the top of the loop the machine halts in the final
/// configuration, with every remaining counter value added into the sum.
proof fn lemma_loop(sum: u16, k: u16, ir: u16)
    requires
        k < 10,
        op_code_of(ir) != HLT,
    ensures
        halts_within(ref_rom(), loop_entry(sum, k, ir), (6 * (10 - k)) as nat),
        run_config(ref_rom(), loop_entry(sum, k, ir), (6 * (10 - k)) as nat) == final_cfg(
            pass_sum(sum, k),
        ),
    decreases 10 - k,
{
    let rom = ref_rom();
    let k1: u16 = (k + 1) as u16;
    let s1: u16 = wrap_add(sum, k1);
    lemma_rr_round_trip(ADD, 2, 1);
    lemma_rr_round_trip(ADD, 0, 2);
    lemma_imm_round_trip(ST, 0, 64);
    lemma_rr_round_trip(CMP, 2, 3);
    lemma_addr_round_trip(JE, 14);
    lemma_addr_round_trip(JMP, 8);
    lemma_op_round_trip(HLT);
    let c0 = loop_entry(sum, k, ir);
    let c1 = Config { regs: loop_regs(sum, k1), pc: 9, ir: rr_word(ADD, 2, 1), ..c0 };
    let c2 = Config { regs: loop_regs(s1, k1), pc: 10, ir: rr_word(ADD, 0, 2), ..c1 };
    let c3 = Config { ram: zeros(256).update(64, s1), pc: 11, ir: imm_word(ST, 0, 64), ..c2 };
    let c4 = Config {
        flag: if k1 == 10 { 1u16 } else { 0u16 },
        pc: 12,
        ir: rr_word(CMP, 2, 3),
        ..c3
    };
    let c5 = Config { pc: if k1 == 10 { 14u16 } else { 13u16 }, ir: addr_word(JE, 14), ..c4 };
    assert(step_config(rom, c0) =~= c1);
    assert(step_config(rom, c1) =~= c2);
    assert(step_config(rom, c2) =~= c3);
    assert(step_config(rom, c3) =~= c4);
    assert(step_config(rom, c4) =~= c5);
    if k < 9 {
        let c6 = loop_entry(s1, k1, addr_word(JMP, 8));
        assert(step_config(rom, c5) =~= c6);
        lemma_loop(s1, k1, addr_word(JMP, 8));
        let rest: nat = (6 * (10 - k1)) as nat;
        lemma_chain(rom, c5, rest);
        lemma_chain(rom, c4, rest + 1);
        lemma_chain(rom, c3, rest + 2);
        lemma_chain(rom, c2, rest + 3);
        lemma_chain(rom, c1, rest + 4);
        lemma_chain(rom, c0, rest + 5);
    } else {
        let c6 = final_cfg(s1);
        assert(step_config(rom, c5) =~= c6);
        assert(halts_within(rom, c6, 0));
        lemma_chain(rom, c5, 0);
        lemma_chain(rom, c4, 1);
        lemma_chain(rom, c3, 2);
        lemma_chain(rom, c2, 3);
        lemma_chain(rom, c1, 4);
        lemma_chain(rom, c0, 5);
        assert(run_config(rom, c6, 0) == c6);
    }
}

/// Running the reference hardcoded program on a fresh machine halts the
/// cycle loop within 68 cycles, and leaves the sum of one through ten — 55
/// — at data-store address 64 and in register 0, with register 2 counted up
/// to ten.
pub proof fn lemma_reference_program_sums_to_55()
    ensures
        halts_within(reference_program(Seq::new(256, |i: int| 0u16)), zeroed_config(), 68),
        run_config(reference_program(Seq::new(256, |i: int| 0u16)), zeroed_config(), 68).ram
            =~= Seq::new(256, |i: int| 0u16).update(64, 55u16),
        run_config(reference_program(Seq::new(256, |i: int| 0u16)), zeroed_config(), 68).regs
            =~= seq![55u16, 1u16, 10u16, 10u16, 0u16, 0u16, 0u16, 0u16],
        halted(run_config(reference_program(Seq::new(256, |i: int| 0u16)), zeroed_config(), 68)),
{
    let rom = ref_rom();
    assert(ldh_of(0, 0) == 0 && ldl_of(0, 0) == 0 && ldl_of(0, 1) == 1 && ldl_of(0, 10) == 10
        && (0u16 >> 11) == 0) by (bit_vector);
    lemma_op_round_trip(HLT);
    lemma_imm_round_trip(LDH, 0, 0);
    lemma_imm_round_trip(LDL, 0, 0);
    lemma_imm_round_trip(LDH, 1, 0);
    lemma_imm_round_trip(LDL, 1, 1);
    lemma_imm_round_trip(LDH, 2, 0);
    lemma_imm_round_trip(LDL, 2, 0);
    lemma_imm_round_trip(LDH, 3, 0);
    lemma_imm_round_trip(LDL, 3, 10);
    let i0 = zeroed_config();
    let i1 = Config { regs: zeros(8), pc: 1, ir: imm_word(LDH, 0, 0), ..i0 };
    let i2 = Config { pc: 2, ir: imm_word(LDL, 0, 0), ..i1 };
    let i3 = Config { pc: 3, ir: imm_word(LDH, 1, 0), ..i2 };
    let i4 = Config { regs: zeros(8).update(1, 1), pc: 4, ir: imm_word(LDL, 1, 1), ..i3 };
    let i5 = Config { pc: 5, ir: imm_word(LDH, 2, 0), ..i4 };
    let i6 = Config { pc: 6, ir: imm_word(LDL, 2, 0), ..i5 };
    let i7 = Config { pc: 7, ir: imm_word(LDH, 3, 0), ..i6 };
    let i8 = loop_entry(0, 0, imm_word(LDL, 3, 10));
    assert(step_config(rom, i0) =~= i1);
    assert(step_config(rom, i1) =~= i2);
    assert(step_config(rom, i2) =~= i3);
    assert(step_config(rom, i3) =~= i4);
    assert(step_config(rom, i4) =~= i5);
    assert(step_config(rom, i5) =~= i6);
    assert(step_config(rom, i6) =~= i7);
    assert(step_config(rom, i7) =~= i8);
    lemma_loop(0, 0, imm_word(LDL, 3, 10));
    lemma_chain(rom, i7, 60);
    lemma_chain(rom, i6, 61);
    lemma_chain(rom, i5, 62);
    lemma_chain(rom, i4, 63);
    lemma_chain(rom, i3, 64);
    lemma_chain(rom, i2, 65);
    lemma_chain(rom, i1, 66);
    lemma_chain(rom, i0, 67);
    reveal_with_fuel(pass_sum, 11);
    assert(pass_sum(0, 0) == 55);
    assert(run_config(rom, i0, 68) == final_cfg(55));
}

/// An opcode value the instruction set does not define executes as a no-op.
pub proof fn lemma_unknown_opcode_is_no_op(c: Config)
    requires
        op_code_of(c.ir) > 15,
    ensures
        exec_instr(c) == c,
{
}

} // verus!
