//! Mathematical model of the instruction set.
//!
//! An instruction word is a `u16` with the opcode in bits 15..11, the
//! register-A index in bits 10..8, the register-B index in bits 7..5 and an
//! 8-bit immediate value or address in bits 7..0; which of the lower fields
//! is meaningful depends on the opcode.  A machine configuration is the
//! register file, the data store, the program counter, the comparison flag
//! and the most recently fetched word.  `exec_instr` gives the meaning of
//! one decoded instruction, `step_config` the meaning of one whole
//! fetch-advance-execute cycle, and `run_config` the meaning of running
//! until the halt opcode is decoded.

use vstd::prelude::*;

verus! {

pub const MOV: u16 = 0;

pub const ADD: u16 = 1;

pub const SUB: u16 = 2;

pub const AND: u16 = 3;

pub const OR: u16 = 4;

pub const SL: u16 = 5;

pub const SR: u16 = 6;

pub const SRA: u16 = 7;

pub const LDL: u16 = 8;

pub const LDH: u16 = 9;

pub const CMP: u16 = 10;

pub const JE: u16 = 11;

pub const JMP: u16 = 12;

pub const LD: u16 = 13;

pub const ST: u16 = 14;

pub const HLT: u16 = 15;

/// The opcode field of a word: bits 15..11.
pub open spec fn op_code_of(ir: u16) -> u16 {
    ir >> 11
}

/// The register-A field of a word: bits 10..8.
pub open spec fn reg_a_of(ir: u16) -> u16 {
    (ir >> 8) & 0x0007
}

/// The register-B field of a word: bits 7..5.
pub open spec fn reg_b_of(ir: u16) -> u16 {
    (ir >> 5) & 0x0007
}

/// The low byte of a word, read as an immediate value or as an address.
pub open spec fn low_byte_of(ir: u16) -> u16 {
    ir & 0x00ff
}

/// The word for a register-register operation: opcode, register A, register B.
pub open spec fn rr_word(op: u16, ra: u16, rb: u16) -> u16 {
    op << 11 | ra << 8 | rb << 5
}

/// The word for a one-register operation: opcode and register A only.
pub open spec fn reg_word(op: u16, ra: u16) -> u16 {
    op << 11 | ra << 8
}

/// The word for an immediate or memory operation: opcode, register A and a
/// byte value masked into the low byte.
pub open spec fn imm_word(op: u16, ra: u16, v: u16) -> u16 {
    op << 11 | ra << 8 | (v & 0x00ff)
}

/// The word for a branch operation: opcode and a target address masked into
/// the low byte.
pub open spec fn addr_word(op: u16, addr: u16) -> u16 {
    op << 11 | (addr & 0x00ff)
}

/// The word for an operation without operands: opcode field only.
pub open spec fn op_word(op: u16) -> u16 {
    op << 11
}

/// 16-bit addition that wraps around on overflow.
pub open spec fn wrap_add(x: u16, y: u16) -> u16 {
    if x + y > 0xffff {
        (x + y - 0x10000) as u16
    } else {
        (x + y) as u16
    }
}

/// 16-bit subtraction that wraps around on underflow.
pub open spec fn wrap_sub(x: u16, y: u16) -> u16 {
    if x - y < 0 {
        (x - y + 0x10000) as u16
    } else {
        (x - y) as u16
    }
}

/// The arithmetic right shift of this machine: the word is shifted right by
/// one and the original top bit is kept in place, rather than being copied
/// into every vacated position.
pub open spec fn sra_of(x: u16) -> u16 {
    (x & 0x8000) | (x >> 1)
}

/// Loading a byte into the low half of a register: the high byte is kept.
pub open spec fn ldl_of(x: u16, v: u16) -> u16 {
    (x & 0xff00) | (v & 0x00ff)
}

/// Loading a byte into the high half of a register: the low byte is kept.
pub open spec fn ldh_of(x: u16, v: u16) -> u16 {
    ((v & 0x00ff) << 8) | (x & 0x00ff)
}

/// A machine configuration: the register file, the data store, the program
/// counter, the comparison flag and the most recently fetched word.
#[verifier::ext_equal]
pub struct Config {
    pub regs: Seq<u16>,
    pub ram: Seq<u16>,
    pub pc: u16,
    pub flag: u16,
    pub ir: u16,
}

/// A configuration whose register file and data store have the machine's
/// fixed sizes.
pub open spec fn cfg_wf(c: Config) -> bool {
    &&& c.regs.len() == 8
    &&& c.ram.len() == 256
}

/// The most recently fetched word decodes to the halt opcode, so the cycle
/// loop stops.
pub open spec fn halted(c: Config) -> bool {
    op_code_of(c.ir) == HLT
}

/// The effect of one decoded instruction on a configuration.  The program
/// counter in `c` has already been advanced past the fetched word, so a
/// branch simply overwrites it.  The halt opcode and every opcode value the
/// instruction set does not define change nothing.
pub open spec fn exec_instr(c: Config) -> Config {
    let op = op_code_of(c.ir);
    let a = reg_a_of(c.ir) as int;
    let b = reg_b_of(c.ir) as int;
    let v = low_byte_of(c.ir);
    if op == MOV {
        Config { regs: c.regs.update(a, c.regs[b]), ..c }
    } else if op == ADD {
        Config { regs: c.regs.update(a, wrap_add(c.regs[a], c.regs[b])), ..c }
    } else if op == SUB {
        Config { regs: c.regs.update(a, wrap_sub(c.regs[a], c.regs[b])), ..c }
    } else if op == AND {
        Config { regs: c.regs.update(a, c.regs[a] & c.regs[b]), ..c }
    } else if op == OR {
        Config { regs: c.regs.update(a, c.regs[a] | c.regs[b]), ..c }
    } else if op == SL {
        Config { regs: c.regs.update(a, c.regs[a] << 1), ..c }
    } else if op == SR {
        Config { regs: c.regs.update(a, c.regs[a] >> 1), ..c }
    } else if op == SRA {
        Config { regs: c.regs.update(a, sra_of(c.regs[a])), ..c }
    } else if op == LDL {
        Config { regs: c.regs.update(a, ldl_of(c.regs[a], v)), ..c }
    } else if op == LDH {
        Config { regs: c.regs.update(a, ldh_of(c.regs[a], v)), ..c }
    } else if op == CMP {
        Config { flag: if c.regs[a] == c.regs[b] { 1 } else { 0 }, ..c }
    } else if op == JE {
        if c.flag == 1 {
            Config { pc: v, ..c }
        } else {
            c
        }
    } else if op == JMP {
        Config { pc: v, ..c }
    } else if op == LD {
        Config { regs: c.regs.update(a, c.ram[v as int]), ..c }
    } else if op == ST {
        Config { ram: c.ram.update(v as int, c.regs[a]), ..c }
    } else {
        c
    }
}

/// One whole cycle: fetch the word at the program counter from the
/// instruction store, advance the program counter, then execute the word.
pub open spec fn step_config(rom: Seq<u16>, c: Config) -> Config
    recommends
        c.pc < 256,
{
    exec_instr(Config { pc: (c.pc + 1) as u16, ir: rom[c.pc as int], ..c })
}

/// The cycle loop, starting from `c`, reaches a halted configuration within
/// `n` cycles, fetching every word from inside the instruction store.
pub open spec fn halts_within(rom: Seq<u16>, c: Config, n: nat) -> bool
    decreases n,
{
    if halted(c) {
        true
    } else if n == 0 || c.pc >= 256 {
        false
    } else {
        halts_within(rom, step_config(rom, c), (n - 1) as nat)
    }
}

/// The configuration the cycle loop reaches from `c` within at most `n`
/// cycles: cycles are taken until the machine halts, until a fetch would
/// fall outside the instruction store, or until the allowance runs out.
pub open spec fn run_config(rom: Seq<u16>, c: Config, n: nat) -> Config
    decreases n,
{
    if halted(c) || n == 0 || c.pc >= 256 {
        c
    } else {
        run_config(rom, step_config(rom, c), (n - 1) as nat)
    }
}

/// The configuration of a freshly constructed machine at the start of the
/// cycle loop: registers, data store, program counter, comparison flag and
/// fetched word all zero.
pub open spec fn zeroed_config() -> Config {
    Config {
        regs: Seq::new(8, |i: int| 0u16),
        ram: Seq::new(256, |i: int| 0u16),
        pc: 0,
        flag: 0,
        ir: 0,
    }
}

/// The reference hardcoded program written over the start of an instruction
/// store: registers 0 and 2 are cleared, register 1 is set to one and
/// register 3 to ten, then register 2 counts up by register 1, each count is
/// accumulated into register 0 and stored at data-store address 64, until
/// register 2 reaches register 3 and the machine halts.
pub open spec fn reference_program(rom: Seq<u16>) -> Seq<u16> {
    rom.update(0, imm_word(LDH, 0, 0)).update(1, imm_word(LDL, 0, 0)).update(
        2,
        imm_word(LDH, 1, 0),
    ).update(3, imm_word(LDL, 1, 1)).update(4, imm_word(LDH, 2, 0)).update(
        5,
        imm_word(LDL, 2, 0),
    ).update(6, imm_word(LDH, 3, 0)).update(7, imm_word(LDL, 3, 10)).update(
        8,
        rr_word(ADD, 2, 1),
    ).update(9, rr_word(ADD, 0, 2)).update(10, imm_word(ST, 0, 64)).update(
        11,
        rr_word(CMP, 2, 3),
    ).update(12, addr_word(JE, 14)).update(13, addr_word(JMP, 8)).update(14, op_word(HLT))
}

/// When the cycle loop halts within `n` cycles, `run_config` with allowance
/// `n` reaches a halted configuration.
pub proof fn lemma_halts_within_halted(rom: Seq<u16>, c: Config, n: nat)
    requires
        halts_within(rom, c, n),
    ensures
        halted(run_config(rom, c, n)),
    decreases n,
{
    if !halted(c) {
        lemma_halts_within_halted(rom, step_config(rom, c), (n - 1) as nat);
    }
}

/// The halted configuration the cycle loop reaches does not depend on which
/// cycle allowance witnesses the halt: any two sufficient allowances give
/// the same result.
pub proof fn lemma_run_config_agrees(rom: Seq<u16>, c: Config, n1: nat, n2: nat)
    requires
        halts_within(rom, c, n1),
        halts_within(rom, c, n2),
    ensures
        run_config(rom, c, n1) == run_config(rom, c, n2),
    decreases n1,
{
    if !halted(c) {
        lemma_run_config_agrees(rom, step_config(rom, c), (n1 - 1) as nat, (n2 - 1) as nat);
    }
}

} // verus!
