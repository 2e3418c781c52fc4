//! The executable emulator.
//!
//! `Emulator` owns the register file, the instruction store and the data
//! store.  Its associated functions encode and decode instruction words,
//! `step` executes one decoded word, and `run` drives the cycle loop until
//! the halt opcode is decoded.  Every contract is stated over the
//! configurations of `crate::model`.

use crate::model::{
    addr_word, exec_instr, halted, halts_within, imm_word, lemma_halts_within_halted,
    lemma_run_config_agrees, low_byte_of, op_code_of, op_word, reference_program, reg_a_of,
    reg_b_of, reg_word, rr_word, run_config, step_config, Config, ADD, AND, CMP, HLT, JE, JMP,
    LD, LDH, LDL, MOV, OR, SL, SR, SRA, ST, SUB,
};
use vstd::prelude::*;

verus! {

/// The machine: eight 16-bit registers, a 256-word instruction store and a
/// 256-word data store.
pub struct Emulator {
    reg: [u16; 8],
    rom: [u16; 256],
    ram: [u16; 256],
}

impl Emulator {
    /// The register file as a sequence of eight words.
    pub closed spec fn regs(self) -> Seq<u16> {
        self.reg@
    }

    /// The instruction store as a sequence of 256 words.
    pub closed spec fn prog(self) -> Seq<u16> {
        self.rom@
    }

    /// The data store as a sequence of 256 words.
    pub closed spec fn data(self) -> Seq<u16> {
        self.ram@
    }

    /// The machine together with a program counter, a comparison flag and a
    /// fetched word, as one configuration of the model.
    pub open spec fn cfg(self, pc: u16, flag: u16, ir: u16) -> Config {
        Config { regs: self.regs(), ram: self.data(), pc: pc, flag: flag, ir: ir }
    }

    /// A fresh machine: registers, instruction store and data store all zero.
    pub fn new() -> (e: Emulator)
        ensures
            e.regs() == Seq::new(8, |i: int| 0u16),
            e.prog() == Seq::new(256, |i: int| 0u16),
            e.data() == Seq::new(256, |i: int| 0u16),
    {
        let e = Emulator { reg: [0u16; 8], rom: [0u16; 256], ram: [0u16; 256] };
        proof {
            assert(e.regs() =~= Seq::new(8, |i: int| 0u16));
            assert(e.prog() =~= Seq::new(256, |i: int| 0u16));
            assert(e.data() =~= Seq::new(256, |i: int| 0u16));
        }
        e
    }

    /// Encode a register-to-register move.
    pub fn mov(ra: u16, rb: u16) -> (r: u16)
        requires
            ra < 8,
            rb < 8,
        ensures
            r == rr_word(MOV, ra, rb),
    {
        MOV << 11 | ra << 8 | rb << 5
    }

    /// Encode a wrapping addition of register B into register A.
    pub fn add(ra: u16, rb: u16) -> (r: u16)
        requires
            ra < 8,
            rb < 8,
        ensures
            r == rr_word(ADD, ra, rb),
    {
        ADD << 11 | ra << 8 | rb << 5
    }

    /// Encode a wrapping subtraction of register B from register A.
    pub fn sub(ra: u16, rb: u16) -> (r: u16)
        requires
            ra < 8,
            rb < 8,
        ensures
            r == rr_word(SUB, ra, rb),
    {
        SUB << 11 | ra << 8 | rb << 5
    }

    /// Encode a bitwise and of register B into register A.
    pub fn and(ra: u16, rb: u16) -> (r: u16)
        requires
            ra < 8,
            rb < 8,
        ensures
            r == rr_word(AND, ra, rb),
    {
        AND << 11 | ra << 8 | rb << 5
    }

    /// Encode a bitwise or of register B into register A.
    pub fn or(ra: u16, rb: u16) -> (r: u16)
        requires
            ra < 8,
            rb < 8,
        ensures
            r == rr_word(OR, ra, rb),
    {
        OR << 11 | ra << 8 | rb << 5
    }

    /// Encode a left shift of register A by one.
    pub fn sl(ra: u16) -> (r: u16)
        requires
            ra < 8,
        ensures
            r == reg_word(SL, ra),
    {
        SL << 11 | ra << 8
    }

    /// Encode a logical right shift of register A by one.
    pub fn sr(ra: u16) -> (r: u16)
        requires
            ra < 8,
        ensures
            r == reg_word(SR, ra),
    {
        SR << 11 | ra << 8
    }

    /// Encode an arithmetic right shift of register A by one.
    pub fn sra(ra: u16) -> (r: u16)
        requires
            ra < 8,
        ensures
            r == reg_word(SRA, ra),
    {
        SRA << 11 | ra << 8
    }

    /// Encode a load of a byte into the low half of register A.
    pub fn ldl(ra: u16, ival: u16) -> (r: u16)
        requires
            ra < 8,
        ensures
            r == imm_word(LDL, ra, ival),
    {
        LDL << 11 | ra << 8 | (ival & 0x00ff)
    }

    /// Encode a load of a byte into the high half of register A.
    pub fn ldh(ra: u16, ival: u16) -> (r: u16)
        requires
            ra < 8,
        ensures
            r == imm_word(LDH, ra, ival),
    {
        LDH << 11 | ra << 8 | (ival & 0x00ff)
    }

    /// Encode a comparison of register A with register B.
    pub fn cmp(ra: u16, rb: u16) -> (r: u16)
        requires
            ra < 8,
            rb < 8,
        ensures
            r == rr_word(CMP, ra, rb),
    {
        CMP << 11 | ra << 8 | rb << 5
    }

    /// Encode a conditional branch, taken when the comparison flag is set.
    pub fn je(addr: u16) -> (r: u16)
        ensures
            r == addr_word(JE, addr),
    {
        JE << 11 | (addr & 0x00ff)
    }

    /// Encode an unconditional branch.
    pub fn jmp(addr: u16) -> (r: u16)
        ensures
            r == addr_word(JMP, addr),
    {
        JMP << 11 | (addr & 0x00ff)
    }

    /// Encode a load of a data-store word into register A.
    pub fn ld(ra: u16, addr: u16) -> (r: u16)
        requires
            ra < 8,
        ensures
            r == imm_word(LD, ra, addr),
    {
        LD << 11 | ra << 8 | (addr & 0x00ff)
    }

    /// Encode a store of register A into a data-store word.
    pub fn st(ra: u16, addr: u16) -> (r: u16)
        requires
            ra < 8,
        ensures
            r == imm_word(ST, ra, addr),
    {
        ST << 11 | ra << 8 | (addr & 0x00ff)
    }

    /// Encode the halt instruction.
    pub fn hlt() -> (r: u16)
        ensures
            r == op_word(HLT),
    {
        HLT << 11
    }

    /// Decode the opcode field of a word.
    pub fn op_code(ir: u16) -> (r: u16)
        ensures
            r == op_code_of(ir),
            r < 32,
    {
        proof {
            assert(ir >> 11 < 32) by (bit_vector);
        }
        ir >> 11
    }

    /// Decode the register-A field of a word.
    pub fn op_reg_a(ir: u16) -> (r: u16)
        ensures
            r == reg_a_of(ir),
            r < 8,
    {
        proof {
            assert((ir >> 8) & 0x0007 < 8) by (bit_vector);
        }
        ir >> 8 & 0x0007
    }

    /// Decode the register-B field of a word.
    pub fn op_reg_b(ir: u16) -> (r: u16)
        ensures
            r == reg_b_of(ir),
            r < 8,
    {
        proof {
            assert((ir >> 5) & 0x0007 < 8) by (bit_vector);
        }
        ir >> 5 & 0x0007
    }

    /// Decode the low byte of a word as an immediate value.
    pub fn op_data(ir: u16) -> (r: u16)
        ensures
            r == low_byte_of(ir),
            r < 256,
    {
        proof {
            assert(ir & 0x00ff < 256) by (bit_vector);
        }
        ir & 0x00ff
    }

    /// Decode the low byte of a word as an address.
    pub fn op_addr(ir: u16) -> (r: u16)
        ensures
            r == low_byte_of(ir),
            r < 256,
    {
        proof {
            assert(ir & 0x00ff < 256) by (bit_vector);
        }
        ir & 0x00ff
    }

    /// Execute one decoded word.  `pc` is the program counter already
    /// advanced past the fetched word, so a branch overwrites it and any
    /// other instruction leaves it alone; the new program counter and the
    /// new comparison flag are returned.  The effect on the whole
    /// configuration is exactly `exec_instr` of the model.
    pub fn step(&mut self, ir: u16, pc: u16, flag_eq: u16) -> (r: (u16, u16))
        ensures
            final(self).prog() == old(self).prog(),
            final(self).cfg(r.0, r.1, ir) == exec_instr(old(self).cfg(pc, flag_eq, ir)),
    {
        let ghost pre = self.cfg(pc, flag_eq, ir);
        let op = Emulator::op_code(ir);
        let a = Emulator::op_reg_a(ir) as usize;
        let b = Emulator::op_reg_b(ir) as usize;
        let mut npc: u16 = pc;
        let mut nflag: u16 = flag_eq;
        if op == MOV {
            self.reg[a] = self.reg[b];
        } else if op == ADD {
            self.reg[a] = self.reg[a].wrapping_add(self.reg[b]);
        } else if op == SUB {
            self.reg[a] = self.reg[a].wrapping_sub(self.reg[b]);
        } else if op == AND {
            self.reg[a] = self.reg[a] & self.reg[b];
        } else if op == OR {
            self.reg[a] = self.reg[a] | self.reg[b];
        } else if op == SL {
            self.reg[a] = self.reg[a] << 1;
        } else if op == SR {
            self.reg[a] = self.reg[a] >> 1;
        } else if op == SRA {
            self.reg[a] = (self.reg[a] & 0x8000) | (self.reg[a] >> 1);
        } else if op == LDL {
            self.reg[a] = (self.reg[a] & 0xff00) | (Emulator::op_data(ir) & 0x00ff);
        } else if op == LDH {
            proof {
                assert(((ir & 0x00ff) & 0x00ff) << 8 == (ir & 0x00ff) << 8) by (bit_vector);
            }
            self.reg[a] = (Emulator::op_data(ir) << 8) | (self.reg[a] & 0x00ff);
        } else if op == CMP {
            if self.reg[a] == self.reg[b] {
                nflag = 1;
            } else {
                nflag = 0;
            }
        } else if op == JE {
            if flag_eq == 1 {
                npc = Emulator::op_addr(ir);
            }
        } else if op == JMP {
            npc = Emulator::op_addr(ir);
        } else if op == LD {
            self.reg[a] = self.ram[Emulator::op_addr(ir) as usize];
        } else if op == ST {
            self.ram[Emulator::op_addr(ir) as usize] = self.reg[a];
        }
        proof {
            assert(self.cfg(npc, nflag, ir) =~= exec_instr(pre));
        }
        (npc, nflag)
    }

    /// Write the reference hardcoded program into the instruction store.
    pub fn assembler(&mut self)
        ensures
            final(self).prog() == reference_program(old(self).prog()),
            final(self).regs() == old(self).regs(),
            final(self).data() == old(self).data(),
    {
        self.rom[0] = Emulator::ldh(0, 0);
        self.rom[1] = Emulator::ldl(0, 0);
        self.rom[2] = Emulator::ldh(1, 0);
        self.rom[3] = Emulator::ldl(1, 1);
        self.rom[4] = Emulator::ldh(2, 0);
        self.rom[5] = Emulator::ldl(2, 0);
        self.rom[6] = Emulator::ldh(3, 0);
        self.rom[7] = Emulator::ldl(3, 10);
        self.rom[8] = Emulator::add(2, 1);
        self.rom[9] = Emulator::add(0, 2);
        self.rom[10] = Emulator::st(0, 64);
        self.rom[11] = Emulator::cmp(2, 3);
        self.rom[12] = Emulator::je(14);
        self.rom[13] = Emulator::jmp(8);
        self.rom[14] = Emulator::hlt();
        proof {
            assert(self.prog() =~= reference_program(old(self).prog()));
        }
    }

    /// Write one word of the instruction store, loading a program one
    /// instruction at a time.
    pub fn set_rom(&mut self, addr: u16, word: u16)
        requires
            addr < 256,
        ensures
            final(self).prog() == old(self).prog().update(addr as int, word),
            final(self).regs() == old(self).regs(),
            final(self).data() == old(self).data(),
    {
        self.rom[addr as usize] = word;
    }

    /// Read one register.
    pub fn reg_at(&self, i: u16) -> (r: u16)
        requires
            i < 8,
        ensures
            r == self.regs()[i as int],
    {
        self.reg[i as usize]
    }

    /// Read one word of the instruction store.
    pub fn rom_at(&self, addr: u16) -> (r: u16)
        requires
            addr < 256,
        ensures
            r == self.prog()[addr as int],
    {
        self.rom[addr as usize]
    }

    /// Read one word of the data store.
    pub fn ram_at(&self, addr: u16) -> (r: u16)
        requires
            addr < 256,
        ensures
            r == self.data()[addr as int],
    {
        self.ram[addr as usize]
    }

    /// Drive the cycle loop until the halt opcode is decoded, starting from
    /// a zero program counter, a zero comparison flag and a zero fetched
    /// word, as a freshly started machine does.  The loaded program must
    /// reach a halt instruction without the program counter leaving the
    /// instruction store; the registers and the data store then hold
    /// exactly what the model's cycle loop leaves in them.
    pub fn run(&mut self)
        requires
            exists|n: nat| halts_within(old(self).prog(), old(self).cfg(0, 0, 0), n),
        ensures
            final(self).prog() == old(self).prog(),
            forall|n: nat|
                halts_within(old(self).prog(), old(self).cfg(0, 0, 0), n) ==> {
                    &&& final(self).regs() == run_config(
                        old(self).prog(),
                        old(self).cfg(0, 0, 0),
                        n,
                    ).regs
                    &&& final(self).data() == run_config(
                        old(self).prog(),
                        old(self).cfg(0, 0, 0),
                        n,
                    ).ram
                    &&& halted(run_config(old(self).prog(), old(self).cfg(0, 0, 0), n))
                },
    {
        let ghost rom = self.prog();
        let ghost init = self.cfg(0, 0, 0);
        let ghost n0: nat = choose|n: nat| halts_within(rom, init, n);
        let ghost mut fuel: nat = n0;
        let mut pc: u16 = 0;
        let mut ir: u16 = 0;
        let mut flag_eq: u16 = 0;
        while Emulator::op_code(ir) != HLT
            invariant
                self.prog() == rom,
                halts_within(rom, self.cfg(pc, flag_eq, ir), fuel),
                run_config(rom, self.cfg(pc, flag_eq, ir), fuel) == run_config(rom, init, n0),
            decreases fuel,
        {
            let ghost at_entry = self.cfg(pc, flag_eq, ir);
            proof {
                assert(!halted(at_entry));
                assert(fuel > 0 && pc < 256);
            }
            ir = self.rom[pc as usize];
            pc = pc + 1;
            proof {
                assert(self.cfg(pc, flag_eq, ir) =~= (Config {
                    pc: (at_entry.pc + 1) as u16,
                    ir: rom[at_entry.pc as int],
                    ..at_entry
                }));
            }
            let r = self.step(ir, pc, flag_eq);
            pc = r.0;
            flag_eq = r.1;
            proof {
                assert(self.cfg(pc, flag_eq, ir) == step_config(rom, at_entry));
                fuel = (fuel - 1) as nat;
            }
        }
        proof {
            let fc = self.cfg(pc, flag_eq, ir);
            assert(halted(fc));
            assert(run_config(rom, fc, fuel) == fc);
            assert(fc == run_config(rom, init, n0));
            assert(halts_within(rom, init, n0));
            assert forall|n: nat| halts_within(rom, init, n) implies {
                &&& self.regs() == run_config(rom, init, n).regs
                &&& self.data() == run_config(rom, init, n).ram
                &&& halted(run_config(rom, init, n))
            } by {
                lemma_run_config_agrees(rom, init, n, n0);
                lemma_halts_within_halted(rom, init, n);
            }
        }
    }
}

} // verus!
