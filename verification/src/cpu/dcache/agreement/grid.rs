//! Two-operand arithmetic.

use vstd::prelude::*;
use crate::cpu::dcache::decode::Prefixes;
use crate::cpu::dcache::{Rm, Uop};
use crate::cpu::operand::Decoder;
use crate::machine::State;

verus! {

/// The instruction that the cache makes of two-operand arithmetic.
pub open spec fn grid_uop(op: u8, reg: u8, rm: Rm, imm: u32) -> Uop {
    if op % 8 == 0 {
        Uop::Alu8RmR { kind: (op / 8) as u8, rm, reg }
    } else if op % 8 == 1 {
        Uop::AluRmR { kind: (op / 8) as u8, rm, reg }
    } else if op % 8 == 2 {
        Uop::Alu8RRm { kind: (op / 8) as u8, reg, rm }
    } else if op % 8 == 3 {
        Uop::AluRRm { kind: (op / 8) as u8, reg, rm }
    } else if op % 8 == 4 {
        Uop::Alu8AImm { kind: (op / 8) as u8, imm: imm as u8 }
    } else {
        Uop::AluAImm { kind: (op / 8) as u8, imm }
    }
}

proof fn lemma_grid_built(e: State, op: u8, reg: u8, rm: Rm, imm: u32, p: Prefixes)
    requires
        op < 0x40,
        op % 8 <= 5,
    ensures
        crate::cpu::dcache::decode::built(op, reg, rm, imm, p) == Some(
            grid_uop(op, reg, rm, imm),
        ),
        e.uop_effect(grid_uop(op, reg, rm, imm)) == Some(e.uop_alu(grid_uop(op, reg, rm, imm))),
{
    reveal(crate::cpu::dcache::decode::built);
    reveal(State::uop_effect);
}

proof fn lemma_grid_rm8(s: State, e: State, d: Decoder, op: u8, reg: u8, rm: Rm)
    requires
        op < 0x40,
        op % 8 == 0,
        reg < 8,
        d.opsize32,
        s.modrm(d) == (e, reg as usize, e.operand_of(rm)),
    ensures
        s.alu_grid(d, op) == e.uop_alu(Uop::Alu8RmR { kind: (op / 8) as u8, rm, reg }),
{
    reveal(State::alu_grid);
    reveal(State::uop_alu);
}

proof fn lemma_grid_rm(s: State, e: State, d: Decoder, op: u8, reg: u8, rm: Rm)
    requires
        op < 0x40,
        op % 8 == 1,
        reg < 8,
        d.opsize32,
        s.modrm(d) == (e, reg as usize, e.operand_of(rm)),
    ensures
        s.alu_grid(d, op) == e.uop_alu(Uop::AluRmR { kind: (op / 8) as u8, rm, reg }),
{
    reveal(State::alu_grid);
    reveal(State::uop_alu);
}

proof fn lemma_grid_r8(s: State, e: State, d: Decoder, op: u8, reg: u8, rm: Rm)
    requires
        op < 0x40,
        op % 8 == 2,
        reg < 8,
        d.opsize32,
        s.modrm(d) == (e, reg as usize, e.operand_of(rm)),
    ensures
        s.alu_grid(d, op) == e.uop_alu(Uop::Alu8RRm { kind: (op / 8) as u8, reg, rm }),
{
    reveal(State::alu_grid);
    reveal(State::uop_alu);
}

proof fn lemma_grid_r(s: State, e: State, d: Decoder, op: u8, reg: u8, rm: Rm)
    requires
        op < 0x40,
        op % 8 == 3,
        reg < 8,
        d.opsize32,
        s.modrm(d) == (e, reg as usize, e.operand_of(rm)),
    ensures
        s.alu_grid(d, op) == e.uop_alu(Uop::AluRRm { kind: (op / 8) as u8, reg, rm }),
{
    reveal(State::alu_grid);
    reveal(State::uop_alu);
}

proof fn lemma_grid_imm(s: State, e: State, d: Decoder, op: u8, reg: u8, rm: Rm, imm: u32)
    requires
        op < 0x40,
        op % 8 == 4 || op % 8 == 5,
        d.opsize32,
        op % 8 == 4 ==> s.fetch8() == (e, imm as u8),
        op % 8 == 5 ==> s.fetch32() == (e, imm),
    ensures
        s.alu_grid(d, op) == e.uop_alu(grid_uop(op, reg, rm, imm)),
{
    reveal(State::alu_grid);
    reveal(State::uop_alu);
    reveal(State::fetch_w);
}

/// Two-operand arithmetic.
pub proof fn lemma_grid_agrees(s: State, pa: u32, i: int, op: u8, p: Prefixes)
    requires
        crate::cpu::dcache::agreement::fetch::decodes(s, pa, i, op, p),
        op < 0x40,
        op % 8 <= 5,
    ensures
        Some(s.alu_grid(crate::cpu::dcache::agreement::fetch::decoder_of(p), op)) == crate::cpu::dcache::agreement::fetch::cached_effect(s, pa, i, op, p),
{
    let (reg, rm, imm, j) = crate::cpu::dcache::agreement::fetch::operands_of(s, pa, i, false, op, p);
    let k = crate::cpu::dcache::agreement::fetch::lemma_operands(s, pa, i, false, op, p);
    let e = s.behind(j - i);
    lemma_grid_built(e, op, reg, rm, imm, p);
    if op % 8 <= 3 {
        if op % 8 == 0 {
            lemma_grid_rm8(s, e, crate::cpu::dcache::agreement::fetch::decoder_of(p), op, reg, rm);
        } else if op % 8 == 1 {
            lemma_grid_rm(s, e, crate::cpu::dcache::agreement::fetch::decoder_of(p), op, reg, rm);
        } else if op % 8 == 2 {
            lemma_grid_r8(s, e, crate::cpu::dcache::agreement::fetch::decoder_of(p), op, reg, rm);
        } else {
            lemma_grid_r(s, e, crate::cpu::dcache::agreement::fetch::decoder_of(p), op, reg, rm);
        }
    } else {
        if op % 8 == 4 {
            crate::cpu::dcache::agreement::fetch::lemma_fetch8(s, pa, i);
        } else {
            crate::cpu::dcache::agreement::fetch::lemma_fetch32(s, pa, i);
        }
        lemma_grid_imm(s, e, crate::cpu::dcache::agreement::fetch::decoder_of(p), op, reg, rm, imm);
    }
}

} // verus!
