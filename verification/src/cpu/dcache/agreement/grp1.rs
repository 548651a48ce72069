//! Arithmetic with an immediate.

use vstd::prelude::*;
use crate::cpu::dcache::decode::Prefixes;
use crate::cpu::dcache::{Rm, Uop};
use crate::cpu::operand::{sext8_32, Decoder};
use crate::machine::State;

verus! {

/// The instruction that the cache makes of arithmetic with an immediate.
pub open spec fn grp1_uop(op: u8, reg: u8, rm: Rm, imm: u32) -> Uop {
    if op == 0x80 {
        Uop::Grp18RmImm { kind: reg, rm, imm: imm as u8 }
    } else if op == 0x81 {
        Uop::Grp1RmImm { kind: reg, rm, imm }
    } else {
        Uop::Grp1RmImm { kind: reg, rm, imm: sext8_32(imm as u8) }
    }
}

proof fn lemma_grp1_built(e: State, op: u8, reg: u8, rm: Rm, imm: u32, p: Prefixes)
    requires
        op == 0x80 || op == 0x81 || op == 0x83,
    ensures
        crate::cpu::dcache::decode::built(op, reg, rm, imm, p) == Some(
            grp1_uop(op, reg, rm, imm),
        ),
        e.uop_effect(grp1_uop(op, reg, rm, imm)) == Some(e.uop_alu(grp1_uop(op, reg, rm, imm))),
{
    reveal(crate::cpu::dcache::decode::built);
    reveal(State::uop_effect);
}

proof fn lemma_grp1_byte(s: State, s1: State, d: Decoder, reg: u8, rm: Rm, imm: u32)
    requires
        reg < 8,
        s.modrm(d) == (s1, reg as usize, s1.operand_of(rm)),
        ({
            let o = s1.operand_of(rm);
            let s2 = s1.read_op8(o).0;
            &&& s2.fetch8() == (s2.behind(1), imm as u8)
            &&& s1.behind(1).read_op8(o) == (s2.behind(1), s1.read_op8(o).1)
            &&& s1.behind(1).operand_of(rm) == o
        }),
    ensures
        s.grp1(d, 0x80) == s1.behind(1).uop_alu(grp1_uop(0x80, reg, rm, imm)),
{
    reveal(State::grp1);
    reveal(State::uop_alu);
}

proof fn lemma_grp1_word(s: State, s1: State, d: Decoder, op: u8, reg: u8, rm: Rm, imm: u32, n: int)
    requires
        op == 0x81 || op == 0x83,
        reg < 8,
        d.opsize32,
        s.modrm(d) == (s1, reg as usize, s1.operand_of(rm)),
        ({
            let o = s1.operand_of(rm);
            let s2 = s1.read_op_w(o, true).0;
            &&& op == 0x81 ==> s2.fetch32() == (s2.behind(n), imm)
            &&& op == 0x83 ==> s2.fetch8() == (s2.behind(n), imm as u8)
            &&& s1.behind(n).read_op_w(o, true) == (s2.behind(n), s1.read_op_w(o, true).1)
            &&& s1.behind(n).operand_of(rm) == o
        }),
    ensures
        s.grp1(d, op) == s1.behind(n).uop_alu(grp1_uop(op, reg, rm, imm)),
{
    reveal(State::grp1);
    reveal(State::uop_alu);
    reveal(State::fetch_w);
}

/// Arithmetic with an immediate.
pub proof fn lemma_grp1_agrees(s: State, pa: u32, i: int, op: u8, p: Prefixes)
    requires
        crate::cpu::dcache::agreement::fetch::decodes(s, pa, i, op, p),
        op == 0x80 || op == 0x81 || op == 0x83,
    ensures
        Some(s.grp1(crate::cpu::dcache::agreement::fetch::decoder_of(p), op)) == crate::cpu::dcache::agreement::fetch::cached_effect(s, pa, i, op, p),
{
    let (reg, rm, imm, j) = crate::cpu::dcache::agreement::fetch::operands_of(s, pa, i, false, op, p);
    let k = crate::cpu::dcache::agreement::fetch::lemma_operands(s, pa, i, false, op, p);
    let s1 = s.behind(k - i);
    let o = s.operand_of(rm);
    lemma_grp1_built(s.behind(j - i), op, reg, rm, imm, p);
    crate::cpu::dcache::agreement::fetch::lemma_read_runs(s1, o, pa, k);
    crate::cpu::dcache::agreement::fetch::lemma_read_behind(s1, o, j - k);
    if op == 0x80 {
        crate::cpu::dcache::agreement::fetch::lemma_fetch8(s1.read_op8(o).0, pa, k);
        lemma_grp1_byte(s, s1, crate::cpu::dcache::agreement::fetch::decoder_of(p), reg, rm, imm);
    } else {
        if op == 0x81 {
            crate::cpu::dcache::agreement::fetch::lemma_fetch32(s1.read_op_w(o, true).0, pa, k);
        } else {
            crate::cpu::dcache::agreement::fetch::lemma_fetch8(s1.read_op_w(o, true).0, pa, k);
        }
        lemma_grp1_word(s, s1, crate::cpu::dcache::agreement::fetch::decoder_of(p), op, reg, rm, imm, j - k);
    }
}

} // verus!
