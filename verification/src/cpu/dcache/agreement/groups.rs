//! Shifts, the groups of one-operand instructions and LEA.

use vstd::prelude::*;
use crate::cpu::dcache::decode::Prefixes;
use crate::cpu::dcache::{Rm, Uop};
use crate::machine::State;

verus! {

proof fn lemma_built(op: u8, reg: u8, rm: Rm, imm: u32, p: Prefixes)
    ensures
        op == 0xC1 ==> crate::cpu::dcache::decode::built(op, reg, rm, imm, p) == Some(
            Uop::ShiftRmImm { kind: reg, rm, count: imm as u8 },
        ),
        op == 0xD1 ==> crate::cpu::dcache::decode::built(op, reg, rm, imm, p) == Some(
            Uop::ShiftRmImm { kind: reg, rm, count: 1 },
        ),
        op == 0xD3 ==> crate::cpu::dcache::decode::built(op, reg, rm, imm, p) == Some(Uop::ShiftRmCl { kind: reg, rm }),
        op == 0xF6 && reg <= 3 ==> crate::cpu::dcache::decode::built(op, reg, rm, imm, p) == Some(
            Uop::Grp3b { kind: reg, rm, imm: imm as u8 },
        ),
        op == 0xF7 && reg <= 3 ==> crate::cpu::dcache::decode::built(op, reg, rm, imm, p) == Some(
            Uop::Grp3w { kind: reg, rm, imm },
        ),
        op == 0xFF && (reg <= 2 || reg == 4 || reg == 6) ==> crate::cpu::dcache::decode::built(op, reg, rm, imm, p) == Some(
            Uop::Grp5 { kind: reg, rm },
        ),
        (op == 0xF6 || op == 0xF7) && crate::cpu::dcache::decode::built(op, reg, rm, imm, p) is Some ==> reg <= 3,
        op == 0xFF && crate::cpu::dcache::decode::built(op, reg, rm, imm, p) is Some ==> reg <= 2 || reg == 4 || reg == 6,
        op == 0x8D && crate::cpu::dcache::decode::built(op, reg, rm, imm, p) is Some ==> rm is Mem && crate::cpu::dcache::decode::built(
            op,
            reg,
            rm,
            imm,
            p,
        ) == Some(Uop::Lea { reg, mem: rm->Mem_0 }),
{
    reveal(crate::cpu::dcache::decode::built);
}

proof fn lemma_shift_imm(s: State, s1: State, e: State, p: Prefixes, reg: u8, rm: Rm, imm: u32)
    requires
        reg < 8,
        !p.o16,
        s.modrm(crate::cpu::dcache::agreement::fetch::decoder_of(p)) == (s1, reg as usize, e.operand_of(rm)),
        s1.fetch8() == (e, imm as u8),
    ensures
        s.grp2(crate::cpu::dcache::agreement::fetch::decoder_of(p), 0xC1) == e.shift_operand(reg, e.operand_of(rm), imm as u8),
{
    reveal(State::grp2);
    reveal(State::shift_operand);
}

proof fn lemma_shift_other(s: State, e: State, p: Prefixes, op: u8, reg: u8, rm: Rm)
    requires
        op == 0xD1 || op == 0xD3,
        reg < 8,
        !p.o16,
        s.modrm(crate::cpu::dcache::agreement::fetch::decoder_of(p)) == (e, reg as usize, e.operand_of(rm)),
    ensures
        s.grp2(crate::cpu::dcache::agreement::fetch::decoder_of(p), op) == e.shift_operand(
            reg,
            e.operand_of(rm),
            if op == 0xD1 {
                1u8
            } else {
                e.cpu.reg8(1)
            },
        ),
{
    reveal(State::grp2);
    reveal(State::shift_operand);
}

/// Shifts and rotations.
pub proof fn lemma_shifts_agree(s: State, pa: u32, i: int, op: u8, p: Prefixes)
    requires
        crate::cpu::dcache::agreement::fetch::decodes(s, pa, i, op, p),
        op == 0xC1 || op == 0xD1 || op == 0xD3,
    ensures
        Some(s.grp2(crate::cpu::dcache::agreement::fetch::decoder_of(p), op)) == crate::cpu::dcache::agreement::fetch::cached_effect(s, pa, i, op, p),
{
    let (reg, rm, imm, j) = crate::cpu::dcache::agreement::fetch::operands_of(s, pa, i, false, op, p);
    let k = crate::cpu::dcache::agreement::fetch::lemma_operands(s, pa, i, false, op, p);
    let e = s.behind(j - i);
    let s1 = s.behind(k - i);
    lemma_built(op, reg, rm, imm, p);
    reveal(State::uop_effect);
    if op == 0xC1 {
        crate::cpu::dcache::agreement::fetch::lemma_fetch8(s1, pa, k);
        lemma_shift_imm(s, s1, e, p, reg, rm, imm);
    } else {
        lemma_shift_other(s, e, p, op, reg, rm);
    }
}

proof fn lemma_grp3_byte(
    s: State,
    s1: State,
    e: State,
    p: Prefixes,
    start: u32,
    reg: u8,
    rm: Rm,
    imm: u32,
)
    requires
        reg <= 3,
        s.modrm(crate::cpu::dcache::agreement::fetch::decoder_of(p)) == (s1, reg as usize, e.operand_of(rm)),
        ({
            let o = e.operand_of(rm);
            let s2 = s1.read_op8(o).0;
            if reg <= 1 {
                s2.fetch8() == (e.read_op8(o).0, imm as u8) && e.read_op8(o).1 == s1.read_op8(o).1
            } else {
                s1 == e
            }
        }),
    ensures
        s.grp3_byte(crate::cpu::dcache::agreement::fetch::decoder_of(p), start) == Some(e.uop_grp3b(reg, rm, imm as u8)),
{
    reveal(State::grp3_byte);
    reveal(State::uop_grp3b);
}

proof fn lemma_grp3_word(
    s: State,
    s1: State,
    e: State,
    p: Prefixes,
    start: u32,
    reg: u8,
    rm: Rm,
    imm: u32,
)
    requires
        reg <= 3,
        !p.o16,
        s.modrm(crate::cpu::dcache::agreement::fetch::decoder_of(p)) == (s1, reg as usize, e.operand_of(rm)),
        ({
            let o = e.operand_of(rm);
            let s2 = s1.read_op_w(o, true).0;
            if reg <= 1 {
                s2.fetch32() == (e.read_op_w(o, true).0, imm) && e.read_op_w(o, true).1
                    == s1.read_op_w(o, true).1
            } else {
                s1 == e
            }
        }),
    ensures
        s.grp3_word(crate::cpu::dcache::agreement::fetch::decoder_of(p), start) == Some(e.uop_grp3w(reg, rm, imm)),
{
    reveal(State::grp3_word);
    reveal(State::uop_grp3w);
    reveal(State::fetch_w);
}

/// TEST with an immediate, NOT and NEG.
pub proof fn lemma_grp3_agrees(s: State, pa: u32, i: int, op: u8, p: Prefixes, start: u32)
    requires
        crate::cpu::dcache::agreement::fetch::decodes(s, pa, i, op, p),
        op == 0xF6 || op == 0xF7,
    ensures
        op == 0xF6 ==> s.grp3_byte(crate::cpu::dcache::agreement::fetch::decoder_of(p), start) == crate::cpu::dcache::agreement::fetch::cached_effect(s, pa, i, op, p),
        op == 0xF7 ==> s.grp3_word(crate::cpu::dcache::agreement::fetch::decoder_of(p), start) == crate::cpu::dcache::agreement::fetch::cached_effect(s, pa, i, op, p),
{
    let (reg, rm, imm, j) = crate::cpu::dcache::agreement::fetch::operands_of(s, pa, i, false, op, p);
    let k = crate::cpu::dcache::agreement::fetch::lemma_operands(s, pa, i, false, op, p);
    let e = s.behind(j - i);
    let s1 = s.behind(k - i);
    let o = s.operand_of(rm);
    lemma_built(op, reg, rm, imm, p);
    reveal(State::uop_effect);
    crate::cpu::dcache::agreement::fetch::lemma_read_runs(s1, o, pa, k);
    crate::cpu::dcache::agreement::fetch::lemma_read_behind(s1, o, j - k);
    if op == 0xF6 {
        if reg <= 1 {
            crate::cpu::dcache::agreement::fetch::lemma_fetch8(s1.read_op8(o).0, pa, k);
        }
        lemma_grp3_byte(s, s1, e, p, start, reg, rm, imm);
    } else {
        if reg <= 1 {
            crate::cpu::dcache::agreement::fetch::lemma_fetch32(s1.read_op_w(o, true).0, pa, k);
        }
        lemma_grp3_word(s, s1, e, p, start, reg, rm, imm);
    }
}

proof fn lemma_grp5(s: State, e: State, p: Prefixes, reg: u8, rm: Rm)
    requires
        reg <= 2 || reg == 4 || reg == 6,
        !p.o16,
        s.modrm(crate::cpu::dcache::agreement::fetch::decoder_of(p)) == (e, reg as usize, e.operand_of(rm)),
    ensures
        s.grp5(crate::cpu::dcache::agreement::fetch::decoder_of(p)) == Some(e.uop_grp5(reg, rm)),
{
    reveal(State::grp5);
    reveal(State::uop_grp5);
}

/// INC, DEC, the near indirect call and jump, and PUSH.
pub proof fn lemma_grp5_agrees(s: State, pa: u32, i: int, p: Prefixes)
    requires
        crate::cpu::dcache::agreement::fetch::decodes(s, pa, i, 0xFF, p),
    ensures
        s.grp5(crate::cpu::dcache::agreement::fetch::decoder_of(p)) == crate::cpu::dcache::agreement::fetch::cached_effect(s, pa, i, 0xFF, p),
{
    let (reg, rm, imm, j) = crate::cpu::dcache::agreement::fetch::operands_of(s, pa, i, false, 0xFF, p);
    let k = crate::cpu::dcache::agreement::fetch::lemma_operands(s, pa, i, false, 0xFF, p);
    lemma_built(0xFF, reg, rm, imm, p);
    reveal(State::uop_effect);
    lemma_grp5(s, s.behind(j - i), p, reg, rm);
}

proof fn lemma_lea(s: State, e: State, p: Prefixes, reg: u8, rm: Rm)
    requires
        reg < 8,
        !p.o16,
        rm is Mem,
        s.modrm(crate::cpu::dcache::agreement::fetch::decoder_of(p)) == (e, reg as usize, e.operand_of(rm)),
    ensures
        s.lea(crate::cpu::dcache::agreement::fetch::decoder_of(p)) == Some(e.uop_move(Uop::Lea { reg, mem: rm->Mem_0 })),
{
    reveal(State::lea);
    reveal(State::uop_move);
}

/// LEA.
pub proof fn lemma_lea_agrees(s: State, pa: u32, i: int, p: Prefixes)
    requires
        crate::cpu::dcache::agreement::fetch::decodes(s, pa, i, 0x8D, p),
    ensures
        s.lea(crate::cpu::dcache::agreement::fetch::decoder_of(p)) == crate::cpu::dcache::agreement::fetch::cached_effect(s, pa, i, 0x8D, p),
{
    let (reg, rm, imm, j) = crate::cpu::dcache::agreement::fetch::operands_of(s, pa, i, false, 0x8D, p);
    let k = crate::cpu::dcache::agreement::fetch::lemma_operands(s, pa, i, false, 0x8D, p);
    lemma_built(0x8D, reg, rm, imm, p);
    reveal(State::uop_effect);
    lemma_lea(s, s.behind(j - i), p, reg, rm);
}

} // verus!
