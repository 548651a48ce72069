//! Moves.

use vstd::prelude::*;
use crate::cpu::dcache::decode::Prefixes;
use crate::cpu::dcache::{Rm, Uop};
use crate::machine::State;

verus! {

/// The instruction that the cache makes of a move.
pub open spec fn move_uop(op: u8, reg: u8, rm: Rm, imm: u32, p: Prefixes) -> Uop {
    if op == 0x88 {
        Uop::Mov8RmR { rm, reg }
    } else if op == 0x89 {
        if p.o16 {
            Uop::Mov16RmR { rm, reg }
        } else {
            Uop::MovRmR { rm, reg }
        }
    } else if op == 0x8A {
        Uop::Mov8RRm { reg, rm }
    } else if op == 0x8B {
        if p.o16 {
            Uop::Mov16RRm { reg, rm }
        } else {
            Uop::MovRRm { reg, rm }
        }
    } else if op == 0xA0 || op == 0xA2 {
        Uop::Mov8AMoffs {
            load: op == 0xA0,
            seg: crate::cpu::dcache::decode::data_segment(p.seg),
            off: imm,
        }
    } else if op == 0xA1 || op == 0xA3 {
        Uop::MovAMoffs {
            load: op == 0xA1,
            seg: crate::cpu::dcache::decode::data_segment(p.seg),
            off: imm,
        }
    } else if op == 0xC6 {
        Uop::MovRm8Imm { rm, imm: imm as u8 }
    } else if op == 0xC7 {
        Uop::MovRmImm { rm, imm }
    } else {
        Uop::MovRImm { reg: (op % 8) as u8, imm }
    }
}

proof fn lemma_move_built(e: State, op: u8, reg: u8, rm: Rm, imm: u32, p: Prefixes)
    requires
        0x88 <= op <= 0x8B || 0xB8 <= op <= 0xBF || op == 0xC6 || op == 0xC7 || 0xA0 <= op <= 0xA3,
    ensures
        crate::cpu::dcache::decode::built(op, reg, rm, imm, p) == Some(
            move_uop(op, reg, rm, imm, p),
        ),
        e.uop_effect(move_uop(op, reg, rm, imm, p)) == Some(
            e.uop_move(move_uop(op, reg, rm, imm, p)),
        ),
{
    reveal(crate::cpu::dcache::decode::built);
    reveal(State::uop_effect);
}

proof fn lemma_store8(s: State, e: State, reg: u8, rm: Rm, p: Prefixes)
    requires
        reg < 8,
        s.modrm(crate::cpu::dcache::agreement::fetch::decoder_of(p)) == (e, reg as usize, e.operand_of(rm)),
    ensures
        s.moves(crate::cpu::dcache::agreement::fetch::decoder_of(p), 0x88) == e.uop_move(Uop::Mov8RmR { rm, reg }),
{
    reveal(State::moves);
    reveal(State::uop_move);
}

proof fn lemma_load8(s: State, e: State, reg: u8, rm: Rm, p: Prefixes)
    requires
        reg < 8,
        s.modrm(crate::cpu::dcache::agreement::fetch::decoder_of(p)) == (e, reg as usize, e.operand_of(rm)),
    ensures
        s.moves(crate::cpu::dcache::agreement::fetch::decoder_of(p), 0x8A) == e.uop_move(Uop::Mov8RRm { reg, rm }),
{
    reveal(State::moves);
    reveal(State::uop_move);
}

proof fn lemma_store32(s: State, e: State, reg: u8, rm: Rm, p: Prefixes)
    requires
        reg < 8,
        !p.o16,
        s.modrm(crate::cpu::dcache::agreement::fetch::decoder_of(p)) == (e, reg as usize, e.operand_of(rm)),
    ensures
        s.moves(crate::cpu::dcache::agreement::fetch::decoder_of(p), 0x89) == e.uop_move(Uop::MovRmR { rm, reg }),
{
    reveal(State::moves);
    reveal(State::uop_move);
}

proof fn lemma_load32(s: State, e: State, reg: u8, rm: Rm, p: Prefixes)
    requires
        reg < 8,
        !p.o16,
        s.modrm(crate::cpu::dcache::agreement::fetch::decoder_of(p)) == (e, reg as usize, e.operand_of(rm)),
    ensures
        s.moves(crate::cpu::dcache::agreement::fetch::decoder_of(p), 0x8B) == e.uop_move(Uop::MovRRm { reg, rm }),
{
    reveal(State::moves);
    reveal(State::uop_move);
}

proof fn lemma_store16(s: State, e: State, reg: u8, rm: Rm, p: Prefixes)
    requires
        reg < 8,
        p.o16,
        s.modrm(crate::cpu::dcache::agreement::fetch::decoder_of(p)) == (e, reg as usize, e.operand_of(rm)),
    ensures
        s.moves(crate::cpu::dcache::agreement::fetch::decoder_of(p), 0x89) == e.uop_move(Uop::Mov16RmR { rm, reg }),
{
    reveal(State::moves);
    reveal(State::uop_move);
}

proof fn lemma_load16(s: State, e: State, reg: u8, rm: Rm, p: Prefixes)
    requires
        reg < 8,
        p.o16,
        s.modrm(crate::cpu::dcache::agreement::fetch::decoder_of(p)) == (e, reg as usize, e.operand_of(rm)),
    ensures
        s.moves(crate::cpu::dcache::agreement::fetch::decoder_of(p), 0x8B) == e.uop_move(Uop::Mov16RRm { reg, rm }),
{
    reveal(State::moves);
    reveal(State::uop_move);
}

proof fn lemma_move_rm(s: State, e: State, op: u8, reg: u8, rm: Rm, imm: u32, p: Prefixes)
    requires
        0x88 <= op <= 0x8B,
        reg < 8,
        s.modrm(crate::cpu::dcache::agreement::fetch::decoder_of(p)) == (e, reg as usize, e.operand_of(rm)),
    ensures
        s.moves(crate::cpu::dcache::agreement::fetch::decoder_of(p), op) == e.uop_move(move_uop(op, reg, rm, imm, p)),
{
    if op == 0x88 {
        lemma_store8(s, e, reg, rm, p);
    } else if op == 0x8A {
        lemma_load8(s, e, reg, rm, p);
    } else if op == 0x89 {
        if p.o16 {
            lemma_store16(s, e, reg, rm, p);
        } else {
            lemma_store32(s, e, reg, rm, p);
        }
    } else {
        if p.o16 {
            lemma_load16(s, e, reg, rm, p);
        } else {
            lemma_load32(s, e, reg, rm, p);
        }
    }
}

proof fn lemma_move_imm(
    s: State,
    s1: State,
    e: State,
    op: u8,
    reg: u8,
    rm: Rm,
    imm: u32,
    p: Prefixes,
)
    requires
        op == 0xC6 || op == 0xC7,
        !p.o16,
        s.modrm(crate::cpu::dcache::agreement::fetch::decoder_of(p)) == (s1, reg as usize, e.operand_of(rm)),
        op == 0xC6 ==> s1.fetch8() == (e, imm as u8),
        op == 0xC7 ==> s1.fetch32() == (e, imm),
    ensures
        s.moves(crate::cpu::dcache::agreement::fetch::decoder_of(p), op) == e.uop_move(move_uop(op, reg, rm, imm, p)),
{
    reveal(State::moves);
    reveal(State::uop_move);
    reveal(State::fetch_w);
}

proof fn lemma_move_plain(s: State, e: State, op: u8, reg: u8, rm: Rm, imm: u32, p: Prefixes)
    requires
        0xB8 <= op <= 0xBF,
        !p.o16,
        s.fetch32() == (e, imm),
    ensures
        s.moves(crate::cpu::dcache::agreement::fetch::decoder_of(p), op) == e.uop_move(move_uop(op, reg, rm, imm, p)),
{
    reveal(State::moves);
    reveal(State::uop_move);
    reveal(State::fetch_w);
}

#[verifier::spinoff_prover]
#[verifier::rlimit(40)]
proof fn lemma_move_offset(s: State, e: State, op: u8, reg: u8, rm: Rm, imm: u32, p: Prefixes)
    requires
        0xA0 <= op <= 0xA3,
        !p.o16,
        crate::cpu::dcache::agreement::fetch::is_segment(p.seg),
        s.fetch32() == (e, imm),
    ensures
        s.moves(crate::cpu::dcache::agreement::fetch::decoder_of(p), op) == e.uop_move(move_uop(op, reg, rm, imm, p)),
{
    reveal(State::moves);
    reveal(State::uop_move);
    reveal(State::fetch_w);
}

/// Moves.
pub proof fn lemma_moves_agree(s: State, pa: u32, i: int, op: u8, p: Prefixes)
    requires
        crate::cpu::dcache::agreement::fetch::decodes(s, pa, i, op, p),
        0x88 <= op <= 0x8B || 0xB8 <= op <= 0xBF || op == 0xC6 || op == 0xC7 || 0xA0 <= op <= 0xA3,
    ensures
        Some(s.moves(crate::cpu::dcache::agreement::fetch::decoder_of(p), op)) == crate::cpu::dcache::agreement::fetch::cached_effect(s, pa, i, op, p),
{
    let (reg, rm, imm, j) = crate::cpu::dcache::agreement::fetch::operands_of(s, pa, i, false, op, p);
    let k = crate::cpu::dcache::agreement::fetch::lemma_operands(s, pa, i, false, op, p);
    let e = s.behind(j - i);
    let s1 = s.behind(k - i);
    lemma_move_built(e, op, reg, rm, imm, p);
    if 0x88 <= op <= 0x8B {
        lemma_move_rm(s, e, op, reg, rm, imm, p);
    } else if op == 0xC6 {
        crate::cpu::dcache::agreement::fetch::lemma_fetch8(s1, pa, k);
        lemma_move_imm(s, s1, e, op, reg, rm, imm, p);
    } else if op == 0xC7 {
        crate::cpu::dcache::agreement::fetch::lemma_fetch32(s1, pa, k);
        lemma_move_imm(s, s1, e, op, reg, rm, imm, p);
    } else {
        crate::cpu::dcache::agreement::fetch::lemma_fetch32(s, pa, i);
        if op >= 0xB8 {
            lemma_move_plain(s, e, op, reg, rm, imm, p);
        } else {
            lemma_move_offset(s, e, op, reg, rm, imm, p);
        }
    }
}

} // verus!
