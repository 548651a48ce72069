//! The stack and jumps.

use vstd::prelude::*;
use crate::cpu::dcache::decode::Prefixes;
use crate::cpu::dcache::{Rm, Uop};
use crate::cpu::operand::sext8_32;
use crate::machine::State;

verus! {

/// The instruction that the cache makes of the stack instructions and jumps.
pub open spec fn flow_uop(op: u8, imm: u32) -> Uop {
    if 0x50 <= op <= 0x57 {
        Uop::PushR { reg: (op % 8) as u8 }
    } else if 0x58 <= op <= 0x5F {
        Uop::PopR { reg: (op % 8) as u8 }
    } else if op == 0x68 {
        Uop::PushImm { imm }
    } else if op == 0x6A {
        Uop::PushImm { imm: sext8_32(imm as u8) }
    } else if op == 0xC9 {
        Uop::Leave
    } else if 0x70 <= op <= 0x7F {
        Uop::Jcc { cc: (op % 16) as u8, rel: sext8_32(imm as u8) }
    } else if op == 0xE8 {
        Uop::CallRel { rel: imm }
    } else if op == 0xE9 {
        Uop::JmpRel { rel: imm }
    } else if op == 0xEB {
        Uop::JmpRel { rel: sext8_32(imm as u8) }
    } else {
        Uop::Ret
    }
}

pub open spec fn is_stack(op: u8) -> bool {
    0x50 <= op <= 0x5F || op == 0x68 || op == 0x6A || op == 0xC9
}

pub open spec fn is_jump(op: u8) -> bool {
    0x70 <= op <= 0x7F || op == 0xE8 || op == 0xE9 || op == 0xEB || op == 0xC3
}

proof fn lemma_built(op: u8, reg: u8, rm: Rm, imm: u32, p: Prefixes)
    requires
        is_stack(op) || is_jump(op),
    ensures
        crate::cpu::dcache::decode::built(op, reg, rm, imm, p) == Some(flow_uop(op, imm)),
{
    reveal(crate::cpu::dcache::decode::built);
}

proof fn lemma_effect(e: State, op: u8, imm: u32)
    ensures
        e.uop_effect(flow_uop(op, imm)) == Some(e.uop_flow(flow_uop(op, imm))),
{
    reveal(State::uop_effect);
}

proof fn lemma_stack(s: State, e: State, p: Prefixes, op: u8, imm: u32)
    requires
        is_stack(op),
        !p.o16,
        op == 0x68 ==> s.fetch32() == (e, imm),
        op == 0x6A ==> s.fetch8() == (e, imm as u8),
        op != 0x68 && op != 0x6A ==> e == s,
    ensures
        s.stack_ops(crate::cpu::dcache::agreement::fetch::decoder_of(p), op) == e.uop_flow(flow_uop(op, imm)),
{
    reveal(State::stack_ops);
    reveal(State::uop_flow);
    reveal(State::fetch_w);
}

proof fn lemma_jump(s: State, e: State, p: Prefixes, op: u8, imm: u32)
    requires
        is_jump(op),
        !p.o16,
        op == 0xE8 || op == 0xE9 ==> s.fetch32() == (e, imm),
        0x70 <= op <= 0x7F || op == 0xEB ==> s.fetch8() == (e, imm as u8),
        op == 0xC3 ==> e == s,
    ensures
        s.near_control(crate::cpu::dcache::agreement::fetch::decoder_of(p), op) == e.uop_flow(flow_uop(op, imm)),
{
    reveal(State::near_control);
    reveal(State::uop_flow);
    reveal(State::fetch_rel);
}

/// PUSH, POP and LEAVE.
pub proof fn lemma_stack_agrees(s: State, pa: u32, i: int, op: u8, p: Prefixes)
    requires
        crate::cpu::dcache::agreement::fetch::decodes(s, pa, i, op, p),
        is_stack(op),
    ensures
        Some(s.stack_ops(crate::cpu::dcache::agreement::fetch::decoder_of(p), op)) == crate::cpu::dcache::agreement::fetch::cached_effect(s, pa, i, op, p),
{
    let (reg, rm, imm, j) = crate::cpu::dcache::agreement::fetch::operands_of(s, pa, i, false, op, p);
    let k = crate::cpu::dcache::agreement::fetch::lemma_operands(s, pa, i, false, op, p);
    let e = s.behind(j - i);
    lemma_built(op, reg, rm, imm, p);
    lemma_effect(e, op, imm);
    if op == 0x68 {
        crate::cpu::dcache::agreement::fetch::lemma_fetch32(s, pa, i);
    } else if op == 0x6A {
        crate::cpu::dcache::agreement::fetch::lemma_fetch8(s, pa, i);
    }
    lemma_stack(s, e, p, op, imm);
}

/// Near jumps, calls and returns.
pub proof fn lemma_jumps_agree(s: State, pa: u32, i: int, op: u8, p: Prefixes)
    requires
        crate::cpu::dcache::agreement::fetch::decodes(s, pa, i, op, p),
        is_jump(op),
    ensures
        Some(s.near_control(crate::cpu::dcache::agreement::fetch::decoder_of(p), op)) == crate::cpu::dcache::agreement::fetch::cached_effect(s, pa, i, op, p),
{
    let (reg, rm, imm, j) = crate::cpu::dcache::agreement::fetch::operands_of(s, pa, i, false, op, p);
    let k = crate::cpu::dcache::agreement::fetch::lemma_operands(s, pa, i, false, op, p);
    let e = s.behind(j - i);
    lemma_built(op, reg, rm, imm, p);
    lemma_effect(e, op, imm);
    if op == 0xE8 || op == 0xE9 {
        crate::cpu::dcache::agreement::fetch::lemma_fetch32(s, pa, i);
    } else if op != 0xC3 {
        crate::cpu::dcache::agreement::fetch::lemma_fetch8(s, pa, i);
    }
    lemma_jump(s, e, p, op, imm);
}

} // verus!
