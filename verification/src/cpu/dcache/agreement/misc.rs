//! TEST, XCHG, INC and DEC.

use vstd::prelude::*;
use crate::cpu::dcache::decode::Prefixes;
use crate::cpu::dcache::{Rm, Uop};
use crate::machine::State;

verus! {

proof fn lemma_test8(s: State, e: State, p: Prefixes, reg: u8, rm: Rm)
    requires
        reg < 8,
        s.modrm(crate::cpu::dcache::agreement::fetch::decoder_of(p)) == (e, reg as usize, e.operand_of(rm)),
    ensures
        s.misc_ops(crate::cpu::dcache::agreement::fetch::decoder_of(p), 0x84) == e.uop_alu(Uop::Test8RmR { rm, reg }),
{
    reveal(State::misc_ops);
    reveal(State::uop_alu);
}

proof fn lemma_test(s: State, e: State, p: Prefixes, reg: u8, rm: Rm)
    requires
        reg < 8,
        !p.o16,
        s.modrm(crate::cpu::dcache::agreement::fetch::decoder_of(p)) == (e, reg as usize, e.operand_of(rm)),
    ensures
        s.misc_ops(crate::cpu::dcache::agreement::fetch::decoder_of(p), 0x85) == e.uop_alu(Uop::TestRmR { rm, reg }),
{
    reveal(State::misc_ops);
    reveal(State::uop_alu);
}

proof fn lemma_exchange(s: State, p: Prefixes, op: u8)
    requires
        !p.o16,
        0x90 <= op <= 0x97,
    ensures
        s.misc_ops(crate::cpu::dcache::agreement::fetch::decoder_of(p), op) == s.uop_move(Uop::XchgAR { reg: (op % 8) as u8 }),
{
    reveal(State::misc_ops);
    reveal(State::uop_move);
}

proof fn lemma_inc_dec(s: State, p: Prefixes, op: u8)
    requires
        !p.o16,
        0x40 <= op <= 0x4F,
    ensures
        s.misc_ops(crate::cpu::dcache::agreement::fetch::decoder_of(p), op) == s.inc_dec_reg((op % 8) as usize, op >= 0x48),
{
    reveal(State::misc_ops);
}

proof fn lemma_built(op: u8, reg: u8, rm: Rm, imm: u32, p: Prefixes)
    ensures
        op == 0x84 ==> crate::cpu::dcache::decode::built(op, reg, rm, imm, p) == Some(Uop::Test8RmR { rm, reg }),
        op == 0x85 ==> crate::cpu::dcache::decode::built(op, reg, rm, imm, p) == Some(Uop::TestRmR { rm, reg }),
        0x90 <= op <= 0x97 ==> crate::cpu::dcache::decode::built(op, reg, rm, imm, p) == Some(
            Uop::XchgAR { reg: (op % 8) as u8 },
        ),
        0x40 <= op <= 0x47 ==> crate::cpu::dcache::decode::built(op, reg, rm, imm, p) == Some(
            Uop::IncR { reg: (op % 8) as u8 },
        ),
        0x48 <= op <= 0x4F ==> crate::cpu::dcache::decode::built(op, reg, rm, imm, p) == Some(
            Uop::DecR { reg: (op % 8) as u8 },
        ),
{
    reveal(crate::cpu::dcache::decode::built);
}

/// TEST, XCHG, INC and DEC.
pub proof fn lemma_misc_agrees(s: State, pa: u32, i: int, op: u8, p: Prefixes)
    requires
        crate::cpu::dcache::agreement::fetch::decodes(s, pa, i, op, p),
        op == 0x84 || op == 0x85 || 0x90 <= op <= 0x97 || 0x40 <= op <= 0x4F,
    ensures
        Some(s.misc_ops(crate::cpu::dcache::agreement::fetch::decoder_of(p), op)) == crate::cpu::dcache::agreement::fetch::cached_effect(s, pa, i, op, p),
{
    let (reg, rm, imm, j) = crate::cpu::dcache::agreement::fetch::operands_of(s, pa, i, false, op, p);
    let k = crate::cpu::dcache::agreement::fetch::lemma_operands(s, pa, i, false, op, p);
    let e = s.behind(j - i);
    lemma_built(op, reg, rm, imm, p);
    reveal(State::uop_effect);
    if op == 0x84 {
        lemma_test8(s, e, p, reg, rm);
    } else if op == 0x85 {
        lemma_test(s, e, p, reg, rm);
    } else if op >= 0x90 {
        lemma_exchange(s, p, op);
    } else {
        lemma_inc_dec(s, p, op);
    }
}

} // verus!
