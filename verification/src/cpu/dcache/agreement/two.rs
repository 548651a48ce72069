//! The opcodes after `0F`.

use vstd::prelude::*;
use crate::cpu::dcache::decode::Prefixes;
use crate::cpu::dcache::{Rm, Uop};
use crate::machine::State;

verus! {

/// An opcode after `0F` whose operands are all in the page is at byte `i`, and it can
/// be cached.
pub open spec fn decodes_two(s: State, pa: u32, i: int, op: u8, p: Prefixes) -> bool {
    &&& s.runs_at(pa, i)
    &&& crate::cpu::dcache::agreement::fetch::is_segment(p.seg)
    &&& !p.o16
    &&& crate::cpu::dcache::decode::code(s.mem, pa, i) == Some(op)
    &&& match crate::cpu::dcache::decode::operands_at(s.mem, pa, i + 1, true, op, p.seg) {
        None => false,
        Some((reg, rm, imm, j)) => crate::cpu::dcache::decode::built_two(op, reg, rm, imm) is Some,
    }
}

/// What the cache makes of it.
pub open spec fn cached_effect_two(s: State, pa: u32, i: int, op: u8, p: Prefixes) -> Option<
    State,
> {
    let (reg, rm, imm, j) = crate::cpu::dcache::decode::operands_at(s.mem, pa, i + 1, true, op, p.seg)->0;
    s.behind(j - i).uop_effect(crate::cpu::dcache::decode::built_two(op, reg, rm, imm)->0)
}

proof fn lemma_built(op: u8, reg: u8, rm: Rm, imm: u32)
    ensures
        crate::cpu::dcache::decode::built_two(op, reg, rm, imm) is Some ==> 0x80 <= op <= 0x9F || op == 0xAF || op == 0xB6
            || op == 0xB7,
        0x80 <= op <= 0x8F ==> crate::cpu::dcache::decode::built_two(op, reg, rm, imm) == Some(
            Uop::Jcc { cc: (op % 16) as u8, rel: imm },
        ),
        0x90 <= op <= 0x9F ==> crate::cpu::dcache::decode::built_two(op, reg, rm, imm) == Some(
            Uop::SetCC { cc: (op % 16) as u8, rm },
        ),
        op == 0xAF ==> crate::cpu::dcache::decode::built_two(op, reg, rm, imm) == Some(Uop::ImulRRm { reg, rm }),
        op == 0xB6 ==> crate::cpu::dcache::decode::built_two(op, reg, rm, imm) == Some(Uop::MovzxB { reg, rm }),
        op == 0xB7 ==> crate::cpu::dcache::decode::built_two(op, reg, rm, imm) == Some(Uop::MovzxW { reg, rm }),
{
    reveal(crate::cpu::dcache::decode::built_two);
}

proof fn lemma_jcc(s: State, e: State, p: Prefixes, op: u8, imm: u32)
    requires
        0x80 <= op <= 0x8F,
        !p.o16,
        s.fetch32() == (e, imm),
    ensures
        s.conditionals(crate::cpu::dcache::agreement::fetch::decoder_of(p), op) == e.uop_flow(Uop::Jcc { cc: (op % 16) as u8, rel: imm }),
{
    reveal(State::conditionals);
    reveal(State::uop_flow);
    reveal(State::fetch_rel);
}

proof fn lemma_set(s: State, e: State, p: Prefixes, op: u8, reg: u8, rm: Rm)
    requires
        0x90 <= op <= 0x9F,
        s.modrm(crate::cpu::dcache::agreement::fetch::decoder_of(p)) == (e, reg as usize, e.operand_of(rm)),
    ensures
        s.conditionals(crate::cpu::dcache::agreement::fetch::decoder_of(p), op) == e.uop_move(Uop::SetCC { cc: (op % 16) as u8, rm }),
{
    reveal(State::conditionals);
    reveal(State::uop_move);
}

proof fn lemma_product(s: State, e: State, p: Prefixes, reg: u8, rm: Rm)
    requires
        !p.o16,
        reg < 8,
        s.modrm(crate::cpu::dcache::agreement::fetch::decoder_of(p)) == (e, reg as usize, e.operand_of(rm)),
    ensures
        s.bit_family(crate::cpu::dcache::agreement::fetch::decoder_of(p), 0xAF) == e.uop_alu(Uop::ImulRRm { reg, rm }),
{
    reveal(State::bit_family);
    reveal(State::uop_alu);
}

proof fn lemma_extend_byte(s: State, e: State, p: Prefixes, reg: u8, rm: Rm)
    requires
        !p.o16,
        reg < 8,
        s.modrm(crate::cpu::dcache::agreement::fetch::decoder_of(p)) == (e, reg as usize, e.operand_of(rm)),
    ensures
        s.extend(crate::cpu::dcache::agreement::fetch::decoder_of(p), 0xB6) == e.uop_move(Uop::MovzxB { reg, rm }),
{
    reveal(State::extend);
    reveal(State::uop_move);
}

proof fn lemma_extend_word(s: State, e: State, p: Prefixes, reg: u8, rm: Rm)
    requires
        !p.o16,
        reg < 8,
        s.modrm(crate::cpu::dcache::agreement::fetch::decoder_of(p)) == (e, reg as usize, e.operand_of(rm)),
    ensures
        s.extend(crate::cpu::dcache::agreement::fetch::decoder_of(p), 0xB7) == e.uop_move(Uop::MovzxW { reg, rm }),
{
    reveal(State::extend);
    reveal(State::uop_move);
}

proof fn lemma_effect(e: State, cc: u8, imm: u32, reg: u8, rm: Rm)
    ensures
        e.uop_effect(Uop::Jcc { cc, rel: imm }) == Some(e.uop_flow(Uop::Jcc { cc, rel: imm })),
        e.uop_effect(Uop::SetCC { cc, rm }) == Some(e.uop_move(Uop::SetCC { cc, rm })),
        e.uop_effect(Uop::ImulRRm { reg, rm }) == Some(e.uop_alu(Uop::ImulRRm { reg, rm })),
        e.uop_effect(Uop::MovzxB { reg, rm }) == Some(e.uop_move(Uop::MovzxB { reg, rm })),
        e.uop_effect(Uop::MovzxW { reg, rm }) == Some(e.uop_move(Uop::MovzxW { reg, rm })),
{
    reveal(State::uop_effect);
}

proof fn lemma_dispatch(s: State, s1: State, p: Prefixes, op: u8, start: u32)
    requires
        s.fetch8() == (s1, op),
        0x80 <= op <= 0x9F || op == 0xAF || op == 0xB6 || op == 0xB7,
    ensures
        0x80 <= op <= 0x9F ==> s.step_0f(crate::cpu::dcache::agreement::fetch::decoder_of(p), start) == Some(
            s1.conditionals(crate::cpu::dcache::agreement::fetch::decoder_of(p), op),
        ),
        op == 0xAF ==> s.step_0f(crate::cpu::dcache::agreement::fetch::decoder_of(p), start) == Some(s1.bit_family(crate::cpu::dcache::agreement::fetch::decoder_of(p), op)),
        op == 0xB6 || op == 0xB7 ==> s.step_0f(crate::cpu::dcache::agreement::fetch::decoder_of(p), start) == Some(
            s1.extend(crate::cpu::dcache::agreement::fetch::decoder_of(p), op),
        ),
{
    reveal(State::step_0f);
    reveal(State::twobyte_total);
}

/// The opcodes after `0F`.
pub proof fn lemma_two_agrees(s: State, pa: u32, i: int, op: u8, p: Prefixes, start: u32)
    requires
        decodes_two(s, pa, i, op, p),
    ensures
        s.step_0f(crate::cpu::dcache::agreement::fetch::decoder_of(p), start) == cached_effect_two(s, pa, i, op, p),
{
    crate::cpu::dcache::agreement::fetch::lemma_fetch8(s, pa, i);
    let s1 = s.behind(1);
    assert(s1.mem == s.mem) by {
        reveal(State::behind);
    }
    let (reg, rm, imm, j) = crate::cpu::dcache::agreement::fetch::operands_of(s1, pa, i + 1, true, op, p);
    let k = crate::cpu::dcache::agreement::fetch::lemma_operands(s1, pa, i + 1, true, op, p);
    crate::cpu::dcache::agreement::fetch::lemma_behind_twice(s, 1, j - (i + 1));
    let e = s.behind(j - i);
    lemma_built(op, reg, rm, imm);
    lemma_effect(e, (op % 16) as u8, imm, reg, rm);
    lemma_dispatch(s, s1, p, op, start);
    if op <= 0x8F {
        crate::cpu::dcache::agreement::fetch::lemma_fetch32(s1, pa, i + 1);
        lemma_jcc(s1, e, p, op, imm);
    } else if op <= 0x9F {
        lemma_set(s1, e, p, op, reg, rm);
    } else if op == 0xAF {
        lemma_product(s1, e, p, reg, rm);
    } else if op == 0xB6 {
        lemma_extend_byte(s1, e, p, reg, rm);
    } else {
        lemma_extend_word(s1, e, p, reg, rm);
    }
}

} // verus!
