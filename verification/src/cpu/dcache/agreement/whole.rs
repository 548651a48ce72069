//! A whole instruction.

use vstd::prelude::*;
use crate::cpu::dcache::decode::Prefixes;
use crate::cpu::dcache::Rm;
use crate::cpu::operand::Decoder;
use crate::cpu::state::CS;
use crate::machine::{Fault, State};

verus! {

/// The opcodes that the cache takes, other than `0F`.
pub open spec fn is_cached(op: u8) -> bool {
    (op < 0x40 && op % 8 <= 5) || 0x40 <= op <= 0x5F || op == 0x68 || op == 0x6A || 0x70 <= op
        <= 0x81 || 0x83 <= op <= 0x85 || 0x88 <= op <= 0x8B || op == 0x8D || 0x90 <= op <= 0x97
        || 0xA0 <= op <= 0xA7 || 0xAA <= op <= 0xAF || 0xB8 <= op <= 0xBF || op == 0xC1 || op
        == 0xC3 || op == 0xC6 || op == 0xC7 || op == 0xC9 || op == 0xD1 || op == 0xD3 || op == 0xE8
        || op == 0xE9 || op == 0xEB || op == 0xF6 || op == 0xF7 || op == 0xFF
}

proof fn lemma_vocabulary(op: u8, reg: u8, rm: Rm, imm: u32, p: Prefixes)
    ensures
        crate::cpu::dcache::decode::built(op, reg, rm, imm, p) is Some ==> is_cached(op),
{
    reveal(crate::cpu::dcache::decode::built);
}

/// An instruction came from one with an operand size prefix just when its prefixes
/// said so.
proof fn lemma_prefix_noted(op: u8, reg: u8, rm: Rm, imm: u32, p: Prefixes)
    requires
        crate::cpu::dcache::decode::takes(op, p),
        crate::cpu::dcache::decode::built(op, reg, rm, imm, p) is Some,
    ensures
        crate::cpu::dcache::exec::prefixed_opcode(crate::cpu::dcache::decode::built(op, reg, rm, imm, p)->0) == (if p.o16 {
            Some(op)
        } else {
            None
        }),
{
    reveal(crate::cpu::dcache::decode::built);
}

proof fn lemma_no_prefix_noted(op: u8, reg: u8, rm: Rm, imm: u32)
    requires
        crate::cpu::dcache::decode::built_two(op, reg, rm, imm) is Some,
    ensures
        crate::cpu::dcache::exec::prefixed_opcode(crate::cpu::dcache::decode::built_two(op, reg, rm, imm)->0) is None,
{
    reveal(crate::cpu::dcache::decode::built_two);
}

proof fn lemma_total(s: State, d: Decoder, op: u8)
    ensures
        op < 0x40 && op % 8 <= 5 ==> s.onebyte_total(d, op) == s.alu_grid(d, op),
        op == 0x80 || op == 0x81 || op == 0x83 ==> s.onebyte_total(d, op) == s.grp1(d, op),
        0x88 <= op <= 0x8B || 0xB8 <= op <= 0xBF || op == 0xC6 || op == 0xC7 || 0xA0 <= op <= 0xA3
            ==> s.onebyte_total(d, op) == s.moves(d, op),
        crate::cpu::dcache::agreement::flow::is_stack(op) ==> s.onebyte_total(d, op)
            == s.stack_ops(d, op),
        crate::cpu::dcache::agreement::flow::is_jump(op) ==> s.onebyte_total(d, op)
            == s.near_control(d, op),
        op == 0x84 || op == 0x85 || 0x90 <= op <= 0x97 || 0x40 <= op <= 0x4F ==> s.onebyte_total(
            d,
            op,
        ) == s.misc_ops(d, op),
        op == 0xC1 || op == 0xD1 || op == 0xD3 ==> s.onebyte_total(d, op) == s.grp2(d, op),
{
    reveal(State::onebyte_total);
}

proof fn lemma_onebyte(s: State, d: Decoder, op: u8, start: u32)
    requires
        is_cached(op),
        op != 0x0F,
    ensures
        op == 0x8D ==> s.onebyte(d, op, start) == s.lea(d),
        op == 0xF6 ==> s.onebyte(d, op, start) == s.grp3_byte(d, start),
        op == 0xF7 ==> s.onebyte(d, op, start) == s.grp3_word(d, start),
        op == 0xFF ==> s.onebyte(d, op, start) == s.grp5(d),
        crate::cpu::dcache::decode::is_string(op) ==> s.onebyte(d, op, start) == s.string_exec(d, op),
        !crate::cpu::dcache::decode::is_string(op) && op != 0x8D && op != 0xF6 && op != 0xF7 && op != 0xFF ==> s.onebyte(
            d,
            op,
            start,
        ) == Some(s.onebyte_total(d, op)),
{
    reveal(State::onebyte);
}

/// An opcode of one byte and its operands.
proof fn lemma_one_agrees(s: State, pa: u32, i: int, op: u8, p: Prefixes, start: u32)
    requires
        crate::cpu::dcache::agreement::fetch::decodes(s, pa, i, op, p),
        op != 0x0F,
    ensures
        s.onebyte(crate::cpu::dcache::agreement::fetch::decoder_of(p), op, start) == crate::cpu::dcache::agreement::fetch::cached_effect(s, pa, i, op, p),
{
    let (reg, rm, imm, j) = crate::cpu::dcache::agreement::fetch::operands_of(s, pa, i, false, op, p);
    let d = crate::cpu::dcache::agreement::fetch::decoder_of(p);
    lemma_vocabulary(op, reg, rm, imm, p);
    lemma_total(s, d, op);
    lemma_onebyte(s, d, op, start);
    if op < 0x40 {
        crate::cpu::dcache::agreement::grid::lemma_grid_agrees(s, pa, i, op, p);
    } else if op == 0x80 || op == 0x81 || op == 0x83 {
        crate::cpu::dcache::agreement::grp1::lemma_grp1_agrees(s, pa, i, op, p);
    } else if crate::cpu::dcache::decode::is_string(op) {
        crate::cpu::dcache::agreement::strings::lemma_strings_agree(s, pa, i, op, p);
    } else if op == 0x8D {
        crate::cpu::dcache::agreement::groups::lemma_lea_agrees(s, pa, i, p);
    } else if op == 0xF6 || op == 0xF7 {
        crate::cpu::dcache::agreement::groups::lemma_grp3_agrees(s, pa, i, op, p, start);
    } else if op == 0xFF {
        crate::cpu::dcache::agreement::groups::lemma_grp5_agrees(s, pa, i, p);
    } else if op == 0xC1 || op == 0xD1 || op == 0xD3 {
        crate::cpu::dcache::agreement::groups::lemma_shifts_agree(s, pa, i, op, p);
    } else if crate::cpu::dcache::agreement::flow::is_stack(op) {
        crate::cpu::dcache::agreement::flow::lemma_stack_agrees(s, pa, i, op, p);
    } else if crate::cpu::dcache::agreement::flow::is_jump(op) {
        crate::cpu::dcache::agreement::flow::lemma_jumps_agree(s, pa, i, op, p);
    } else if op == 0x84 || op == 0x85 || 0x90 <= op <= 0x97 || op <= 0x4F {
        crate::cpu::dcache::agreement::misc::lemma_misc_agrees(s, pa, i, op, p);
    } else {
        crate::cpu::dcache::agreement::moves::lemma_moves_agree(s, pa, i, op, p);
    }
}

/// Noting a prefix in the log and moving on can be done in either order.
proof fn lemma_seen_behind(s: State, op: u8, pa: u32, i: int, n: int)
    requires
        s.runs_at(pa, i),
    ensures
        s.seen_prefixed(op).runs_at(pa, i),
        s.seen_prefixed(op).mem == s.mem,
        s.seen_prefixed(op).behind(n) == s.behind(n).seen_prefixed(op),
{
    reveal(State::behind);
    let lin = s.cpu.lin(CS, s.cpu.ip.wrapping_sub(i as u32));
    crate::cpu::dcache::agreement::fetch::lemma_translate_same(s.seen_prefixed(op), s, lin, false);
    crate::walk::lemma_walk_same(s.seen_prefixed(op), s, lin, false);
}

/// An instruction after its prefixes and its opcode, which ends at byte `i`.
proof fn lemma_opcode_agrees(s: State, pa: u32, i: int, op: u8, p: Prefixes, start: u32)
    requires
        crate::cpu::dcache::agreement::fetch::decodes(s, pa, i, op, p),
        op != 0x0F,
    ensures
        ({
            let (reg, rm, imm, j) = crate::cpu::dcache::agreement::fetch::operands_of(s, pa, i, false, op, p);
            s.step_with(crate::cpu::dcache::agreement::fetch::decoder_of(p), op, start) == s.behind(j - i).exec_uop(
                crate::cpu::dcache::decode::built(op, reg, rm, imm, p)->0,
            )
        }),
{
    reveal(State::step_with);
    reveal(State::exec_uop);
    let (reg, rm, imm, j) = crate::cpu::dcache::agreement::fetch::operands_of(s, pa, i, false, op, p);
    lemma_prefix_noted(op, reg, rm, imm, p);
    if p.o16 {
        lemma_seen_behind(s, op, pa, i, j - i);
        lemma_one_agrees(s.seen_prefixed(op), pa, i, op, p, start);
    } else {
        lemma_one_agrees(s, pa, i, op, p, start);
    }
}

proof fn lemma_two_step(s: State, pa: u32, i: int, op: u8, p: Prefixes, start: u32)
    requires
        crate::cpu::dcache::agreement::two::decodes_two(s, pa, i, op, p),
    ensures
        ({
            let (reg, rm, imm, j) = crate::cpu::dcache::agreement::fetch::operands_of(s, pa, i + 1, true, op, p);
            s.step_with(crate::cpu::dcache::agreement::fetch::decoder_of(p), 0x0F, start) == s.behind(j - i).exec_uop(
                crate::cpu::dcache::decode::built_two(op, reg, rm, imm)->0,
            )
        }),
{
    reveal(State::step_with);
    reveal(State::exec_uop);
    reveal(State::onebyte);
    let (reg, rm, imm, j) = crate::cpu::dcache::agreement::fetch::operands_of(s, pa, i + 1, true, op, p);
    lemma_no_prefix_noted(op, reg, rm, imm);
    crate::cpu::dcache::agreement::two::lemma_two_agrees(s, pa, i, op, p, start);
}

/// A decoded instruction does what the interpreter does with its bytes: registers,
/// flags, memory, faults and the log come out the same, and the fetch of the code is
/// noted.
pub proof fn law_decoded_is_interpreted(s: State, pa: u32)
    requires
        s.cpu.seg_is32(CS),
        s.translate(s.cpu.lin(CS, s.cpu.ip), false) == Ok::<u32, Fault>(pa),
        crate::cpu::dcache::decode::decoded(s.mem, pa) is Some,
    ensures
        ({
            let (len, u) = crate::cpu::dcache::decode::decoded(s.mem, pa)->0;
            s.step() == s.walked(s.cpu.lin(CS, s.cpu.ip), false).behind(len as int).exec_uop(u)
        }),
{
    let lin = s.cpu.lin(CS, s.cpu.ip);
    let t = s.walked(lin, false);
    crate::walk::lemma_walk_grows(s, lin, false);
    crate::cpu::dcache::agreement::fetch::lemma_translate_same(t, s, lin, false);
    lemma_decoded_quiet(t, pa);
    assert(s.fetch8() == t.fetch8()) by {
        reveal(State::fetch8);
        reveal(State::read8);
        reveal(State::phys8);
    }
    assert(s.step() == t.step()) by {
        reveal(State::step);
        reveal_with_fuel(State::prefixes, 2);
    }
}

/// The same where the page of the code is known to be accessed.
proof fn lemma_decoded_quiet(s: State, pa: u32)
    requires
        s.cpu.seg_is32(CS),
        s.translate(s.cpu.lin(CS, s.cpu.ip), false) == Ok::<u32, Fault>(pa),
        s.quiet(s.cpu.lin(CS, s.cpu.ip), false),
        crate::cpu::dcache::decode::decoded(s.mem, pa) is Some,
    ensures
        ({
            let (len, u) = crate::cpu::dcache::decode::decoded(s.mem, pa)->0;
            s.step() == s.behind(len as int).exec_uop(u)
        }),
{
    reveal(crate::cpu::dcache::decode::decoded);
    reveal(State::step);
    let none = Prefixes { seg: None, o16: false, rep: None };
    assert(s.runs_at(pa, 0));
    assert(crate::cpu::dcache::agreement::fetch::decoder_of(none) == crate::cpu::unprefixed(true));
    crate::cpu::dcache::agreement::fetch::lemma_prefixes(s, pa, 0, none, 0x1_0000_0000);
    let (p, op, i) = crate::cpu::dcache::decode::prefixes_from(s.mem, pa, 0, none)->0;
    let t = s.behind(i);
    assert(t.mem == s.mem) by {
        reveal(State::behind);
    }
    if op == 0x0F {
        let op2 = crate::cpu::dcache::decode::code(s.mem, pa, i)->0;
        let (reg, rm, imm, j) = crate::cpu::dcache::agreement::fetch::operands_of(t, pa, i + 1, true, op2, p);
        lemma_two_step(t, pa, i, op2, p, s.cpu.ip);
        lemma_end(s, pa, i + 1, true, op2, p);
        crate::cpu::dcache::agreement::fetch::lemma_behind_twice(s, i, j - i);
    } else {
        let (reg, rm, imm, j) = crate::cpu::dcache::agreement::fetch::operands_of(t, pa, i, false, op, p);
        lemma_opcode_agrees(t, pa, i, op, p, s.cpu.ip);
        lemma_end(s, pa, i, false, op, p);
        crate::cpu::dcache::agreement::fetch::lemma_behind_twice(s, i, j - i);
    }
}

/// Operands end behind where they begin.
proof fn lemma_end(s: State, pa: u32, i: int, two: bool, op: u8, p: Prefixes)
    requires
        0 <= i <= 16,
        crate::cpu::dcache::decode::operands_at(s.mem, pa, i, two, op, p.seg) is Some,
    ensures
        i <= crate::cpu::dcache::agreement::fetch::operands_of(s, pa, i, two, op, p).3 <= 64,
{
    reveal(crate::cpu::dcache::decode::operands_at);
    reveal(crate::cpu::dcache::decode::modrm_at);
}

} // verus!
