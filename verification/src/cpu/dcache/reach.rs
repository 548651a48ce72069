//! How far a cached instruction reaches: what it can change, and so what has to be
//! saved to take it back.

use vstd::prelude::*;
use crate::cpu::dcache::{Rm, Uop};
use crate::cpu::operand::{Decoder, Operand};
use crate::cpu::state::{Cpu, SlimSave, CC_NONE, CS, CX};
use crate::machine::{Fault, State};

verus! {

impl Cpu {
    /// The processor without the part that is saved to take a cached instruction
    /// back.
    pub open spec fn rest(self) -> Cpu {
        Cpu {
            regs: [0u32, 0u32, 0u32, 0u32, 0u32, 0u32, 0u32, 0u32],
            ip: 0,
            flags: 0,
            cc_op: CC_NONE,
            cc_w: 0,
            cc_a: 0,
            cc_b: 0,
            cc_cin: 0,
            cc_r: 0,
            ..self
        }
    }
}

/// The string instructions among the decoded ones are those that the decoder knows.
pub open spec fn is_decoded(u: Uop) -> bool {
    match u {
        Uop::StrOne { op, .. } => crate::cpu::dcache::decode::is_string(op),
        Uop::StrRep { op, .. } => crate::cpu::dcache::decode::is_string(op),
        _ => true,
    }
}

broadcast proof fn lemma_with_flag(c: Cpu, mask: u32, on: bool)
    ensures
        (#[trigger] c.with_flag(mask, on)).rest() == c.rest(),
{
    reveal(Cpu::with_flag);
}

broadcast proof fn lemma_with_cc_incdec(c: Cpu, op: u8, w: u8, a: u32, r: u32)
    ensures
        (#[trigger] c.with_cc_incdec(op, w, a, r)).rest() == c.rest(),
{
    broadcast use {lemma_with_flag};

    reveal(Cpu::with_cc_incdec);
}

broadcast proof fn lemma_after_alu(c: Cpu, op: u8, a: u32, b: u32, w: u8)
    ensures
        (#[trigger] c.after_alu(op, a, b, w)).rest() == c.rest(),
{
    reveal(Cpu::after_alu);
}

broadcast proof fn lemma_after_inc_dec(c: Cpu, a: u32, dec: bool, w: u8)
    ensures
        (#[trigger] c.after_inc_dec(a, dec, w)).rest() == c.rest(),
{
    broadcast use {lemma_with_cc_incdec};

    reveal(Cpu::after_inc_dec);
}

broadcast proof fn lemma_with_szp(c: Cpu, v: u32, w: u8)
    ensures
        (#[trigger] c.with_szp(v, w)).rest() == c.rest(),
{
    broadcast use {lemma_with_flag};

    reveal(Cpu::with_szp);
}

broadcast proof fn lemma_after_shift(c: Cpu, kind: u8, val: u32, count_raw: u8, w: u32)
    ensures
        (#[trigger] c.after_shift(kind, val, count_raw, w)).rest() == c.rest(),
{
    broadcast use {lemma_with_flag, lemma_with_szp};

    reveal(Cpu::after_shift);
}

broadcast proof fn lemma_stepped(c: Cpu, reg: usize, a32: bool, size: u32)
    ensures
        (#[trigger] c.stepped(reg, a32, size)).rest() == c.rest(),
{
    reveal(Cpu::stepped);
}

broadcast proof fn lemma_with_element(c: Cpu, v: u32, size: u32)
    ensures
        (#[trigger] c.with_element(v, size)).rest() == c.rest(),
{
    reveal(Cpu::with_element);
}

broadcast proof fn lemma_after_compare(c: Cpu, a: u32, b: u32, size: u32)
    ensures
        (#[trigger] c.after_compare(a, b, size)).rest() == c.rest(),
{
    broadcast use {lemma_after_alu};

    reveal(Cpu::after_compare);
}

broadcast proof fn lemma_read8(s: State, lin: u32)
    ensures
        (#[trigger] s.read8(lin)).0.cpu.rest() == s.cpu.rest(),
{
    reveal(State::read8);
}

broadcast proof fn lemma_read16(s: State, lin: u32)
    ensures
        (#[trigger] s.read16(lin)).0.cpu.rest() == s.cpu.rest(),
{
    broadcast use {lemma_read8};

    reveal(State::read16);
}

broadcast proof fn lemma_read32(s: State, lin: u32)
    ensures
        (#[trigger] s.read32(lin)).0.cpu.rest() == s.cpu.rest(),
{
    broadcast use {lemma_read16};

    reveal(State::read32);
}

broadcast proof fn lemma_with_phys8(s: State, pa: u32, v: u8)
    ensures
        (#[trigger] s.with_phys8(pa, v)).cpu.rest() == s.cpu.rest(),
{
    reveal(State::with_phys8);
}

broadcast proof fn lemma_write8(s: State, lin: u32, v: u8)
    ensures
        (#[trigger] s.write8(lin, v)).cpu.rest() == s.cpu.rest(),
{
    broadcast use {lemma_with_phys8};

    reveal(State::write8);
}

broadcast proof fn lemma_write16(s: State, lin: u32, v: u16)
    ensures
        (#[trigger] s.write16(lin, v)).cpu.rest() == s.cpu.rest(),
{
    broadcast use {lemma_with_phys8};

    reveal(State::write16);
}

broadcast proof fn lemma_write32(s: State, lin: u32, v: u32)
    ensures
        (#[trigger] s.write32(lin, v)).cpu.rest() == s.cpu.rest(),
{
    broadcast use {lemma_with_phys8};

    reveal(State::write32);
}

broadcast proof fn lemma_read_op8(s: State, op: Operand)
    ensures
        (#[trigger] s.read_op8(op)).0.cpu.rest() == s.cpu.rest(),
{
    broadcast use {lemma_read8};

    reveal(State::read_op8);
}

broadcast proof fn lemma_read_op16(s: State, op: Operand)
    ensures
        (#[trigger] s.read_op16(op)).0.cpu.rest() == s.cpu.rest(),
{
    broadcast use {lemma_read16};

    reveal(State::read_op16);
}

broadcast proof fn lemma_read_op32(s: State, op: Operand)
    ensures
        (#[trigger] s.read_op32(op)).0.cpu.rest() == s.cpu.rest(),
{
    broadcast use {lemma_read32};

    reveal(State::read_op32);
}

broadcast proof fn lemma_read_op_w(s: State, op: Operand, wide: bool)
    ensures
        (#[trigger] s.read_op_w(op, wide)).0.cpu.rest() == s.cpu.rest(),
{
    broadcast use {lemma_read_op16, lemma_read_op32};

    reveal(State::read_op_w);
}

broadcast proof fn lemma_write_op8(s: State, op: Operand, v: u8)
    ensures
        (#[trigger] s.write_op8(op, v)).cpu.rest() == s.cpu.rest(),
{
    broadcast use {lemma_write8};

    reveal(State::write_op8);
}

broadcast proof fn lemma_write_op16(s: State, op: Operand, v: u16)
    ensures
        (#[trigger] s.write_op16(op, v)).cpu.rest() == s.cpu.rest(),
{
    broadcast use {lemma_write16};

    reveal(State::write_op16);
}

broadcast proof fn lemma_write_op32(s: State, op: Operand, v: u32)
    ensures
        (#[trigger] s.write_op32(op, v)).cpu.rest() == s.cpu.rest(),
{
    broadcast use {lemma_write32};

    reveal(State::write_op32);
}

broadcast proof fn lemma_write_op_w(s: State, op: Operand, v: u32, wide: bool)
    ensures
        (#[trigger] s.write_op_w(op, v, wide)).cpu.rest() == s.cpu.rest(),
{
    broadcast use {lemma_write_op16, lemma_write_op32};

    reveal(State::write_op_w);
}

broadcast proof fn lemma_sp_down(s: State, n: u32)
    ensures
        (#[trigger] s.sp_down(n)).cpu.rest() == s.cpu.rest(),
{
    reveal(State::sp_down);
}

broadcast proof fn lemma_sp_up(s: State, n: u32)
    ensures
        (#[trigger] s.sp_up(n)).cpu.rest() == s.cpu.rest(),
{
    reveal(State::sp_up);
}

broadcast proof fn lemma_push16(s: State, v: u16)
    ensures
        (#[trigger] s.push16(v)).cpu.rest() == s.cpu.rest(),
{
    broadcast use {lemma_sp_down, lemma_write16};

    reveal(State::push16);
}

broadcast proof fn lemma_push32(s: State, v: u32)
    ensures
        (#[trigger] s.push32(v)).cpu.rest() == s.cpu.rest(),
{
    broadcast use {lemma_sp_down, lemma_write32};

    reveal(State::push32);
}

broadcast proof fn lemma_push_w(s: State, v: u32, wide: bool)
    ensures
        (#[trigger] s.push_w(v, wide)).cpu.rest() == s.cpu.rest(),
{
    broadcast use {lemma_push16, lemma_push32};

    reveal(State::push_w);
}

broadcast proof fn lemma_pop16(s: State)
    ensures
        (#[trigger] s.pop16()).0.cpu.rest() == s.cpu.rest(),
{
    broadcast use {lemma_read16, lemma_sp_up};

    reveal(State::pop16);
}

broadcast proof fn lemma_pop32(s: State)
    ensures
        (#[trigger] s.pop32()).0.cpu.rest() == s.cpu.rest(),
{
    broadcast use {lemma_read32, lemma_sp_up};

    reveal(State::pop32);
}

broadcast proof fn lemma_pop_w(s: State, wide: bool)
    ensures
        (#[trigger] s.pop_w(wide)).0.cpu.rest() == s.cpu.rest(),
{
    broadcast use {lemma_pop16, lemma_pop32};

    reveal(State::pop_w);
}

broadcast proof fn lemma_read_element(s: State, lin: u32, size: u32)
    ensures
        (#[trigger] s.read_element(lin, size)).0.cpu.rest() == s.cpu.rest(),
{
    broadcast use {lemma_read16, lemma_read32, lemma_read8};

    reveal(State::read_element);
}

broadcast proof fn lemma_write_element(s: State, lin: u32, v: u32, size: u32)
    ensures
        (#[trigger] s.write_element(lin, v, size)).cpu.rest() == s.cpu.rest(),
{
    broadcast use {lemma_write16, lemma_write32, lemma_write8};

    reveal(State::write_element);
}

broadcast proof fn lemma_string_once(s: State, d: Decoder, op: u8)
    requires
        crate::cpu::dcache::decode::is_string(op),
    ensures
        (#[trigger] s.string_once(d, op)) matches Some(t) ==> t.0.cpu.rest() == s.cpu.rest(),
{
    broadcast use {lemma_read_element, lemma_write_element, lemma_after_compare, lemma_stepped, lemma_with_element};

    reveal(State::string_once);
}

broadcast proof fn lemma_string_exec(s: State, d: Decoder, op: u8)
    requires
        crate::cpu::dcache::decode::is_string(op),
    ensures
        (#[trigger] s.string_exec(d, op)) matches Some(t) ==> t.cpu.rest() == s.cpu.rest(),
    decreases s.cpu.reg_w(CX, d.addrsize32),
{
    broadcast use {lemma_string_once};

    reveal_with_fuel(State::string_exec, 2);
    if !(s.pending_fault is Some || (d.rep is Some && s.cpu.reg_w(CX, d.addrsize32) == 0)) {
        if let Some((s1, ends)) = s.string_once(d, op) {
            if !ends && d.rep is Some {
                crate::cpu::string::lemma_count_goes_down(s, d, op);
                let cx = s1.cpu.reg_w(CX, d.addrsize32).wrapping_sub(1);
                let s2 = s1.with_cpu(s1.cpu.with_reg_w(CX, cx, d.addrsize32));
                if s2.cpu.reg_w(CX, d.addrsize32) != 0 {
                    lemma_string_exec(s2, d, op);
                }
            }
        }
    }
}

broadcast proof fn lemma_shift_operand(s: State, kind: u8, o: Operand, count: u8)
    ensures
        (#[trigger] s.shift_operand(kind, o, count)).cpu.rest() == s.cpu.rest(),
{
    broadcast use {lemma_read_op_w, lemma_write_op_w, lemma_after_shift};

    reveal(State::shift_operand);
}

broadcast proof fn lemma_double_shift_operand(s: State, o: Operand, reg: usize, raw: u8, left: bool)
    ensures
        (#[trigger] s.double_shift_operand(o, reg, raw, left)).cpu.rest() == s.cpu.rest(),
{
    broadcast use {lemma_read_op_w, lemma_write_op_w, lemma_with_flag, lemma_with_szp};

    reveal(State::double_shift_operand);
}

broadcast proof fn lemma_uop_move(s: State, u: Uop)
    ensures
        (#[trigger] s.uop_move(u)).cpu.rest() == s.cpu.rest(),
{
    broadcast use {lemma_read16, lemma_read32, lemma_read8, lemma_read_op16, lemma_read_op8, lemma_read_op_w, lemma_write16, lemma_write32, lemma_write8, lemma_write_op8, lemma_write_op_w};

    reveal(State::uop_move);
}

broadcast proof fn lemma_uop_alu(s: State, u: Uop)
    ensures
        (#[trigger] s.uop_alu(u)).cpu.rest() == s.cpu.rest(),
{
    broadcast use {lemma_read_op8, lemma_read_op_w, lemma_write_op8, lemma_write_op_w, lemma_after_alu, lemma_with_flag};

    reveal(State::uop_alu);
}

broadcast proof fn lemma_uop_grp3b(s: State, kind: u8, rm: Rm, imm: u8)
    ensures
        (#[trigger] s.uop_grp3b(kind, rm, imm)).cpu.rest() == s.cpu.rest(),
{
    broadcast use {lemma_read_op8, lemma_write_op8, lemma_after_alu, lemma_with_flag};

    reveal(State::uop_grp3b);
}

broadcast proof fn lemma_uop_grp3w(s: State, kind: u8, rm: Rm, imm: u32)
    ensures
        (#[trigger] s.uop_grp3w(kind, rm, imm)).cpu.rest() == s.cpu.rest(),
{
    broadcast use {lemma_read_op_w, lemma_write_op_w, lemma_after_alu, lemma_with_flag};

    reveal(State::uop_grp3w);
}

broadcast proof fn lemma_uop_grp5(s: State, kind: u8, rm: Rm)
    ensures
        (#[trigger] s.uop_grp5(kind, rm)).cpu.rest() == s.cpu.rest(),
{
    broadcast use {lemma_push_w, lemma_read_op_w, lemma_write_op_w, lemma_after_inc_dec};

    reveal(State::uop_grp5);
}

broadcast proof fn lemma_uop_flow(s: State, u: Uop)
    ensures
        (#[trigger] s.uop_flow(u)).cpu.rest() == s.cpu.rest(),
{
    broadcast use {lemma_pop_w, lemma_push_w};

    reveal(State::uop_flow);
}

broadcast proof fn lemma_uop_effect(s: State, u: Uop)
    requires
        is_decoded(u),
    ensures
        (#[trigger] s.uop_effect(u)) matches Some(t) ==> t.cpu.rest() == s.cpu.rest(),
{
    broadcast use {lemma_double_shift_operand, lemma_read_op_w, lemma_shift_operand, lemma_string_exec, lemma_uop_alu, lemma_uop_flow, lemma_uop_grp3b, lemma_uop_grp3w, lemma_uop_grp5, lemma_uop_move, lemma_after_inc_dec, lemma_with_flag};

    reveal(State::uop_effect);
}

broadcast proof fn lemma_exec_uop(s: State, u: Uop)
    requires
        is_decoded(u),
    ensures
        (#[trigger] s.exec_uop(u)) matches Some(t) ==> t.cpu.rest() == s.cpu.rest(),
{
    broadcast use {lemma_uop_effect};

    reveal(State::exec_uop);
}

/// What was decoded holds no other string instructions.
proof fn lemma_decoded_strings(mem: Seq<u8>, pa: u32)
    ensures
        crate::cpu::dcache::decode::decoded(mem, pa) matches Some(r) ==> is_decoded(r.1),
{
    reveal(crate::cpu::dcache::decode::decoded);
    reveal(crate::cpu::dcache::decode::built);
    reveal(crate::cpu::dcache::decode::built_two);
}

/// A cached instruction that may touch memory can be taken back: what was saved
/// before it is all of the processor that it can change.
pub proof fn law_cached_taken_back(s: State, pa: u32)
    requires
        s.dcache.coherent(s.mem),
        pa != crate::cpu::dcache::TAG_INVALID,
        s.cpu.seg_is32(CS),
        s.translate(s.cpu.lin(CS, s.cpu.ip), false) == Ok::<u32, Fault>(pa),
        crate::cpu::dcache::decode::decoded(s.mem, pa) matches Some(r)
            && crate::cpu::dcache::exec::may_touch_memory(r.1),
    ensures
        s.prepared_at(pa).step() matches Some(t) ==> t.taken_back().cpu == s.cpu,
{
    let (len, u) = crate::cpu::dcache::decode::decoded(s.mem, pa)->0;
    crate::cpu::dcache::agreement::lemma_found(s, pa);
    crate::cpu::dcache::agreement::lemma_run(s, pa);
    crate::cpu::dcache::laws::law_decoded_in_page(s.mem, pa);
    crate::cpu::dcache::agreement::lemma_flags(len, u);
    lemma_decoded_strings(s.mem, pa);
    let p = s.prepared_at(pa);
    crate::cpu::dcache::agreement::fetch::lemma_translate_same(
        p,
        s,
        s.cpu.lin(CS, s.cpu.ip),
        false,
    );
    crate::cpu::dcache::agreement::whole::law_decoded_is_interpreted(p, pa);
    crate::cpu::dcache::coherence::whole::lemma_step(p);
    let w = p.walked(s.cpu.lin(CS, s.cpu.ip), false);
    lemma_exec_uop(w.behind(len as int), u);
    assert(w.behind(len as int).cpu.rest() == s.cpu.rest()) by {
        reveal(State::behind);
    }
    if let Some(t) = p.step() {
        lemma_restored(s.cpu, t.cpu);
    }
}

proof fn lemma_restored(before: Cpu, after: Cpu)
    requires
        after.rest() == before.rest(),
    ensures
        after.with_slim(SlimSave { ip: before.ip, ..before.slim() }) == before,
{
}

/// Operands in registers are read and written without memory.
proof fn lemma_register(s: State, r: usize, v: u32)
    ensures
        ({
            let o = Operand::Reg(r);
            &&& s.read_op8(o).0 == s
            &&& s.read_op16(o).0 == s
            &&& s.read_op_w(o, true).0 == s
            &&& s.read_op_w(o, false).0 == s
            &&& s.write_op8(o, v as u8) == s.with_cpu(s.write_op8(o, v as u8).cpu)
            &&& s.write_op_w(o, v, true) == s.with_cpu(s.write_op_w(o, v, true).cpu)
            &&& s.write_op_w(o, v, false) == s.with_cpu(s.write_op_w(o, v, false).cpu)
        }),
{
    reveal(State::read_op8);
    reveal(State::read_op16);
    reveal(State::read_op32);
    reveal(State::read_op_w);
    reveal(State::write_op8);
    reveal(State::write_op16);
    reveal(State::write_op32);
    reveal(State::write_op_w);
}

broadcast proof fn lemma_register_reads(s: State, r: usize, w: bool)
    ensures
        #[trigger] s.read_op_w(Operand::Reg(r), w).0 == s,
{
    lemma_register(s, r, 0);
}

broadcast proof fn lemma_register_reads8(s: State, r: usize)
    ensures
        #[trigger] s.read_op8(Operand::Reg(r)).0 == s,
{
    lemma_register(s, r, 0);
}

broadcast proof fn lemma_register_reads16(s: State, r: usize)
    ensures
        #[trigger] s.read_op16(Operand::Reg(r)).0 == s,
{
    lemma_register(s, r, 0);
}

broadcast proof fn lemma_register_writes(s: State, r: usize, v: u32, w: bool)
    ensures
        #[trigger] s.write_op_w(Operand::Reg(r), v, w) == s.with_cpu(
            s.write_op_w(Operand::Reg(r), v, w).cpu,
        ),
{
    lemma_register(s, r, v);
}

broadcast proof fn lemma_register_writes8(s: State, r: usize, v: u8)
    ensures
        #[trigger] s.write_op8(Operand::Reg(r), v) == s.with_cpu(
            s.write_op8(Operand::Reg(r), v).cpu,
        ),
{
    reveal(State::write_op8);
}

proof fn lemma_plain_move(s: State, u: Uop)
    requires
        !crate::cpu::dcache::exec::may_touch_memory(u),
    ensures
        s.uop_move(u) == s.with_cpu(s.uop_move(u).cpu),
{
    broadcast use {
        lemma_register_reads,
        lemma_register_reads8,
        lemma_register_reads16,
        lemma_register_writes,
        lemma_register_writes8,
    };

    reveal(State::uop_move);
}

proof fn lemma_plain_alu(s: State, u: Uop)
    requires
        !crate::cpu::dcache::exec::may_touch_memory(u),
    ensures
        s.uop_alu(u) == s.with_cpu(s.uop_alu(u).cpu),
{
    broadcast use {
        lemma_register_reads,
        lemma_register_reads8,
        lemma_register_writes,
        lemma_register_writes8,
    };

    reveal(State::uop_alu);
}

proof fn lemma_plain_other(s: State, u: Uop)
    requires
        !crate::cpu::dcache::exec::may_touch_memory(u),
    ensures
        s.uop_effect(u) matches Some(t) && t == s.with_cpu(t.cpu),
{
    broadcast use {
        lemma_register_reads,
        lemma_register_reads8,
        lemma_register_writes,
        lemma_register_writes8,
    };

    lemma_plain_move(s, u);
    lemma_plain_alu(s, u);
    reveal(State::uop_effect);
    reveal(State::uop_flow);
    reveal(State::shift_operand);
    reveal(State::double_shift_operand);
    reveal(State::uop_grp3b);
    reveal(State::uop_grp3w);
}

/// An instruction that does not touch memory can neither fault nor change anything
/// but the processor and the log, so that nothing has to be saved for it.
pub proof fn law_plain_instruction(s: State, u: Uop)
    requires
        !crate::cpu::dcache::exec::may_touch_memory(u),
    ensures
        s.exec_uop(u) matches Some(t) && t == (State { cpu: t.cpu, log: t.log, ..s }),
{
    reveal(State::exec_uop);
    match crate::cpu::dcache::exec::prefixed_opcode(u) {
        Some(op) => lemma_plain_other(s.seen_prefixed(op), u),
        None => lemma_plain_other(s, u),
    }
}

} // verus!
