//! The one-byte opcodes.

use vstd::prelude::*;
use crate::cpu::operand::Decoder;
use crate::machine::State;

verus! {

pub broadcast proof fn lemma_alu_grid(s: State, d: Decoder, op: u8)
    ensures
        s.steps_to(#[trigger] s.alu_grid(d, op)),
{
    broadcast use {
        crate::cpu::dcache::coherence::operand::lemma_fetch8,
        crate::cpu::dcache::coherence::operand::lemma_fetch_w,
        crate::cpu::dcache::coherence::operand::lemma_modrm,
        crate::cpu::dcache::coherence::operand::lemma_read_op8,
        crate::cpu::dcache::coherence::operand::lemma_read_op_w,
        crate::cpu::dcache::coherence::operand::lemma_write_op8,
        crate::cpu::dcache::coherence::operand::lemma_write_op_w,
    };

    reveal(State::alu_grid);
}

pub broadcast proof fn lemma_grp1(s: State, d: Decoder, op: u8)
    ensures
        s.steps_to(#[trigger] s.grp1(d, op)),
{
    broadcast use {
        crate::cpu::dcache::coherence::operand::lemma_fetch8,
        crate::cpu::dcache::coherence::operand::lemma_fetch_w,
        crate::cpu::dcache::coherence::operand::lemma_modrm,
        crate::cpu::dcache::coherence::operand::lemma_read_op8,
        crate::cpu::dcache::coherence::operand::lemma_read_op_w,
        crate::cpu::dcache::coherence::operand::lemma_write_op8,
        crate::cpu::dcache::coherence::operand::lemma_write_op_w,
    };

    reveal(State::grp1);
}

pub broadcast proof fn lemma_moves(s: State, d: Decoder, op: u8)
    ensures
        s.steps_to(#[trigger] s.moves(d, op)),
{
    broadcast use {
        crate::cpu::dcache::coherence::operand::lemma_fetch8,
        crate::cpu::dcache::coherence::operand::lemma_fetch_w,
        crate::cpu::dcache::coherence::operand::lemma_modrm,
        crate::cpu::dcache::coherence::memory::lemma_read16,
        crate::cpu::dcache::coherence::memory::lemma_read32,
        crate::cpu::dcache::coherence::memory::lemma_read8,
        crate::cpu::dcache::coherence::operand::lemma_read_op8,
        crate::cpu::dcache::coherence::operand::lemma_read_op_w,
        crate::cpu::dcache::coherence::memory::lemma_write16,
        crate::cpu::dcache::coherence::memory::lemma_write32,
        crate::cpu::dcache::coherence::memory::lemma_write8,
        crate::cpu::dcache::coherence::operand::lemma_write_op8,
        crate::cpu::dcache::coherence::operand::lemma_write_op_w,
    };

    reveal(State::moves);
}

pub broadcast proof fn lemma_segment_moves(s: State, d: Decoder, op: u8, start_ip: u32)
    ensures
        (#[trigger] s.segment_moves(d, op, start_ip)) matches Some(t) ==> s.steps_to(t),
{
    broadcast use {
        crate::cpu::dcache::coherence::interrupt::lemma_interrupt,
        crate::cpu::dcache::coherence::segment::lemma_load_seg,
        crate::cpu::dcache::coherence::operand::lemma_modrm,
        crate::cpu::dcache::coherence::operand::lemma_pop_w,
        crate::cpu::dcache::coherence::operand::lemma_push_w,
        crate::cpu::dcache::coherence::group::lemma_read_far,
        crate::cpu::dcache::coherence::operand::lemma_read_op16,
        crate::cpu::dcache::coherence::operand::lemma_write_op16,
    };

    reveal(State::segment_moves);
}

pub broadcast proof fn lemma_enter_levels(s: State, n: nat, w: bool, sw: bool)
    ensures
        s.steps_to(#[trigger] s.enter_levels(n, w, sw)),
    decreases n,
{
    broadcast use {
        crate::cpu::dcache::coherence::operand::lemma_push_w,
        crate::cpu::dcache::coherence::memory::lemma_read16,
        crate::cpu::dcache::coherence::memory::lemma_read32,
    };

    reveal_with_fuel(State::enter_levels, 2);
    if n > 0 {
        let b = s.cpu.reg_w(crate::cpu::state::BP, sw).wrapping_sub(if w { 4 } else { 2 });
        let s1 = s.with_cpu(s.cpu.with_reg_w(crate::cpu::state::BP, b, sw));
        let (s2, v) = s1.read_w(s1.cpu.lin(crate::cpu::state::SS, b), w);
        lemma_enter_levels(s2.push_w(v, w), (n - 1) as nat, w, sw);
    }
}

pub broadcast proof fn lemma_enter(s: State, d: Decoder)
    ensures
        s.steps_to(#[trigger] s.enter(d)),
{
    broadcast use {
        crate::cpu::dcache::coherence::onebyte::lemma_enter_levels,
        crate::cpu::dcache::coherence::operand::lemma_fetch16,
        crate::cpu::dcache::coherence::operand::lemma_fetch8,
        crate::cpu::dcache::coherence::operand::lemma_push_w,
        crate::cpu::dcache::coherence::onebyte::lemma_reserve,
    };

    reveal(State::enter);
}

pub broadcast proof fn lemma_reserve(s: State, size: u16)
    ensures
        s.steps_to(#[trigger] s.reserve(size)),
{
    reveal(State::reserve);
}

pub broadcast proof fn lemma_stack_ops(s: State, d: Decoder, op: u8)
    ensures
        s.steps_to(#[trigger] s.stack_ops(d, op)),
{
    broadcast use {
        crate::cpu::dcache::coherence::onebyte::lemma_enter,
        crate::cpu::dcache::coherence::operand::lemma_fetch8,
        crate::cpu::dcache::coherence::operand::lemma_fetch_w,
        crate::cpu::dcache::coherence::operand::lemma_modrm,
        crate::cpu::dcache::coherence::operand::lemma_pop_w,
        crate::cpu::dcache::coherence::operand::lemma_push_w,
        crate::cpu::dcache::coherence::operand::lemma_write_op_w,
    };

    reveal(State::stack_ops);
}

pub broadcast proof fn lemma_flag_ops(s: State, d: Decoder, op: u8, start_ip: u32)
    ensures
        (#[trigger] s.flag_ops(d, op, start_ip)) matches Some(t) ==> s.steps_to(t),
{
    broadcast use {
        crate::cpu::dcache::coherence::interrupt::lemma_gp_fault,
        crate::cpu::dcache::coherence::operand::lemma_pop_w,
        crate::cpu::dcache::coherence::operand::lemma_push_w,
    };

    reveal(State::flag_ops);
}

pub broadcast proof fn lemma_near_control(s: State, d: Decoder, op: u8)
    ensures
        s.steps_to(#[trigger] s.near_control(d, op)),
{
    broadcast use {
        crate::cpu::dcache::coherence::operand::lemma_fetch16,
        crate::cpu::dcache::coherence::operand::lemma_fetch8,
        crate::cpu::dcache::coherence::operand::lemma_fetch_rel,
        crate::cpu::dcache::coherence::operand::lemma_pop_w,
        crate::cpu::dcache::coherence::operand::lemma_push_w,
        crate::cpu::dcache::coherence::operand::lemma_sp_up,
    };

    reveal(State::near_control);
}

pub broadcast proof fn lemma_far_control(s: State, d: Decoder, op: u8, start_ip: u32)
    ensures
        (#[trigger] s.far_control(d, op, start_ip)) matches Some(t) ==> s.steps_to(t),
{
    broadcast use {
        crate::cpu::dcache::coherence::segment::lemma_far_call,
        crate::cpu::dcache::coherence::group::lemma_far_jump,
        crate::cpu::dcache::coherence::segment::lemma_far_ret,
        crate::cpu::dcache::coherence::operand::lemma_fetch16,
        crate::cpu::dcache::coherence::operand::lemma_fetch8,
        crate::cpu::dcache::coherence::operand::lemma_fetch_w,
        crate::cpu::dcache::coherence::interrupt::lemma_gp_fault,
        crate::cpu::dcache::coherence::interrupt::lemma_interrupt,
        crate::cpu::dcache::coherence::interrupt::lemma_iret,
        crate::cpu::dcache::coherence::interrupt::lemma_software_int,
    };

    reveal(State::far_control);
}

pub broadcast proof fn lemma_port_ops(s: State, d: Decoder, op: u8, start_ip: u32)
    ensures
        (#[trigger] s.port_ops(d, op, start_ip)) matches Some(t) ==> s.steps_to(t),
{
    broadcast use {
        crate::cpu::dcache::coherence::operand::lemma_fetch8,
        crate::cpu::dcache::coherence::interrupt::lemma_gp_fault,
        crate::cpu::dcache::coherence::interrupt::lemma_io_permitted,
    };

    reveal(State::port_ops);
}

pub broadcast proof fn lemma_bound(s: State, d: Decoder, start_ip: u32)
    ensures
        (#[trigger] s.bound(d, start_ip)) matches Some(t) ==> s.steps_to(t),
{
    broadcast use {
        crate::cpu::dcache::coherence::interrupt::lemma_interrupt,
        crate::cpu::dcache::coherence::operand::lemma_modrm,
        crate::cpu::dcache::coherence::memory::lemma_read16,
        crate::cpu::dcache::coherence::memory::lemma_read32,
    };

    reveal(State::bound);
}

pub broadcast proof fn lemma_arpl(s: State, d: Decoder, start_ip: u32)
    ensures
        (#[trigger] s.arpl(d, start_ip)) matches Some(t) ==> s.steps_to(t),
{
    broadcast use {
        crate::cpu::dcache::coherence::interrupt::lemma_interrupt,
        crate::cpu::dcache::coherence::operand::lemma_modrm,
        crate::cpu::dcache::coherence::operand::lemma_read_op16,
        crate::cpu::dcache::coherence::operand::lemma_write_op16,
    };

    reveal(State::arpl);
}

pub broadcast proof fn lemma_imul_imm(s: State, d: Decoder, op: u8)
    ensures
        s.steps_to(#[trigger] s.imul_imm(d, op)),
{
    broadcast use {
        crate::cpu::dcache::coherence::operand::lemma_fetch8,
        crate::cpu::dcache::coherence::operand::lemma_fetch_w,
        crate::cpu::dcache::coherence::operand::lemma_modrm,
        crate::cpu::dcache::coherence::operand::lemma_read_op_w,
    };

    reveal(State::imul_imm);
}

pub broadcast proof fn lemma_misc_ops(s: State, d: Decoder, op: u8)
    ensures
        s.steps_to(#[trigger] s.misc_ops(d, op)),
{
    broadcast use {
        crate::cpu::dcache::coherence::operand::lemma_fetch8,
        crate::cpu::dcache::coherence::operand::lemma_fetch_w,
        crate::cpu::dcache::coherence::operand::lemma_modrm,
        crate::cpu::dcache::coherence::memory::lemma_read8,
        crate::cpu::dcache::coherence::operand::lemma_read_op8,
        crate::cpu::dcache::coherence::operand::lemma_read_op_w,
        crate::cpu::dcache::coherence::operand::lemma_write_op8,
        crate::cpu::dcache::coherence::operand::lemma_write_op_w,
    };

    reveal(State::misc_ops);
}

pub broadcast proof fn lemma_lea(s: State, d: Decoder)
    ensures
        (#[trigger] s.lea(d)) matches Some(t) ==> s.steps_to(t),
{
    broadcast use {
        crate::cpu::dcache::coherence::operand::lemma_modrm,
    };

    reveal(State::lea);
}

pub broadcast proof fn lemma_esc(s: State, d: Decoder, op: u8)
    ensures
        s.steps_to(#[trigger] s.esc(d, op)),
{
    broadcast use {
        crate::cpu::dcache::coherence::fpu::lemma_fpu_exec,
        crate::cpu::dcache::coherence::operand::lemma_modrm,
    };

    reveal(State::esc);
}

pub broadcast proof fn lemma_onebyte_total(s: State, d: Decoder, op: u8)
    ensures
        s.steps_to(#[trigger] s.onebyte_total(d, op)),
{
    broadcast use {
        crate::cpu::dcache::coherence::decimal::lemma_aad,
        crate::cpu::dcache::coherence::onebyte::lemma_alu_grid,
        crate::cpu::dcache::coherence::onebyte::lemma_esc,
        crate::cpu::dcache::coherence::onebyte::lemma_grp1,
        crate::cpu::dcache::coherence::group::lemma_grp2,
        crate::cpu::dcache::coherence::group::lemma_grp4,
        crate::cpu::dcache::coherence::onebyte::lemma_imul_imm,
        crate::cpu::dcache::coherence::onebyte::lemma_misc_ops,
        crate::cpu::dcache::coherence::onebyte::lemma_moves,
        crate::cpu::dcache::coherence::onebyte::lemma_near_control,
        crate::cpu::dcache::coherence::onebyte::lemma_stack_ops,
    };

    reveal(State::onebyte_total);
}

pub broadcast proof fn lemma_onebyte(s: State, d: Decoder, op: u8, start_ip: u32)
    ensures
        (#[trigger] s.onebyte(d, op, start_ip)) matches Some(t) ==> s.steps_to(t),
{
    broadcast use {
        crate::cpu::dcache::coherence::decimal::lemma_aam,
        crate::cpu::dcache::coherence::onebyte::lemma_arpl,
        crate::cpu::dcache::coherence::onebyte::lemma_bound,
        crate::cpu::dcache::coherence::onebyte::lemma_far_control,
        crate::cpu::dcache::coherence::onebyte::lemma_flag_ops,
        crate::cpu::dcache::coherence::group::lemma_grp3_byte,
        crate::cpu::dcache::coherence::group::lemma_grp3_word,
        crate::cpu::dcache::coherence::group::lemma_grp5,
        crate::cpu::dcache::coherence::onebyte::lemma_lea,
        crate::cpu::dcache::coherence::onebyte::lemma_onebyte_total,
        crate::cpu::dcache::coherence::onebyte::lemma_port_ops,
        crate::cpu::dcache::coherence::onebyte::lemma_segment_moves,
        crate::cpu::dcache::coherence::twobyte::lemma_step_0f,
        crate::cpu::dcache::coherence::string::lemma_string_exec,
    };

    reveal(State::onebyte);
}

} // verus!
