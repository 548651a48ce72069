//! The opcodes after `0F`.

use vstd::prelude::*;
use crate::cpu::operand::{Decoder, Operand};
use crate::machine::State;

verus! {

pub broadcast proof fn lemma_read_global(s: State, sel: u16)
    ensures
        s.steps_to((#[trigger] s.read_global(sel)).0),
{
    broadcast use {
        crate::cpu::dcache::coherence::memory::lemma_read32,
    };

    reveal(State::read_global);
}

pub broadcast proof fn lemma_lldt(s: State, sel: u16)
    ensures
        (#[trigger] s.lldt(sel)) matches Some(t) ==> s.steps_to(t),
{
    broadcast use {
        crate::cpu::dcache::coherence::twobyte::lemma_read_global,
    };

    reveal(State::lldt);
}

pub broadcast proof fn lemma_ltr(s: State, sel: u16)
    ensures
        (#[trigger] s.ltr(sel)) matches Some(t) ==> s.steps_to(t),
{
    broadcast use {
        crate::cpu::dcache::coherence::twobyte::lemma_read_global,
    };

    reveal(State::ltr);
}

pub broadcast proof fn lemma_read_rights(s: State, sel: u16)
    ensures
        s.steps_to((#[trigger] s.read_rights(sel)).0),
{
    broadcast use {
        crate::cpu::dcache::coherence::memory::lemma_read32,
    };

    reveal(State::read_rights);
}

pub broadcast proof fn lemma_verify_selector(s: State, sel: u16, write: bool)
    ensures
        s.steps_to((#[trigger] s.verify_selector(sel, write)).0),
{
    broadcast use {
        crate::cpu::dcache::coherence::twobyte::lemma_read_rights,
    };

    reveal(State::verify_selector);
}

pub broadcast proof fn lemma_grp6(s: State, d: Decoder, start_ip: u32)
    ensures
        (#[trigger] s.grp6(d, start_ip)) matches Some(t) ==> s.steps_to(t),
{
    broadcast use {
        crate::cpu::dcache::coherence::twobyte::lemma_lldt,
        crate::cpu::dcache::coherence::twobyte::lemma_ltr,
        crate::cpu::dcache::coherence::operand::lemma_modrm,
        crate::cpu::dcache::coherence::operand::lemma_read_op16,
        crate::cpu::dcache::coherence::twobyte::lemma_verify_selector,
        crate::cpu::dcache::coherence::operand::lemma_write_op16,
    };

    reveal(State::grp6);
}

pub broadcast proof fn lemma_grp7(s: State, d: Decoder)
    ensures
        (#[trigger] s.grp7(d)) matches Some(t) ==> s.steps_to(t),
{
    broadcast use {
        crate::cpu::dcache::coherence::operand::lemma_modrm,
        crate::cpu::dcache::coherence::memory::lemma_read16,
        crate::cpu::dcache::coherence::memory::lemma_read32,
    };

    reveal(State::grp7);
}

pub broadcast proof fn lemma_bit_op(s: State, wide: bool, rm: Operand, off: u32, kind: u8)
    ensures
        s.steps_to(#[trigger] s.bit_op(wide, rm, off, kind)),
{
    broadcast use {
        crate::cpu::dcache::coherence::memory::lemma_read8,
        crate::cpu::dcache::coherence::memory::lemma_write8,
    };

    reveal(State::bit_op);
}

pub broadcast proof fn lemma_exchange8(s: State, d: Decoder, op: u8)
    ensures
        s.steps_to(#[trigger] s.exchange8(d, op)),
{
    broadcast use {
        crate::cpu::dcache::coherence::operand::lemma_modrm,
        crate::cpu::dcache::coherence::operand::lemma_read_op8,
        crate::cpu::dcache::coherence::operand::lemma_write_op8,
    };

    reveal(State::exchange8);
}

pub broadcast proof fn lemma_exchange_w(s: State, d: Decoder, op: u8)
    ensures
        s.steps_to(#[trigger] s.exchange_w(d, op)),
{
    broadcast use {
        crate::cpu::dcache::coherence::operand::lemma_modrm,
        crate::cpu::dcache::coherence::operand::lemma_read_op_w,
        crate::cpu::dcache::coherence::operand::lemma_write_op_w,
    };

    reveal(State::exchange_w);
}

pub broadcast proof fn lemma_exchange_pair(s: State, d: Decoder)
    ensures
        s.steps_to(#[trigger] s.exchange_pair(d)),
{
    broadcast use {
        crate::cpu::dcache::coherence::operand::lemma_modrm,
        crate::cpu::dcache::coherence::memory::lemma_read32,
        crate::cpu::dcache::coherence::memory::lemma_write32,
    };

    reveal(State::exchange_pair);
}

pub broadcast proof fn lemma_load_far_pointer(s: State, d: Decoder, op: u8)
    ensures
        (#[trigger] s.load_far_pointer(d, op)) matches Some(t) ==> s.steps_to(t),
{
    broadcast use {
        crate::cpu::dcache::coherence::segment::lemma_load_seg,
        crate::cpu::dcache::coherence::operand::lemma_modrm,
        crate::cpu::dcache::coherence::group::lemma_read_far,
    };

    reveal(State::load_far_pointer);
}

pub broadcast proof fn lemma_extend(s: State, d: Decoder, op: u8)
    ensures
        s.steps_to(#[trigger] s.extend(d, op)),
{
    broadcast use {
        crate::cpu::dcache::coherence::operand::lemma_modrm,
        crate::cpu::dcache::coherence::operand::lemma_read_op16,
        crate::cpu::dcache::coherence::operand::lemma_read_op8,
    };

    reveal(State::extend);
}

pub broadcast proof fn lemma_double_shift(s: State, d: Decoder, op: u8)
    ensures
        s.steps_to(#[trigger] s.double_shift(d, op)),
{
    broadcast use {
        crate::cpu::dcache::coherence::operand::lemma_fetch8,
        crate::cpu::dcache::coherence::operand::lemma_modrm,
        crate::cpu::dcache::coherence::operand::lemma_read_op_w,
        crate::cpu::dcache::coherence::operand::lemma_write_op_w,
    };

    reveal(State::double_shift);
}

pub broadcast proof fn lemma_conditionals(s: State, d: Decoder, op: u8)
    ensures
        s.steps_to(#[trigger] s.conditionals(d, op)),
{
    broadcast use {
        crate::cpu::dcache::coherence::operand::lemma_fetch_rel,
        crate::cpu::dcache::coherence::operand::lemma_modrm,
        crate::cpu::dcache::coherence::operand::lemma_read_op_w,
        crate::cpu::dcache::coherence::operand::lemma_write_op8,
    };

    reveal(State::conditionals);
}

pub broadcast proof fn lemma_bit_family(s: State, d: Decoder, op: u8)
    ensures
        s.steps_to(#[trigger] s.bit_family(d, op)),
{
    broadcast use {
        crate::cpu::dcache::coherence::twobyte::lemma_bit_op,
        crate::cpu::dcache::coherence::operand::lemma_fetch8,
        crate::cpu::dcache::coherence::operand::lemma_modrm,
        crate::cpu::dcache::coherence::operand::lemma_read_op_w,
    };

    reveal(State::bit_family);
}

pub broadcast proof fn lemma_vector_ops(s: State, d: Decoder, op: u8, start_ip: u32)
    ensures
        s.steps_to(#[trigger] s.vector_ops(d, op, start_ip)),
{
    broadcast use {
        crate::cpu::dcache::coherence::mmx::lemma_step_mmx,
        crate::cpu::dcache::coherence::sse::lemma_step_sse,
    };

    reveal(State::vector_ops);
}

pub broadcast proof fn lemma_twobyte_total(s: State, d: Decoder, op: u8, start_ip: u32)
    ensures
        s.steps_to(#[trigger] s.twobyte_total(d, op, start_ip)),
{
    broadcast use {
        crate::cpu::dcache::coherence::twobyte::lemma_bit_family,
        crate::cpu::dcache::coherence::twobyte::lemma_conditionals,
        crate::cpu::dcache::coherence::twobyte::lemma_double_shift,
        crate::cpu::dcache::coherence::twobyte::lemma_exchange8,
        crate::cpu::dcache::coherence::twobyte::lemma_exchange_pair,
        crate::cpu::dcache::coherence::twobyte::lemma_exchange_w,
        crate::cpu::dcache::coherence::twobyte::lemma_extend,
        crate::cpu::dcache::coherence::operand::lemma_fetch8,
        crate::cpu::dcache::coherence::sse::lemma_grp_0fae,
        crate::cpu::dcache::coherence::operand::lemma_modrm,
        crate::cpu::dcache::coherence::operand::lemma_push_w,
        crate::cpu::dcache::coherence::twobyte::lemma_vector_ops,
    };

    reveal(State::twobyte_total);
}

pub broadcast proof fn lemma_step_0f(s: State, d: Decoder, start_ip: u32)
    ensures
        (#[trigger] s.step_0f(d, start_ip)) matches Some(t) ==> s.steps_to(t),
{
    broadcast use {
        crate::cpu::dcache::coherence::operand::lemma_fetch8,
        crate::cpu::dcache::coherence::twobyte::lemma_grp6,
        crate::cpu::dcache::coherence::twobyte::lemma_grp7,
        crate::cpu::dcache::coherence::interrupt::lemma_interrupt,
        crate::cpu::dcache::coherence::interrupt::lemma_interrupt_protected,
        crate::cpu::dcache::coherence::twobyte::lemma_load_far_pointer,
        crate::cpu::dcache::coherence::segment::lemma_load_seg,
        crate::cpu::dcache::coherence::operand::lemma_pop_w,
        crate::cpu::dcache::coherence::twobyte::lemma_twobyte_total,
    };

    reveal(State::step_0f);
}

} // verus!
