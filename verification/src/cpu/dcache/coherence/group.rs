//! The opcode groups.

use vstd::prelude::*;
use crate::cpu::operand::Decoder;
use crate::machine::State;

verus! {

pub broadcast proof fn lemma_grp2(s: State, d: Decoder, op: u8)
    ensures
        s.steps_to(#[trigger] s.grp2(d, op)),
{
    broadcast use {
        crate::cpu::dcache::coherence::operand::lemma_fetch8,
        crate::cpu::dcache::coherence::operand::lemma_modrm,
        crate::cpu::dcache::coherence::operand::lemma_read_op8,
        crate::cpu::dcache::coherence::operand::lemma_read_op_w,
        crate::cpu::dcache::coherence::operand::lemma_write_op8,
        crate::cpu::dcache::coherence::operand::lemma_write_op_w,
    };

    reveal(State::grp2);
}

pub broadcast proof fn lemma_grp3_byte(s: State, d: Decoder, start_ip: u32)
    ensures
        (#[trigger] s.grp3_byte(d, start_ip)) matches Some(t) ==> s.steps_to(t),
{
    broadcast use {
        crate::cpu::dcache::coherence::interrupt::lemma_divide_error,
        crate::cpu::dcache::coherence::operand::lemma_fetch8,
        crate::cpu::dcache::coherence::operand::lemma_modrm,
        crate::cpu::dcache::coherence::operand::lemma_read_op8,
        crate::cpu::dcache::coherence::operand::lemma_write_op8,
    };

    reveal(State::grp3_byte);
}

pub broadcast proof fn lemma_grp3_word(s: State, d: Decoder, start_ip: u32)
    ensures
        (#[trigger] s.grp3_word(d, start_ip)) matches Some(t) ==> s.steps_to(t),
{
    broadcast use {
        crate::cpu::dcache::coherence::interrupt::lemma_divide_error,
        crate::cpu::dcache::coherence::operand::lemma_fetch_w,
        crate::cpu::dcache::coherence::operand::lemma_modrm,
        crate::cpu::dcache::coherence::operand::lemma_read_op_w,
        crate::cpu::dcache::coherence::operand::lemma_write_op_w,
    };

    reveal(State::grp3_word);
}

pub broadcast proof fn lemma_grp4(s: State, d: Decoder)
    ensures
        s.steps_to(#[trigger] s.grp4(d)),
{
    broadcast use {
        crate::cpu::dcache::coherence::operand::lemma_modrm,
        crate::cpu::dcache::coherence::operand::lemma_read_op8,
        crate::cpu::dcache::coherence::operand::lemma_write_op8,
    };

    reveal(State::grp4);
}

pub broadcast proof fn lemma_read_far(s: State, addr: u32, wide: bool)
    ensures
        s.steps_to((#[trigger] s.read_far(addr, wide)).0),
{
    broadcast use {
        crate::cpu::dcache::coherence::memory::lemma_read16,
        crate::cpu::dcache::coherence::memory::lemma_read32,
    };

    reveal(State::read_far);
}

pub broadcast proof fn lemma_grp5(s: State, d: Decoder)
    ensures
        (#[trigger] s.grp5(d)) matches Some(t) ==> s.steps_to(t),
{
    broadcast use {
        crate::cpu::dcache::coherence::segment::lemma_far_call,
        crate::cpu::dcache::coherence::group::lemma_far_jump,
        crate::cpu::dcache::coherence::operand::lemma_modrm,
        crate::cpu::dcache::coherence::operand::lemma_push_w,
        crate::cpu::dcache::coherence::group::lemma_read_far,
        crate::cpu::dcache::coherence::operand::lemma_read_op_w,
        crate::cpu::dcache::coherence::operand::lemma_write_op_w,
    };

    reveal(State::grp5);
}

pub broadcast proof fn lemma_far_jump(s: State, sel: u16, off: u32)
    ensures
        (#[trigger] s.far_jump(sel, off)) matches Some(t) ==> s.steps_to(t),
{
    broadcast use {
        crate::cpu::dcache::coherence::segment::lemma_load_seg,
    };

    reveal(State::far_jump);
}

} // verus!
