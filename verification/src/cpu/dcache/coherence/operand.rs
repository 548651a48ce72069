//! Fetching, operands and the stack.

use vstd::prelude::*;
use crate::cpu::operand::{Decoder, Operand};
use crate::machine::State;

verus! {

pub broadcast proof fn lemma_fetch8(s: State)
    ensures
        s.steps_to((#[trigger] s.fetch8()).0),
{
    broadcast use {
        crate::cpu::dcache::coherence::memory::lemma_read8,
    };

    reveal(State::fetch8);
}

pub broadcast proof fn lemma_fetch16(s: State)
    ensures
        s.steps_to((#[trigger] s.fetch16()).0),
{
    broadcast use {
        crate::cpu::dcache::coherence::operand::lemma_fetch8,
    };

    reveal(State::fetch16);
}

pub broadcast proof fn lemma_fetch32(s: State)
    ensures
        s.steps_to((#[trigger] s.fetch32()).0),
{
    broadcast use {
        crate::cpu::dcache::coherence::operand::lemma_fetch16,
    };

    reveal(State::fetch32);
}

pub broadcast proof fn lemma_fetch_w(s: State, wide: bool)
    ensures
        s.steps_to((#[trigger] s.fetch_w(wide)).0),
{
    broadcast use {
        crate::cpu::dcache::coherence::operand::lemma_fetch16,
        crate::cpu::dcache::coherence::operand::lemma_fetch32,
    };

    reveal(State::fetch_w);
}

pub broadcast proof fn lemma_fetch_rel(s: State, wide: bool)
    ensures
        s.steps_to((#[trigger] s.fetch_rel(wide)).0),
{
    broadcast use {
        crate::cpu::dcache::coherence::operand::lemma_fetch16,
        crate::cpu::dcache::coherence::operand::lemma_fetch32,
    };

    reveal(State::fetch_rel);
}

pub broadcast proof fn lemma_modrm(s: State, d: Decoder)
    ensures
        s.steps_to((#[trigger] s.modrm(d)).0),
{
    broadcast use {
        crate::cpu::dcache::coherence::operand::lemma_fetch16,
        crate::cpu::dcache::coherence::operand::lemma_fetch8,
        crate::cpu::dcache::coherence::operand::lemma_modrm32,
    };

    reveal(State::modrm);
}

pub broadcast proof fn lemma_modrm_base(s: State, md: u8, rm: usize)
    ensures
        s.steps_to((#[trigger] s.modrm_base(md, rm)).0),
{
    broadcast use {
        crate::cpu::dcache::coherence::operand::lemma_fetch32,
        crate::cpu::dcache::coherence::operand::lemma_fetch8,
    };

    reveal(State::modrm_base);
}

pub broadcast proof fn lemma_modrm_disp(s: State, md: u8)
    ensures
        s.steps_to((#[trigger] s.modrm_disp(md)).0),
{
    broadcast use {
        crate::cpu::dcache::coherence::operand::lemma_fetch32,
        crate::cpu::dcache::coherence::operand::lemma_fetch8,
    };

    reveal(State::modrm_disp);
}

pub broadcast proof fn lemma_modrm32(s: State, d: Decoder, md: u8, rm: usize)
    ensures
        s.steps_to((#[trigger] s.modrm32(d, md, rm)).0),
{
    broadcast use {
        crate::cpu::dcache::coherence::operand::lemma_modrm_base,
        crate::cpu::dcache::coherence::operand::lemma_modrm_disp,
    };

    reveal(State::modrm32);
}

pub broadcast proof fn lemma_read_op8(s: State, op: Operand)
    ensures
        s.steps_to((#[trigger] s.read_op8(op)).0),
{
    broadcast use {
        crate::cpu::dcache::coherence::memory::lemma_read8,
    };

    reveal(State::read_op8);
}

pub broadcast proof fn lemma_write_op8(s: State, op: Operand, v: u8)
    ensures
        s.steps_to(#[trigger] s.write_op8(op, v)),
{
    broadcast use {
        crate::cpu::dcache::coherence::memory::lemma_write8,
    };

    reveal(State::write_op8);
}

pub broadcast proof fn lemma_read_op16(s: State, op: Operand)
    ensures
        s.steps_to((#[trigger] s.read_op16(op)).0),
{
    broadcast use {
        crate::cpu::dcache::coherence::memory::lemma_read16,
    };

    reveal(State::read_op16);
}

pub broadcast proof fn lemma_write_op16(s: State, op: Operand, v: u16)
    ensures
        s.steps_to(#[trigger] s.write_op16(op, v)),
{
    broadcast use {
        crate::cpu::dcache::coherence::memory::lemma_write16,
    };

    reveal(State::write_op16);
}

pub broadcast proof fn lemma_read_op32(s: State, op: Operand)
    ensures
        s.steps_to((#[trigger] s.read_op32(op)).0),
{
    broadcast use {
        crate::cpu::dcache::coherence::memory::lemma_read32,
    };

    reveal(State::read_op32);
}

pub broadcast proof fn lemma_write_op32(s: State, op: Operand, v: u32)
    ensures
        s.steps_to(#[trigger] s.write_op32(op, v)),
{
    broadcast use {
        crate::cpu::dcache::coherence::memory::lemma_write32,
    };

    reveal(State::write_op32);
}

pub broadcast proof fn lemma_read_op_w(s: State, op: Operand, wide: bool)
    ensures
        s.steps_to((#[trigger] s.read_op_w(op, wide)).0),
{
    broadcast use {
        crate::cpu::dcache::coherence::operand::lemma_read_op16,
        crate::cpu::dcache::coherence::operand::lemma_read_op32,
    };

    reveal(State::read_op_w);
}

pub broadcast proof fn lemma_write_op_w(s: State, op: Operand, v: u32, wide: bool)
    ensures
        s.steps_to(#[trigger] s.write_op_w(op, v, wide)),
{
    broadcast use {
        crate::cpu::dcache::coherence::operand::lemma_write_op16,
        crate::cpu::dcache::coherence::operand::lemma_write_op32,
    };

    reveal(State::write_op_w);
}

pub broadcast proof fn lemma_direct16(s: State, op: Operand)
    ensures
        s.steps_to((#[trigger] s.direct16(op)).0),
{
    broadcast use {
        crate::cpu::dcache::coherence::memory::lemma_read16,
    };

    reveal(State::direct16);
}

pub broadcast proof fn lemma_direct32(s: State, op: Operand)
    ensures
        s.steps_to((#[trigger] s.direct32(op)).0),
{
    broadcast use {
        crate::cpu::dcache::coherence::memory::lemma_read32,
    };

    reveal(State::direct32);
}

pub broadcast proof fn lemma_with_direct32(s: State, op: Operand, v: u32)
    ensures
        s.steps_to(#[trigger] s.with_direct32(op, v)),
{
    broadcast use {
        crate::cpu::dcache::coherence::memory::lemma_write32,
    };

    reveal(State::with_direct32);
}

pub broadcast proof fn lemma_sp_down(s: State, n: u32)
    ensures
        s.steps_to(#[trigger] s.sp_down(n)),
{
    reveal(State::sp_down);
}

pub broadcast proof fn lemma_sp_up(s: State, n: u32)
    ensures
        s.steps_to(#[trigger] s.sp_up(n)),
{
    reveal(State::sp_up);
}

pub broadcast proof fn lemma_push16(s: State, v: u16)
    ensures
        s.steps_to(#[trigger] s.push16(v)),
{
    broadcast use {
        crate::cpu::dcache::coherence::operand::lemma_sp_down,
        crate::cpu::dcache::coherence::memory::lemma_write16,
    };

    reveal(State::push16);
}

pub broadcast proof fn lemma_push32(s: State, v: u32)
    ensures
        s.steps_to(#[trigger] s.push32(v)),
{
    broadcast use {
        crate::cpu::dcache::coherence::operand::lemma_sp_down,
        crate::cpu::dcache::coherence::memory::lemma_write32,
    };

    reveal(State::push32);
}

pub broadcast proof fn lemma_push_w(s: State, v: u32, wide: bool)
    ensures
        s.steps_to(#[trigger] s.push_w(v, wide)),
{
    broadcast use {
        crate::cpu::dcache::coherence::operand::lemma_push16,
        crate::cpu::dcache::coherence::operand::lemma_push32,
    };

    reveal(State::push_w);
}

pub broadcast proof fn lemma_pop16(s: State)
    ensures
        s.steps_to((#[trigger] s.pop16()).0),
{
    broadcast use {
        crate::cpu::dcache::coherence::memory::lemma_read16,
        crate::cpu::dcache::coherence::operand::lemma_sp_up,
    };

    reveal(State::pop16);
}

pub broadcast proof fn lemma_pop32(s: State)
    ensures
        s.steps_to((#[trigger] s.pop32()).0),
{
    broadcast use {
        crate::cpu::dcache::coherence::memory::lemma_read32,
        crate::cpu::dcache::coherence::operand::lemma_sp_up,
    };

    reveal(State::pop32);
}

pub broadcast proof fn lemma_pop_w(s: State, wide: bool)
    ensures
        s.steps_to((#[trigger] s.pop_w(wide)).0),
{
    broadcast use {
        crate::cpu::dcache::coherence::operand::lemma_pop16,
        crate::cpu::dcache::coherence::operand::lemma_pop32,
    };

    reveal(State::pop_w);
}

} // verus!
