//! MMX.

use vstd::prelude::*;
use crate::cpu::operand::{Decoder, Operand};
use crate::cpu::vector::LaneOp;
use crate::machine::State;

verus! {

pub broadcast proof fn lemma_read_mm(s: State, rm: Operand)
    ensures
        s.steps_to((#[trigger] s.read_mm(rm)).0),
{
    broadcast use {
        crate::cpu::dcache::coherence::fpu::lemma_read64,
    };

    reveal(State::read_mm);
}

pub broadcast proof fn lemma_masked_store(s: State, data: u64, mask: u64, seg: usize, off: u32, k: nat)
    ensures
        s.steps_to(#[trigger] s.masked_store(data, mask, seg, off, k)),
    decreases 8 - k,
{
    broadcast use {
        crate::cpu::dcache::coherence::memory::lemma_write8,
    };

    reveal_with_fuel(State::masked_store, 2);
    if k < 8 {
        let t = if crate::cpu::vector::lane(mask as u128, k as u32, 8) >= 0x80 {
            s.write8(
                s.cpu.lin(seg, off.wrapping_add(k as u32)),
                crate::cpu::vector::lane(data as u128, k as u32, 8) as u8,
            )
        } else {
            s
        };
        lemma_masked_store(t, data, mask, seg, off, k + 1);
    }
}

pub broadcast proof fn lemma_mmx_lanes(s: State, d: Decoder, op: LaneOp, w: u32)
    ensures
        s.steps_to((#[trigger] s.mmx_lanes(d, op, w)).0),
{
    broadcast use {
        crate::cpu::dcache::coherence::operand::lemma_modrm,
        crate::cpu::dcache::coherence::mmx::lemma_read_mm,
    };

    reveal(State::mmx_lanes);
}

pub broadcast proof fn lemma_mmx_move(s: State, d: Decoder, op: u8)
    ensures
        s.steps_to((#[trigger] s.mmx_move(d, op)).0),
{
    broadcast use {
        crate::cpu::dcache::coherence::operand::lemma_modrm,
        crate::cpu::dcache::coherence::mmx::lemma_read_mm,
        crate::cpu::dcache::coherence::operand::lemma_direct32,
        crate::cpu::dcache::coherence::fpu::lemma_write64,
        crate::cpu::dcache::coherence::operand::lemma_with_direct32,
    };

    reveal(State::mmx_move);
}

pub broadcast proof fn lemma_mmx_immediate(s: State, d: Decoder, op: u8)
    ensures
        s.steps_to((#[trigger] s.mmx_immediate(d, op)).0),
{
    broadcast use {
        crate::cpu::dcache::coherence::operand::lemma_fetch8,
        crate::cpu::dcache::coherence::operand::lemma_modrm,
        crate::cpu::dcache::coherence::mmx::lemma_read_mm,
        crate::cpu::dcache::coherence::operand::lemma_direct16,
    };

    reveal(State::mmx_immediate);
}

pub broadcast proof fn lemma_mmx_mask(s: State, d: Decoder, op: u8)
    ensures
        s.steps_to((#[trigger] s.mmx_mask(d, op)).0),
{
    broadcast use {
        crate::cpu::dcache::coherence::mmx::lemma_masked_store,
        crate::cpu::dcache::coherence::operand::lemma_modrm,
    };

    reveal(State::mmx_mask);
}

pub broadcast proof fn lemma_step_mmx(s: State, d: Decoder, op: u8)
    ensures
        s.steps_to((#[trigger] s.step_mmx(d, op)).0),
{
    broadcast use {
        crate::cpu::dcache::coherence::mmx::lemma_mmx_immediate,
        crate::cpu::dcache::coherence::mmx::lemma_mmx_lanes,
        crate::cpu::dcache::coherence::mmx::lemma_mmx_mask,
        crate::cpu::dcache::coherence::mmx::lemma_mmx_move,
    };

    reveal(State::step_mmx);
}

} // verus!
