//! SSE.

use vstd::prelude::*;
use crate::cpu::float::Arith;
use crate::cpu::operand::{Decoder, Operand};
use crate::cpu::sse::Pfx;
use crate::cpu::vector::LaneOp;
use crate::machine::State;

verus! {

pub broadcast proof fn lemma_read128(s: State, a: u32)
    ensures
        s.steps_to((#[trigger] s.read128(a)).0),
{
    broadcast use {
        crate::cpu::dcache::coherence::fpu::lemma_read64,
    };

    reveal(State::read128);
}

pub broadcast proof fn lemma_write128(s: State, a: u32, v: u128)
    ensures
        s.steps_to(#[trigger] s.write128(a, v)),
{
    broadcast use {
        crate::cpu::dcache::coherence::fpu::lemma_write64,
    };

    reveal(State::write128);
}

pub broadcast proof fn lemma_rm128(s: State, rm: Operand)
    ensures
        s.steps_to((#[trigger] s.rm128(rm)).0),
{
    broadcast use {
        crate::cpu::dcache::coherence::sse::lemma_read128,
    };

    reveal(State::rm128);
}

pub broadcast proof fn lemma_rm64(s: State, rm: Operand)
    ensures
        s.steps_to((#[trigger] s.rm64(rm)).0),
{
    broadcast use {
        crate::cpu::dcache::coherence::fpu::lemma_read64,
    };

    reveal(State::rm64);
}

pub broadcast proof fn lemma_rm32(s: State, rm: Operand)
    ensures
        s.steps_to((#[trigger] s.rm32(rm)).0),
{
    broadcast use {
        crate::cpu::dcache::coherence::memory::lemma_read32,
    };

    reveal(State::rm32);
}

pub broadcast proof fn lemma_store128(s: State, rm: Operand, v: u128)
    ensures
        s.steps_to(#[trigger] s.store128(rm, v)),
{
    broadcast use {
        crate::cpu::dcache::coherence::sse::lemma_write128,
    };

    reveal(State::store128);
}

pub broadcast proof fn lemma_sse_mov(s: State, d: Decoder, store: bool)
    ensures
        s.steps_to(#[trigger] s.sse_mov(d, store)),
{
    broadcast use {
        crate::cpu::dcache::coherence::operand::lemma_modrm,
        crate::cpu::dcache::coherence::memory::lemma_read32,
        crate::cpu::dcache::coherence::fpu::lemma_read64,
        crate::cpu::dcache::coherence::sse::lemma_rm128,
        crate::cpu::dcache::coherence::sse::lemma_store128,
        crate::cpu::dcache::coherence::memory::lemma_write32,
        crate::cpu::dcache::coherence::fpu::lemma_write64,
    };

    reveal(State::sse_mov);
}

pub broadcast proof fn lemma_sse_half(s: State, d: Decoder, op: u8)
    ensures
        s.steps_to(#[trigger] s.sse_half(d, op)),
{
    broadcast use {
        crate::cpu::dcache::coherence::operand::lemma_modrm,
        crate::cpu::dcache::coherence::sse::lemma_rm64,
        crate::cpu::dcache::coherence::fpu::lemma_write64,
    };

    reveal(State::sse_half);
}

pub broadcast proof fn lemma_sse_move(s: State, d: Decoder, op: u8)
    ensures
        s.steps_to((#[trigger] s.sse_move(d, op)).0),
{
    broadcast use {
        crate::cpu::dcache::coherence::operand::lemma_modrm,
        crate::cpu::dcache::coherence::operand::lemma_direct32,
        crate::cpu::dcache::coherence::sse::lemma_rm128,
        crate::cpu::dcache::coherence::sse::lemma_rm64,
        crate::cpu::dcache::coherence::sse::lemma_store128,
        crate::cpu::dcache::coherence::sse::lemma_write128,
        crate::cpu::dcache::coherence::fpu::lemma_write64,
        crate::cpu::dcache::coherence::operand::lemma_with_direct32,
    };

    reveal(State::sse_move);
}

pub broadcast proof fn lemma_sse_vector(s: State, d: Decoder, op: LaneOp, w: u32)
    ensures
        s.steps_to(#[trigger] s.sse_vector(d, op, w)),
{
    broadcast use {
        crate::cpu::dcache::coherence::operand::lemma_modrm,
        crate::cpu::dcache::coherence::sse::lemma_rm128,
    };

    reveal(State::sse_vector);
}

pub broadcast proof fn lemma_sse_signs(s: State, d: Decoder, w: u32)
    ensures
        s.steps_to((#[trigger] s.sse_signs(d, w)).0),
{
    broadcast use {
        crate::cpu::dcache::coherence::operand::lemma_modrm,
    };

    reveal(State::sse_signs);
}

pub broadcast proof fn lemma_sse_shuffle(s: State, d: Decoder, op: u8)
    ensures
        s.steps_to((#[trigger] s.sse_shuffle(d, op)).0),
{
    broadcast use {
        crate::cpu::dcache::coherence::operand::lemma_fetch8,
        crate::cpu::dcache::coherence::operand::lemma_modrm,
        crate::cpu::dcache::coherence::sse::lemma_rm128,
    };

    reveal(State::sse_shuffle);
}

pub broadcast proof fn lemma_sse_shift(s: State, d: Decoder, op: u8)
    ensures
        s.steps_to((#[trigger] s.sse_shift(d, op)).0),
{
    broadcast use {
        crate::cpu::dcache::coherence::operand::lemma_fetch8,
        crate::cpu::dcache::coherence::operand::lemma_modrm,
    };

    reveal(State::sse_shift);
}

pub broadcast proof fn lemma_rm_format(s: State, rm: Operand, p: Pfx)
    ensures
        s.steps_to((#[trigger] s.rm_format(rm, p)).0),
{
    broadcast use {
        crate::cpu::dcache::coherence::sse::lemma_rm128,
        crate::cpu::dcache::coherence::sse::lemma_rm32,
        crate::cpu::dcache::coherence::sse::lemma_rm64,
    };

    reveal(State::rm_format);
}

pub broadcast proof fn lemma_sse_float(s: State, d: Decoder, op: Arith)
    ensures
        s.steps_to(#[trigger] s.sse_float(d, op)),
{
    broadcast use {
        crate::cpu::dcache::coherence::operand::lemma_modrm,
        crate::cpu::dcache::coherence::sse::lemma_rm_format,
    };

    reveal(State::sse_float);
}

pub broadcast proof fn lemma_sse_from_int(s: State, d: Decoder)
    ensures
        s.steps_to((#[trigger] s.sse_from_int(d)).0),
{
    broadcast use {
        crate::cpu::dcache::coherence::operand::lemma_modrm,
        crate::cpu::dcache::coherence::operand::lemma_direct32,
    };

    reveal(State::sse_from_int);
}

pub broadcast proof fn lemma_sse_to_int(s: State, d: Decoder)
    ensures
        s.steps_to((#[trigger] s.sse_to_int(d)).0),
{
    broadcast use {
        crate::cpu::dcache::coherence::operand::lemma_modrm,
        crate::cpu::dcache::coherence::sse::lemma_rm32,
        crate::cpu::dcache::coherence::sse::lemma_rm64,
    };

    reveal(State::sse_to_int);
}

pub broadcast proof fn lemma_sse_convert(s: State, d: Decoder)
    ensures
        s.steps_to(#[trigger] s.sse_convert(d)),
{
    broadcast use {
        crate::cpu::dcache::coherence::operand::lemma_modrm,
        crate::cpu::dcache::coherence::sse::lemma_rm128,
        crate::cpu::dcache::coherence::sse::lemma_rm32,
        crate::cpu::dcache::coherence::sse::lemma_rm64,
    };

    reveal(State::sse_convert);
}

pub broadcast proof fn lemma_sse_convert_ints(s: State, d: Decoder)
    ensures
        s.steps_to((#[trigger] s.sse_convert_ints(d)).0),
{
    broadcast use {
        crate::cpu::dcache::coherence::operand::lemma_modrm,
        crate::cpu::dcache::coherence::sse::lemma_rm128,
    };

    reveal(State::sse_convert_ints);
}

pub broadcast proof fn lemma_sse_compare(s: State, d: Decoder)
    ensures
        s.steps_to(#[trigger] s.sse_compare(d)),
{
    broadcast use {
        crate::cpu::dcache::coherence::operand::lemma_modrm,
        crate::cpu::dcache::coherence::sse::lemma_rm32,
        crate::cpu::dcache::coherence::sse::lemma_rm64,
    };

    reveal(State::sse_compare);
}

pub broadcast proof fn lemma_sse_test(s: State, d: Decoder)
    ensures
        s.steps_to(#[trigger] s.sse_test(d)),
{
    broadcast use {
        crate::cpu::dcache::coherence::operand::lemma_fetch8,
        crate::cpu::dcache::coherence::operand::lemma_modrm,
        crate::cpu::dcache::coherence::sse::lemma_rm128,
        crate::cpu::dcache::coherence::sse::lemma_rm32,
        crate::cpu::dcache::coherence::sse::lemma_rm64,
    };

    reveal(State::sse_test);
}

pub broadcast proof fn lemma_sse_numbers(s: State, d: Decoder, op: u8)
    ensures
        s.steps_to((#[trigger] s.sse_numbers(d, op)).0),
{
    broadcast use {
        crate::cpu::dcache::coherence::sse::lemma_sse_compare,
        crate::cpu::dcache::coherence::sse::lemma_sse_convert,
        crate::cpu::dcache::coherence::sse::lemma_sse_convert_ints,
        crate::cpu::dcache::coherence::sse::lemma_sse_float,
        crate::cpu::dcache::coherence::sse::lemma_sse_from_int,
        crate::cpu::dcache::coherence::sse::lemma_sse_move,
        crate::cpu::dcache::coherence::sse::lemma_sse_test,
        crate::cpu::dcache::coherence::sse::lemma_sse_to_int,
    };

    reveal(State::sse_numbers);
}

pub broadcast proof fn lemma_step_sse(s: State, d: Decoder, op: u8)
    ensures
        s.steps_to((#[trigger] s.step_sse(d, op)).0),
{
    broadcast use {
        crate::cpu::dcache::coherence::sse::lemma_sse_half,
        crate::cpu::dcache::coherence::sse::lemma_sse_mov,
        crate::cpu::dcache::coherence::sse::lemma_sse_numbers,
        crate::cpu::dcache::coherence::sse::lemma_sse_shift,
        crate::cpu::dcache::coherence::sse::lemma_sse_shuffle,
        crate::cpu::dcache::coherence::sse::lemma_sse_signs,
        crate::cpu::dcache::coherence::sse::lemma_sse_vector,
    };

    reveal(State::step_sse);
}

pub broadcast proof fn lemma_zeroed_from(s: State, a: u32, k: nat)
    ensures
        s.steps_to(#[trigger] s.zeroed_from(a, k)),
    decreases 512 - k,
{
    broadcast use {
        crate::cpu::dcache::coherence::memory::lemma_write8,
    };

    reveal_with_fuel(State::zeroed_from, 2);
    if k < 512 {
        lemma_zeroed_from(s.write8(a.wrapping_add(k as u32), 0), a, k + 1);
    }
}

pub broadcast proof fn lemma_xmm_saved_from(s: State, a: u32, k: nat)
    ensures
        s.steps_to(#[trigger] s.xmm_saved_from(a, k)),
    decreases 8 - k,
{
    broadcast use {
        crate::cpu::dcache::coherence::sse::lemma_write128,
    };

    reveal_with_fuel(State::xmm_saved_from, 2);
    if k < 8 {
        lemma_xmm_saved_from(
            s.write128(a.wrapping_add((160 + 16 * k) as u32), s.cpu.xmm[k as int]),
            a,
            k + 1,
        );
    }
}

pub broadcast proof fn lemma_xmm_loaded_from(s: State, a: u32, k: nat)
    ensures
        s.steps_to(#[trigger] s.xmm_loaded_from(a, k)),
    decreases 8 - k,
{
    broadcast use {
        crate::cpu::dcache::coherence::sse::lemma_read128,
    };

    reveal_with_fuel(State::xmm_loaded_from, 2);
    if k < 8 {
        let (t, v) = s.read128(a.wrapping_add((160 + 16 * k) as u32));
        lemma_xmm_loaded_from(t.with_xmm(k as usize, v), a, k + 1);
    }
}

pub broadcast proof fn lemma_fxsave(s: State, a: u32)
    ensures
        s.steps_to(#[trigger] s.fxsave(a)),
{
    broadcast use {
        crate::cpu::dcache::coherence::memory::lemma_write16,
        crate::cpu::dcache::coherence::memory::lemma_write32,
        crate::cpu::dcache::coherence::memory::lemma_write8,
        crate::cpu::dcache::coherence::fpu::lemma_save_from,
        crate::cpu::dcache::coherence::sse::lemma_xmm_saved_from,
        crate::cpu::dcache::coherence::sse::lemma_zeroed_from,
    };

    reveal(State::fxsave);
}

pub broadcast proof fn lemma_fxrstor(s: State, a: u32)
    ensures
        s.steps_to(#[trigger] s.fxrstor(a)),
{
    broadcast use {
        crate::cpu::dcache::coherence::memory::lemma_read16,
        crate::cpu::dcache::coherence::memory::lemma_read32,
        crate::cpu::dcache::coherence::fpu::lemma_restored_from,
        crate::cpu::dcache::coherence::sse::lemma_xmm_loaded_from,
    };

    reveal(State::fxrstor);
}

pub broadcast proof fn lemma_grp_0fae(s: State, d: Decoder)
    ensures
        s.steps_to((#[trigger] s.grp_0fae(d)).0),
{
    broadcast use {
        crate::cpu::dcache::coherence::sse::lemma_fxrstor,
        crate::cpu::dcache::coherence::sse::lemma_fxsave,
        crate::cpu::dcache::coherence::operand::lemma_modrm,
        crate::cpu::dcache::coherence::memory::lemma_read32,
        crate::cpu::dcache::coherence::memory::lemma_write32,
    };

    reveal(State::grp_0fae);
}

} // verus!
