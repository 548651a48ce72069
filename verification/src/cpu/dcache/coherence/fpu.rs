//! The FPU.

use vstd::prelude::*;
use crate::cpu::operand::Operand;
use crate::machine::State;

verus! {

pub broadcast proof fn lemma_read64(s: State, a: u32)
    ensures
        s.steps_to((#[trigger] s.read64(a)).0),
{
    broadcast use {
        crate::cpu::dcache::coherence::memory::lemma_read32,
    };

    reveal(State::read64);
}

pub broadcast proof fn lemma_write64(s: State, a: u32, v: u64)
    ensures
        s.steps_to(#[trigger] s.write64(a, v)),
{
    broadcast use {
        crate::cpu::dcache::coherence::memory::lemma_write32,
    };

    reveal(State::write64);
}

pub broadcast proof fn lemma_write_extended(s: State, a: u32, i: usize)
    ensures
        s.steps_to(#[trigger] s.write_extended(a, i)),
{
    broadcast use {
        crate::cpu::dcache::coherence::memory::lemma_write16,
        crate::cpu::dcache::coherence::fpu::lemma_write64,
    };

    reveal(State::write_extended);
}

pub broadcast proof fn lemma_read_extended(s: State, a: u32)
    ensures
        s.steps_to((#[trigger] s.read_extended(a)).0),
{
    broadcast use {
        crate::cpu::dcache::coherence::memory::lemma_read16,
        crate::cpu::dcache::coherence::fpu::lemma_read64,
    };

    reveal(State::read_extended);
}

pub broadcast proof fn lemma_store_env(s: State, a: u32)
    ensures
        s.steps_to(#[trigger] s.store_env(a)),
{
    broadcast use {
        crate::cpu::dcache::coherence::memory::lemma_write32,
    };

    reveal(State::store_env);
}

pub broadcast proof fn lemma_load_env(s: State, a: u32)
    ensures
        s.steps_to(#[trigger] s.load_env(a)),
{
    broadcast use {
        crate::cpu::dcache::coherence::memory::lemma_read32,
    };

    reveal(State::load_env);
}

pub broadcast proof fn lemma_save_from(s: State, a: u32, step: u32, k: nat)
    ensures
        s.steps_to(#[trigger] s.save_from(a, step, k)),
    decreases 8 - k,
{
    broadcast use {
        crate::cpu::dcache::coherence::fpu::lemma_write_extended,
    };

    reveal_with_fuel(State::save_from, 2);
    if k < 8 {
        lemma_save_from(
            s.write_extended(a.wrapping_add((step * k) as u32), k as usize),
            a,
            step,
            k + 1,
        );
    }
}

pub broadcast proof fn lemma_restored_from(s: State, a: u32, step: u32, k: nat)
    ensures
        s.steps_to(#[trigger] s.restored_from(a, step, k)),
    decreases 8 - k,
{
    broadcast use {
        crate::cpu::dcache::coherence::fpu::lemma_read_extended,
    };

    reveal_with_fuel(State::restored_from, 2);
    if k < 8 {
        let (t, m, se) = s.read_extended(a.wrapping_add((step * k) as u32));
        let f = t.cpu.fpu;
        lemma_restored_from(
            t.with_fpu(f.with_extended(f.phys(k as usize), m, se)),
            a,
            step,
            k + 1,
        );
    }
}

pub broadcast proof fn lemma_fpu_arith(s: State, slot: usize, b: u64)
    ensures
        s.steps_to(#[trigger] s.fpu_arith(slot, b)),
{
    reveal(State::fpu_arith);
}

pub broadcast proof fn lemma_fpu_arith_to(s: State, slot: usize, i: usize, pop: bool)
    ensures
        s.steps_to(#[trigger] s.fpu_arith_to(slot, i, pop)),
{
    reveal(State::fpu_arith_to);
}

pub broadcast proof fn lemma_fpu_source(s: State, op: u8, a: u32)
    ensures
        s.steps_to((#[trigger] s.fpu_source(op, a)).0),
{
    broadcast use {
        crate::cpu::dcache::coherence::memory::lemma_read16,
        crate::cpu::dcache::coherence::memory::lemma_read32,
        crate::cpu::dcache::coherence::fpu::lemma_read64,
    };

    reveal(State::fpu_source);
}

pub broadcast proof fn lemma_store_integer(s: State, a: u32, rounding: u8, bytes: u8, pop: bool)
    ensures
        s.steps_to(#[trigger] s.store_integer(a, rounding, bytes, pop)),
{
    broadcast use {
        crate::cpu::dcache::coherence::memory::lemma_write16,
        crate::cpu::dcache::coherence::memory::lemma_write32,
        crate::cpu::dcache::coherence::fpu::lemma_write64,
    };

    reveal(State::store_integer);
}

pub broadcast proof fn lemma_fpu_transfer(s: State, op: u8, reg: usize, a: u32)
    ensures
        s.steps_to(#[trigger] s.fpu_transfer(op, reg, a)),
{
    broadcast use {
        crate::cpu::dcache::coherence::memory::lemma_read16,
        crate::cpu::dcache::coherence::memory::lemma_read32,
        crate::cpu::dcache::coherence::fpu::lemma_read64,
        crate::cpu::dcache::coherence::fpu::lemma_read_extended,
        crate::cpu::dcache::coherence::fpu::lemma_store_integer,
        crate::cpu::dcache::coherence::memory::lemma_write32,
        crate::cpu::dcache::coherence::fpu::lemma_write64,
        crate::cpu::dcache::coherence::fpu::lemma_write_extended,
    };

    reveal(State::fpu_transfer);
}

pub broadcast proof fn lemma_fpu_mem(s: State, op: u8, reg: usize, a: u32)
    ensures
        s.steps_to(#[trigger] s.fpu_mem(op, reg, a)),
{
    broadcast use {
        crate::cpu::dcache::coherence::fpu::lemma_fpu_arith,
        crate::cpu::dcache::coherence::fpu::lemma_fpu_source,
        crate::cpu::dcache::coherence::fpu::lemma_fpu_transfer,
        crate::cpu::dcache::coherence::fpu::lemma_load_env,
        crate::cpu::dcache::coherence::memory::lemma_read16,
        crate::cpu::dcache::coherence::fpu::lemma_restored_from,
        crate::cpu::dcache::coherence::fpu::lemma_save_from,
        crate::cpu::dcache::coherence::fpu::lemma_store_env,
        crate::cpu::dcache::coherence::memory::lemma_write16,
    };

    reveal(State::fpu_mem);
}

pub broadcast proof fn lemma_fpu_unary(s: State, reg: usize, i: usize)
    ensures
        s.steps_to(#[trigger] s.fpu_unary(reg, i)),
{
    reveal(State::fpu_unary);
}

pub broadcast proof fn lemma_fpu_reg(s: State, op: u8, reg: usize, i: usize)
    ensures
        s.steps_to(#[trigger] s.fpu_reg(op, reg, i)),
{
    broadcast use {
        crate::cpu::dcache::coherence::fpu::lemma_fpu_arith,
        crate::cpu::dcache::coherence::fpu::lemma_fpu_arith_to,
        crate::cpu::dcache::coherence::fpu::lemma_fpu_unary,
    };

    reveal(State::fpu_reg);
}

pub broadcast proof fn lemma_fpu_exec(s: State, op: u8, reg: usize, rm: Operand)
    ensures
        s.steps_to(#[trigger] s.fpu_exec(op, reg, rm)),
{
    broadcast use {
        crate::cpu::dcache::coherence::fpu::lemma_fpu_mem,
        crate::cpu::dcache::coherence::fpu::lemma_fpu_reg,
    };

    reveal(State::fpu_exec);
}

pub broadcast proof fn lemma_float_completed(s: State, r: u128, second: u64)
    ensures
        s.steps_to(#[trigger] s.float_completed(r, second)),
{
    reveal(State::float_completed);
}

} // verus!
