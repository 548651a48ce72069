//! Segment registers and far transfers.

use vstd::prelude::*;
use crate::cpu::SegHidden;
use crate::machine::State;

verus! {

pub broadcast proof fn lemma_read_descriptor(s: State, sel: u16)
    ensures
        s.steps_to((#[trigger] s.read_descriptor(sel)).0),
{
    broadcast use {
        crate::cpu::dcache::coherence::memory::lemma_read32,
    };

    reveal(State::read_descriptor);
}

pub broadcast proof fn lemma_load_seg_raw(s: State, idx: usize, sel: u16)
    ensures
        (#[trigger] s.load_seg_raw(idx, sel)) matches Some(t) ==> s.steps_to(t),
{
    broadcast use {
        crate::cpu::dcache::coherence::segment::lemma_read_descriptor,
    };

    reveal(State::load_seg_raw);
}

pub broadcast proof fn lemma_seg_exc(s: State, vector: u8, sel: u16)
    ensures
        (#[trigger] s.seg_exc(vector, sel)) matches Some(t) ==> s.steps_to(t),
{
    broadcast use {
        crate::cpu::dcache::coherence::interrupt::lemma_counted,
        crate::cpu::dcache::coherence::interrupt::lemma_first_faulted,
        crate::cpu::dcache::coherence::interrupt::lemma_interrupt_protected,
    };

    reveal(State::seg_exc);
}

pub broadcast proof fn lemma_load_seg(s: State, idx: usize, sel: u16)
    ensures
        (#[trigger] s.load_seg(idx, sel)) matches Some(t) ==> s.steps_to(t.0),
{
    broadcast use {
        crate::cpu::dcache::coherence::segment::lemma_read_descriptor,
        crate::cpu::dcache::coherence::segment::lemma_seg_exc,
    };

    reveal(State::load_seg);
}

pub broadcast proof fn lemma_copy_parameters(s: State, from: u32, i: nat, wide: bool)
    ensures
        s.steps_to(#[trigger] s.copy_parameters(from, i, wide)),
    decreases i,
{
    broadcast use {
        crate::cpu::dcache::coherence::operand::lemma_push_w,
        crate::cpu::dcache::coherence::memory::lemma_read16,
        crate::cpu::dcache::coherence::memory::lemma_read32,
    };

    reveal_with_fuel(State::copy_parameters, 2);
    if i > 0 {
        let a = from.wrapping_add(((if wide { 4int } else { 2int }) * (i - 1)) as u32);
        let (t, v) = if wide {
            s.read32(a)
        } else {
            let (t, v) = s.read16(a);
            (t, v as u32)
        };
        lemma_copy_parameters(t.push_w(v, wide), from, (i - 1) as nat, wide);
    }
}

pub broadcast proof fn lemma_gate_call(s: State, lo: u32, hi: u32, gate32: bool)
    ensures
        (#[trigger] s.gate_call(lo, hi, gate32)) matches Some(t) ==> s.steps_to(t),
{
    broadcast use {
        crate::cpu::dcache::coherence::segment::lemma_copy_parameters,
        crate::cpu::dcache::coherence::segment::lemma_load_seg_raw,
        crate::cpu::dcache::coherence::operand::lemma_push_w,
        crate::cpu::dcache::coherence::memory::lemma_read16,
        crate::cpu::dcache::coherence::memory::lemma_read32,
        crate::cpu::dcache::coherence::segment::lemma_read_descriptor,
    };

    reveal(State::gate_call);
}

pub broadcast proof fn lemma_far_call(s: State, sel: u16, off: u32, wide: bool)
    ensures
        (#[trigger] s.far_call(sel, off, wide)) matches Some(t) ==> s.steps_to(t),
{
    broadcast use {
        crate::cpu::dcache::coherence::segment::lemma_gate_call,
        crate::cpu::dcache::coherence::segment::lemma_load_seg,
        crate::cpu::dcache::coherence::operand::lemma_push_w,
        crate::cpu::dcache::coherence::segment::lemma_read_descriptor,
    };

    reveal(State::far_call);
}

pub broadcast proof fn lemma_ss_load_fault(s: State, sel: u16, cpl: u8)
    ensures
        s.steps_to((#[trigger] s.ss_load_fault(sel, cpl)).0),
{
    broadcast use {
        crate::cpu::dcache::coherence::segment::lemma_read_descriptor,
    };

    reveal(State::ss_load_fault);
}

pub broadcast proof fn lemma_far_ret_enter(s: State, ip: u32, sel: u16, h: SegHidden, wide: bool, extra: u32)
    ensures
        (#[trigger] s.far_ret_enter(ip, sel, h, wide, extra)) matches Some(t) ==> s.steps_to(t),
{
    broadcast use {
        crate::cpu::dcache::coherence::segment::lemma_load_seg_raw,
        crate::cpu::dcache::coherence::operand::lemma_pop_w,
        crate::cpu::dcache::coherence::segment::lemma_seg_exc,
        crate::cpu::dcache::coherence::operand::lemma_sp_up,
        crate::cpu::dcache::coherence::segment::lemma_ss_load_fault,
    };

    reveal(State::far_ret_enter);
}

pub broadcast proof fn lemma_far_ret_outer(s: State, ip: u32, sel: u16, wide: bool, extra: u32)
    ensures
        (#[trigger] s.far_ret_outer(ip, sel, wide, extra)) matches Some(t) ==> s.steps_to(t),
{
    broadcast use {
        crate::cpu::dcache::coherence::segment::lemma_far_ret_enter,
        crate::cpu::dcache::coherence::segment::lemma_read_descriptor,
        crate::cpu::dcache::coherence::segment::lemma_seg_exc,
    };

    reveal(State::far_ret_outer);
}

pub broadcast proof fn lemma_far_ret(s: State, wide: bool, extra: u32)
    ensures
        (#[trigger] s.far_ret(wide, extra)) matches Some(t) ==> s.steps_to(t),
{
    broadcast use {
        crate::cpu::dcache::coherence::segment::lemma_far_ret_outer,
        crate::cpu::dcache::coherence::segment::lemma_load_seg,
        crate::cpu::dcache::coherence::operand::lemma_pop_w,
        crate::cpu::dcache::coherence::operand::lemma_sp_up,
    };

    reveal(State::far_ret);
}

} // verus!
