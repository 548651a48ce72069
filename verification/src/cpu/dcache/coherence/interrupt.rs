//! Interrupts and exceptions.

use vstd::prelude::*;
use crate::machine::State;

verus! {

pub broadcast proof fn lemma_counted(s: State, n: u8)
    ensures
        s.steps_to(#[trigger] s.counted(n)),
{
    reveal(State::counted);
}

pub broadcast proof fn lemma_first_taken(s: State, n: u8)
    ensures
        s.steps_to(#[trigger] s.first_taken(n)),
{
    reveal(State::first_taken);
}

pub broadcast proof fn lemma_first_faulted(s: State, n: u8)
    ensures
        s.steps_to(#[trigger] s.first_faulted(n)),
{
    reveal(State::first_faulted);
}

pub broadcast proof fn lemma_interrupt_real(s: State, n: u8)
    ensures
        s.steps_to(#[trigger] s.interrupt_real(n)),
{
    broadcast use {
        crate::cpu::dcache::coherence::operand::lemma_push16,
        crate::cpu::dcache::coherence::memory::lemma_read16,
    };

    reveal(State::interrupt_real);
}

pub broadcast proof fn lemma_deliver(s: State, n: u8, err: Option<u32>)
    ensures
        (#[trigger] s.deliver(n, err)) matches Some(t) ==> s.steps_to(t),
{
    broadcast use {
        crate::cpu::dcache::coherence::segment::lemma_load_seg_raw,
        crate::cpu::dcache::coherence::operand::lemma_push32,
        crate::cpu::dcache::coherence::memory::lemma_read32,
        crate::cpu::dcache::coherence::interrupt::lemma_to_inner_stack,
    };

    reveal(State::deliver);
}

pub broadcast proof fn lemma_to_inner_stack(s: State)
    ensures
        (#[trigger] s.to_inner_stack()) matches Some(t) ==> s.steps_to(t),
{
    broadcast use {
        crate::cpu::dcache::coherence::segment::lemma_load_seg_raw,
        crate::cpu::dcache::coherence::operand::lemma_push32,
        crate::cpu::dcache::coherence::memory::lemma_read16,
        crate::cpu::dcache::coherence::memory::lemma_read32,
    };

    reveal(State::to_inner_stack);
}

pub broadcast proof fn lemma_interrupt_protected(s: State, n: u8, err: Option<u32>)
    ensures
        (#[trigger] s.interrupt_protected(n, err)) matches Some(t) ==> s.steps_to(t),
{
    broadcast use {
        crate::cpu::dcache::coherence::interrupt::lemma_deliver,
    };

    reveal(State::interrupt_protected);
}

pub broadcast proof fn lemma_interrupt(s: State, n: u8)
    ensures
        (#[trigger] s.interrupt(n)) matches Some(t) ==> s.steps_to(t),
{
    broadcast use {
        crate::cpu::dcache::coherence::interrupt::lemma_counted,
        crate::cpu::dcache::coherence::interrupt::lemma_first_taken,
        crate::cpu::dcache::coherence::interrupt::lemma_interrupt_protected,
        crate::cpu::dcache::coherence::interrupt::lemma_interrupt_real,
    };

    reveal(State::interrupt);
}

pub broadcast proof fn lemma_software_int(s: State, n: u8, start_ip: u32)
    ensures
        (#[trigger] s.software_int(n, start_ip)) matches Some(t) ==> s.steps_to(t),
{
    broadcast use {
        crate::cpu::dcache::coherence::interrupt::lemma_gp_fault,
        crate::cpu::dcache::coherence::interrupt::lemma_interrupt,
        crate::cpu::dcache::coherence::memory::lemma_read32,
    };

    reveal(State::software_int);
}

pub broadcast proof fn lemma_gp_fault(s: State, start_ip: u32, err: u32)
    ensures
        (#[trigger] s.gp_fault(start_ip, err)) matches Some(t) ==> s.steps_to(t),
{
    broadcast use {
        crate::cpu::dcache::coherence::interrupt::lemma_counted,
        crate::cpu::dcache::coherence::interrupt::lemma_first_faulted,
        crate::cpu::dcache::coherence::interrupt::lemma_interrupt,
        crate::cpu::dcache::coherence::interrupt::lemma_interrupt_protected,
    };

    reveal(State::gp_fault);
}

pub broadcast proof fn lemma_page_fault(s: State, err: u32)
    ensures
        (#[trigger] s.page_fault(err)) matches Some(t) ==> s.steps_to(t),
{
    broadcast use {
        crate::cpu::dcache::coherence::interrupt::lemma_counted,
        crate::cpu::dcache::coherence::interrupt::lemma_first_faulted,
        crate::cpu::dcache::coherence::interrupt::lemma_interrupt_protected,
    };

    reveal(State::page_fault);
}

pub broadcast proof fn lemma_divide_error(s: State, start_ip: u32)
    ensures
        (#[trigger] s.divide_error(start_ip)) matches Some(t) ==> s.steps_to(t),
{
    broadcast use {
        crate::cpu::dcache::coherence::interrupt::lemma_first_faulted,
        crate::cpu::dcache::coherence::interrupt::lemma_interrupt,
    };

    reveal(State::divide_error);
}

pub broadcast proof fn lemma_iret(s: State)
    ensures
        (#[trigger] s.iret()) matches Some(t) ==> s.steps_to(t),
{
    broadcast use {
        crate::cpu::dcache::coherence::segment::lemma_load_seg_raw,
        crate::cpu::dcache::coherence::operand::lemma_pop16,
        crate::cpu::dcache::coherence::operand::lemma_pop32,
    };

    reveal(State::iret);
}

pub broadcast proof fn lemma_io_permitted(s: State, port: u16, bytes: u8)
    ensures
        s.steps_to((#[trigger] s.io_permitted(port, bytes)).0),
{
    broadcast use {
        crate::cpu::dcache::coherence::memory::lemma_read16,
    };

    reveal(State::io_permitted);
}

} // verus!
