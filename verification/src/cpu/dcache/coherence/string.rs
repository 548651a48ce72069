//! String instructions.

use vstd::prelude::*;
use crate::cpu::operand::Decoder;
use crate::machine::State;

verus! {

pub broadcast proof fn lemma_read_element(s: State, lin: u32, size: u32)
    ensures
        s.steps_to((#[trigger] s.read_element(lin, size)).0),
{
    broadcast use {
        crate::cpu::dcache::coherence::memory::lemma_read16,
        crate::cpu::dcache::coherence::memory::lemma_read32,
        crate::cpu::dcache::coherence::memory::lemma_read8,
    };

    reveal(State::read_element);
}

pub broadcast proof fn lemma_write_element(s: State, lin: u32, v: u32, size: u32)
    ensures
        s.steps_to(#[trigger] s.write_element(lin, v, size)),
{
    broadcast use {
        crate::cpu::dcache::coherence::memory::lemma_write16,
        crate::cpu::dcache::coherence::memory::lemma_write32,
        crate::cpu::dcache::coherence::memory::lemma_write8,
    };

    reveal(State::write_element);
}

pub broadcast proof fn lemma_string_port(s: State, d: Decoder, op: u8)
    ensures
        (#[trigger] s.string_port(d, op)) matches Some(t) ==> s.steps_to(t.0),
{
    broadcast use {
        crate::cpu::dcache::coherence::interrupt::lemma_gp_fault,
        crate::cpu::dcache::coherence::interrupt::lemma_io_permitted,
        crate::cpu::dcache::coherence::string::lemma_read_element,
        crate::cpu::dcache::coherence::string::lemma_write_element,
    };

    reveal(State::string_port);
    reveal(State::taken_in);
    reveal(State::sent_out);
}

pub broadcast proof fn lemma_string_once(s: State, d: Decoder, op: u8)
    ensures
        (#[trigger] s.string_once(d, op)) matches Some(t) ==> s.steps_to(t.0),
{
    broadcast use {
        crate::cpu::dcache::coherence::string::lemma_read_element,
        crate::cpu::dcache::coherence::string::lemma_string_port,
        crate::cpu::dcache::coherence::string::lemma_write_element,
    };

    reveal(State::string_once);
}

pub broadcast proof fn lemma_string_exec(s: State, d: Decoder, op: u8)
    ensures
        (#[trigger] s.string_exec(d, op)) matches Some(t) ==> s.steps_to(t),
    decreases s.cpu.reg_w(crate::cpu::state::CX, d.addrsize32),
{
    broadcast use {
        crate::cpu::dcache::coherence::string::lemma_string_once,
    };

    reveal_with_fuel(State::string_exec, 2);
    if !(s.pending_fault is Some || (d.rep is Some && s.cpu.reg_w(
        crate::cpu::state::CX,
        d.addrsize32,
    ) == 0)) {
        if let Some((s1, ends)) = s.string_once(d, op) {
            if !ends && d.rep is Some {
                crate::cpu::string::lemma_count_goes_down(s, d, op);
                let cx = s1.cpu.reg_w(crate::cpu::state::CX, d.addrsize32).wrapping_sub(1);
                let s2 = s1.with_cpu(
                    s1.cpu.with_reg_w(crate::cpu::state::CX, cx, d.addrsize32),
                );
                if s2.cpu.reg_w(crate::cpu::state::CX, d.addrsize32) != 0 {
                    lemma_string_exec(s2, d, op);
                }
            }
        }
    }
}

} // verus!
