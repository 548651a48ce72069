//! Whole instructions.

use vstd::prelude::*;
use crate::cpu::operand::Decoder;
use crate::machine::State;

verus! {

pub broadcast proof fn lemma_prefixes(s: State, d: Decoder, cs32: bool, limit: nat)
    ensures
        (#[trigger] s.prefixes(d, cs32, limit)) matches Some(t) ==> s.steps_to(t.0),
    decreases limit,
{
    broadcast use {
        crate::cpu::dcache::coherence::operand::lemma_fetch8,
    };

    reveal_with_fuel(State::prefixes, 2);
    if limit > 0 {
        let (t, b) = s.fetch8();
        if let Some(e) = crate::cpu::prefixed(d, b, cs32) {
            lemma_prefixes(t, e, cs32, (limit - 1) as nat);
        }
    }
}

pub broadcast proof fn lemma_step_with(s: State, d: Decoder, op: u8, start_ip: u32)
    ensures
        (#[trigger] s.step_with(d, op, start_ip)) matches Some(t) ==> s.steps_to(t),
{
    broadcast use {
        crate::cpu::dcache::coherence::interrupt::lemma_interrupt,
        crate::cpu::dcache::coherence::onebyte::lemma_onebyte,
    };

    reveal(State::step_with);
}

pub broadcast proof fn lemma_step(s: State)
    ensures
        (#[trigger] s.step()) matches Some(t) ==> s.steps_to(t),
{
    broadcast use {
        crate::cpu::dcache::coherence::whole::lemma_prefixes,
        crate::cpu::dcache::coherence::whole::lemma_step_with,
    };

    reveal(State::step);
}

} // verus!
