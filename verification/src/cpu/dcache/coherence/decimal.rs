//! Decimal adjustment.

use vstd::prelude::*;
use crate::machine::State;

verus! {

pub broadcast proof fn lemma_aam(s: State)
    ensures
        (#[trigger] s.aam()) matches Some(t) ==> s.steps_to(t),
{
    broadcast use {
        crate::cpu::dcache::coherence::operand::lemma_fetch8,
    };

    reveal(State::aam);
}

pub broadcast proof fn lemma_aad(s: State)
    ensures
        s.steps_to(#[trigger] s.aad()),
{
    broadcast use {
        crate::cpu::dcache::coherence::operand::lemma_fetch8,
    };

    reveal(State::aad);
}

} // verus!
