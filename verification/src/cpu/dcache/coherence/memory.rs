//! Memory.

use vstd::prelude::*;
use crate::machine::State;

verus! {

pub broadcast proof fn lemma_with_phys8(s: State, pa: u32, v: u8)
    ensures
        s.steps_to(#[trigger] s.with_phys8(pa, v)),
{
    reveal(State::with_phys8);
    reveal(crate::cpu::dcache::coherence::agrees);
    if s.kept() && pa < s.mem.len() {
        crate::cpu::dcache::laws::law_write_keeps_coherence(s, pa, v);
    }
}

proof fn lemma_flushed_from(s: State, marks: Seq<crate::walk::Mark>, k: nat)
    ensures
        s.steps_to(s.flushed_from(marks, k)),
    decreases marks.len() - k,
{
    if k < marks.len() {
        let m = marks[k as int];
        let t = s.with_phys8(m.at(), s.phys8(m.at()) | m.bit());
        lemma_with_phys8(s, m.at(), s.phys8(m.at()) | m.bit());
        lemma_flushed_from(t, marks, k + 1);
    }
}

pub broadcast proof fn lemma_flushed(s: State)
    ensures
        s.steps_to(#[trigger] s.flushed()),
{
    reveal(State::flushed);
    lemma_flushed_from(State { marks: Seq::empty(), ..s }, s.marks, 0);
}

pub broadcast proof fn lemma_read8(s: State, lin: u32)
    ensures
        s.steps_to((#[trigger] s.read8(lin)).0),
{
    reveal(State::read8);
}

pub broadcast proof fn lemma_read16(s: State, lin: u32)
    ensures
        s.steps_to((#[trigger] s.read16(lin)).0),
{
    broadcast use {
        crate::cpu::dcache::coherence::memory::lemma_read8,
    };

    reveal(State::read16);
}

pub broadcast proof fn lemma_read32(s: State, lin: u32)
    ensures
        s.steps_to((#[trigger] s.read32(lin)).0),
{
    broadcast use {
        crate::cpu::dcache::coherence::memory::lemma_read16,
    };

    reveal(State::read32);
}

pub broadcast proof fn lemma_write8(s: State, lin: u32, v: u8)
    ensures
        s.steps_to(#[trigger] s.write8(lin, v)),
{
    broadcast use {
        crate::cpu::dcache::coherence::memory::lemma_with_phys8,
    };

    reveal(State::write8);
}

pub broadcast proof fn lemma_write16(s: State, lin: u32, v: u16)
    ensures
        s.steps_to(#[trigger] s.write16(lin, v)),
{
    broadcast use {
        crate::cpu::dcache::coherence::memory::lemma_with_phys8,
    };

    reveal(State::write16);
}

pub broadcast proof fn lemma_write32(s: State, lin: u32, v: u32)
    ensures
        s.steps_to(#[trigger] s.write32(lin, v)),
{
    broadcast use {
        crate::cpu::dcache::coherence::memory::lemma_with_phys8,
    };

    reveal(State::write32);
}

} // verus!
