//! Memory as the processor reads and writes it when no address is translated.

use vstd::prelude::*;
use crate::machine::{le16, le32, State};

verus! {

/// The doubleword at an address.
#[verifier::opaque]
pub open spec fn dword_at(mem: Seq<u8>, a: int) -> u32 {
    le32(le16(mem[a], mem[a + 1]), le16(mem[a + 2], mem[a + 3]))
}

/// Two memories that hold the same from `a` up to, not including, `b`.
pub open spec fn same_between(p: Seq<u8>, q: Seq<u8>, a: int, b: int) -> bool {
    forall|i: int| a <= i < b ==> #[trigger] p[i] == q[i]
}

/// Only memory and what is kept of decoded code differ, and memory only from `a` up
/// to `b`.
pub open spec fn same_outside(s: State, t: State, a: int, b: int) -> bool {
    &&& t.cpu == s.cpu
    &&& t.mem.len() == s.mem.len()
    &&& same_between(s.mem, t.mem, 0, a)
    &&& same_between(s.mem, t.mem, b, s.mem.len() as int)
}

pub open spec fn in_memory(s: State, a: int, n: int) -> bool {
    &&& !s.cpu.pg()
    &&& 0 <= a
    &&& a + n <= s.mem.len()
    &&& s.mem.len() <= 0x1_0000_0000
}

pub proof fn lemma_dword_same(p: Seq<u8>, q: Seq<u8>, a: int)
    requires
        same_between(p, q, a, a + 4),
    ensures
        dword_at(p, a) == dword_at(q, a),
{
    reveal(dword_at);
}

pub proof fn lemma_dword_read(s: State, a: u32)
    requires
        in_memory(s, a as int, 4),
    ensures
        s.read32(a) == (s, dword_at(s.mem, a as int)),
        s.read16(a) == (s, le16(s.mem[a as int], s.mem[a + 1])),
{
    reveal(dword_at);
    reveal(State::read8);
    reveal(State::read16);
    reveal(State::read32);
    reveal(State::translate);
    reveal(State::phys8);
}

pub proof fn lemma_dword_written(s: State, a: u32, v: u32)
    requires
        in_memory(s, a as int, 4),
    ensures
        same_outside(s, s.write32(a, v), a as int, a + 4),
        dword_at(s.write32(a, v).mem, a as int) == v,
{
    reveal(dword_at);
    reveal(State::write32);
    reveal(State::translate);
    reveal(State::with_phys8);
    crate::machine::law_bytes_of_word(v);
}

pub proof fn lemma_word_written(s: State, a: u32, v: u16)
    requires
        in_memory(s, a as int, 2),
    ensures
        same_outside(s, s.write16(a, v), a as int, a + 2),
        le16(s.write16(a, v).mem[a as int], s.write16(a, v).mem[a + 1]) == v,
        same_outside(s, s.write8(a, v as u8), a as int, a + 1),
{
    reveal(State::write8);
    reveal(State::write16);
    reveal(State::translate);
    reveal(State::with_phys8);
    crate::machine::law_bytes_of_word(v as u32);
}

} // verus!
