//! The cache stays in agreement with memory, whatever the processor does: every
//! write goes through the place that notes it.

pub mod decimal;
pub mod fpu;
pub mod group;
pub mod interrupt;
pub mod memory;
pub mod mmx;
pub mod onebyte;
pub mod operand;
pub mod segment;
pub mod sse;
pub mod string;
pub mod twobyte;
pub mod whole;

use vstd::prelude::*;
use crate::cpu::dcache::CacheState;
use crate::cpu::state::CS;
use crate::machine::{MachineProfile, State};

verus! {

/// The cache agrees with memory, and the generation of every page with code in it
/// can still move on.
#[verifier::opaque]
pub open spec fn agrees(c: CacheState, mem: Seq<u8>) -> bool {
    &&& c.coherent(mem)
    &&& forall|p: int|
        0 <= p < c.page_has_code.len() && #[trigger] c.page_has_code[p] ==> c.page_gen[p]
            < u32::MAX
}

impl State {
    pub open spec fn kept(self) -> bool {
        agrees(self.dcache, self.mem)
    }

    /// What the processor leaves alone on its way to another state: the agreement of
    /// the cache with memory, the size of memory, what was saved to take the
    /// instruction back, and the board.
    pub open spec fn steps_to(self, t: State) -> bool {
        &&& self.kept() ==> t.kept()
        &&& t.mem.len() == self.mem.len()
        &&& t.guard == self.guard
        &&& t.board == self.board
        &&& t.profile == self.profile
    }
}

/// A machine at power on has a cache in agreement with its memory.
pub proof fn law_fresh_machine(s: State, ram_bytes: nat, profile: MachineProfile)
    requires
        s.is_fresh(ram_bytes, profile),
    ensures
        s.kept(),
{
    reveal(agrees);
    crate::cpu::dcache::laws::law_fresh_coherent(s.mem);
}

/// No instruction takes the cache out of agreement with memory, or changes the size
/// of memory, what was saved to take it back, or the board.
pub proof fn law_step_keeps(s: State)
    ensures
        s.step() matches Some(t) ==> s.steps_to(t),
{
    crate::cpu::dcache::coherence::whole::lemma_step(s);
}

/// Neither does what comes in between instructions: an interrupt, a page fault, and
/// the answer of the floating-point unit.
pub proof fn law_events_keep(s: State, n: u8, err: u32, r: u128, second: u64)
    ensures
        s.interrupt(n) matches Some(t) ==> s.steps_to(t),
        s.page_fault(err) matches Some(t) ==> s.steps_to(t),
        s.steps_to(s.float_completed(r, second)),
{
    crate::cpu::dcache::coherence::interrupt::lemma_interrupt(s, n);
    crate::cpu::dcache::coherence::interrupt::lemma_page_fault(s, err);
    crate::cpu::dcache::coherence::fpu::lemma_float_completed(s, r, second);
}

/// An instruction before which the whole processor was saved can be taken back.
pub proof fn law_taken_back(s: State)
    ensures
        s.guarded().step() matches Some(t) ==> t.taken_back().cpu == s.cpu,
{
    law_step_keeps(s.guarded());
}

/// The same through the cache: the agreement is kept, as long as the generation of
/// the page of the instruction can still move on.
pub proof fn law_cached_step_keeps(s: State)
    requires
        s.kept(),
        s.off_mark(),
        s.translate(s.cpu.lin(CS, s.cpu.ip), false) matches Ok(pa) ==> s.ready().dcache.gen_of(pa)
            < u32::MAX,
    ensures
        s.step_cached(0) matches Some(t) ==> t.kept(),
        s.step_cached(0) == s.prepared().step(),
{
    crate::cpu::dcache::agreement::law_cached_step(s);
    law_step_keeps(s.prepared());
    if s.cpu.seg_is32(CS) {
        if let Ok(pa) = s.translate(s.cpu.lin(CS, s.cpu.ip), false) {
            crate::cpu::dcache::agreement::lemma_ready(s);
            lemma_found_kept(s.ready(), pa);
        }
    }
}

proof fn lemma_found_kept(s: State, pa: u32)
    requires
        s.kept(),
        pa != crate::cpu::dcache::TAG_INVALID,
        s.dcache.gen_of(pa) < u32::MAX,
    ensures
        s.find_uop(pa).0.kept(),
{
    reveal(agrees);
    reveal(State::find_uop);
    crate::cpu::dcache::agreement::lemma_found(s, pa);
    let c = s.find_uop(pa).0.dcache;
    assert forall|p: int|
        0 <= p < c.page_has_code.len() && #[trigger] c.page_has_code[p] implies c.page_gen[p]
        < u32::MAX by {
        if p != (pa / 0x1000) as int {
            assert(s.dcache.page_has_code[p]);
        }
    }
}

} // verus!
