//! The cache and the interpreter agree: a decoded instruction does what the
//! interpreter does with the bytes that it was decoded from.

pub mod fetch;
pub mod flow;
pub mod grid;
pub mod groups;
pub mod grp1;
pub mod misc;
pub mod moves;
pub mod strings;
pub mod two;
pub mod whole;

use vstd::prelude::*;
use crate::cpu::dcache::Uop;
use crate::cpu::state::CS;
use crate::machine::{Fault, State};

verus! {

impl State {
    /// What the cache writes down before the instruction at a physical address: the
    /// instruction itself, and what is needed to take it back.
    pub open spec fn prepared_at(self, pa: u32) -> State {
        let (s, found) = self.find_uop(pa);
        match found {
            None => State { trap_ip: s.cpu.ip, ..s }.guarded(),
            Some((lf, _)) => if lf / 16 % 2 == 1 {
                s.guarded_slim(s.cpu.ip)
            } else {
                s
            },
        }
    }

    /// The fetch of the next instruction is noted, and what page walks raised is in
    /// the tables.
    pub open spec fn ready(self) -> State {
        self.walked(self.cpu.lin(CS, self.cpu.ip), false).flushed()
    }

    /// The same for the next instruction, wherever it is, in tables that say what was
    /// accessed.
    pub open spec fn prepared(self) -> State {
        if !self.cpu.seg_is32(CS) {
            self.guarded()
        } else {
            match self.translate(self.cpu.lin(CS, self.cpu.ip), false) {
                Err(_) => self.guarded(),
                Ok(pa) => self.ready().prepared_at(pa),
            }
        }
    }

    /// The next instruction is not at the one physical address that marks an empty
    /// entry.
    pub open spec fn off_mark(self) -> bool {
        self.cpu.seg_is32(CS) ==> self.translate(self.cpu.lin(CS, self.cpu.ip), false)
            != Ok::<u32, Fault>(crate::cpu::dcache::TAG_INVALID)
    }
}

/// What is found for an address is what memory decodes to, and finding it keeps the
/// cache in agreement with memory.
pub proof fn lemma_found(s: State, pa: u32)
    requires
        s.dcache.coherent(s.mem),
        pa != crate::cpu::dcache::TAG_INVALID,
    ensures
        s.find_uop(pa).0 == (State { dcache: s.find_uop(pa).0.dcache, ..s }),
        s.find_uop(pa).0.dcache.coherent(s.mem),
        match crate::cpu::dcache::decode::decoded(s.mem, pa) {
            None => s.find_uop(pa).1 is None,
            Some((len, u)) => s.find_uop(pa).1 == Some(
                (crate::cpu::dcache::len_flags_of(len, u), u),
            ),
        },
{
    reveal(State::find_uop);
    if s.dcache.hit(pa) is Some {
        let e = s.dcache.entries[crate::cpu::dcache::slot_of(pa) as int];
        assert(s.dcache.entry_holds(s.mem, e));
    } else if crate::cpu::dcache::decode::decoded(s.mem, pa) is Some {
        crate::cpu::dcache::laws::law_fill_keeps_coherence(s.dcache, s.mem, pa);
    } else {
        let c = s.find_uop(pa).0.dcache;
        assert forall|i: int| 0 <= i < c.entries.len() implies #[trigger] c.entry_holds(
            s.mem,
            c.entries[i],
        ) by {
            assert(s.dcache.entry_holds(s.mem, s.dcache.entries[i]));
        }
    }
}

/// A found instruction is carried out as the interpreter would, where the page of the
/// code is known to be accessed.
pub proof fn lemma_run(s: State, pa: u32)
    requires
        s.dcache.coherent(s.mem),
        pa != crate::cpu::dcache::TAG_INVALID,
        s.cpu.seg_is32(CS),
        s.translate(s.cpu.lin(CS, s.cpu.ip), false) == Ok::<u32, Fault>(pa),
    ensures
        s.prepared_at(pa) == (State {
            dcache: s.prepared_at(pa).dcache,
            guard: s.prepared_at(pa).guard,
            trap_ip: s.prepared_at(pa).trap_ip,
            ..s
        }),
        s.prepared_at(pa).dcache.coherent(s.mem),
        s.quiet(s.cpu.lin(CS, s.cpu.ip), false) ==> (s.find_uop(pa).1 matches Some((lf, u))
            ==> s.find_uop(pa).0.run_uop(lf, u) == s.prepared_at(pa).step()),
{
    lemma_found(s, pa);
    if let Some((len, u)) = crate::cpu::dcache::decode::decoded(s.mem, pa) {
        reveal(State::run_uop);
        crate::cpu::dcache::laws::law_decoded_in_page(s.mem, pa);
        let t = s.prepared_at(pa);
        crate::cpu::dcache::agreement::fetch::lemma_translate_same(
            t,
            s,
            s.cpu.lin(CS, s.cpu.ip),
            false,
        );
        crate::walk::lemma_walk_same(t, s, s.cpu.lin(CS, s.cpu.ip), false);
        crate::cpu::dcache::agreement::whole::law_decoded_is_interpreted(t, pa);
        assert(t.behind(len as int) == t.with_cpu(
            crate::cpu::state::Cpu { ip: t.cpu.ip.wrapping_add(len as u32), ..t.cpu },
        )) by {
            reveal(State::behind);
        }
    }
}

/// The state before a cached instruction differs in the tables and the cache alone, and
/// finds the instruction where it was.
pub proof fn lemma_ready(s: State)
    requires
        s.kept(),
        s.cpu.seg_is32(CS),
    ensures
        ({
            let t = s.ready();
            let lin = s.cpu.lin(CS, s.cpu.ip);
            &&& t == (State { mem: t.mem, dcache: t.dcache, marks: Seq::empty(), ..s })
            &&& t.kept()
            &&& t.dcache.coherent(t.mem)
            &&& t.translate(lin, false) == s.translate(lin, false)
            &&& t.quiet(lin, false)
        }),
{
    let lin = s.cpu.lin(CS, s.cpu.ip);
    let u = s.walked(lin, false);
    crate::walk::law_flush(u, lin, false);
    fetch::lemma_translate_same(u, s, lin, false);
    crate::cpu::dcache::coherence::memory::lemma_flushed(u);
    reveal(crate::cpu::dcache::coherence::agrees);
    if s.cpu.pg() {
        crate::walk::law_walk_reaches_tables(s, lin, false);
    }
}

/// One instruction through the cache is one instruction of the interpreter, from a
/// state that differs in no more than what the cache wrote down: the bits that page
/// walks raised, the decoded instruction and what is needed to take it back.
pub proof fn law_cached_step(s: State)
    requires
        s.kept(),
        s.off_mark(),
    ensures
        s.step_cached(0) == s.prepared().step(),
        s.prepared() == (State {
            mem: s.prepared().mem,
            dcache: s.prepared().dcache,
            marks: s.prepared().marks,
            guard: s.prepared().guard,
            trap_ip: s.prepared().trap_ip,
            ..s
        }),
        s.prepared().mem == s.mem || s.prepared().mem == s.ready().mem,
        s.prepared().dcache.coherent(s.prepared().mem),
{
    reveal(State::step_cached);
    reveal_with_fuel(State::chain, 1);
    reveal(State::untaken);
    reveal(crate::cpu::dcache::coherence::agrees);
    let lin = s.cpu.lin(CS, s.cpu.ip);
    if s.cpu.seg_is32(CS) {
        assert(s.cpu.lin(CS, 0).wrapping_add(s.cpu.ip) == lin);
        if let Ok(pa) = s.translate(lin, false) {
            lemma_ready(s);
            lemma_run(s.ready(), pa);
        }
    }
}

/// In a chain every instruction is one of the interpreter. It ends where the cache
/// has no instruction, where the outer loop has something to do, at the end of the
/// page and after the last of the instructions that were asked for; otherwise the
/// clock ticks and the next instruction follows. The page of the code says that it was
/// accessed.
pub proof fn law_chain_step(s: State, lin: u32, pa: u32, extra: nat)
    requires
        s.kept(),
        pa != crate::cpu::dcache::TAG_INVALID,
        s.cpu.seg_is32(CS),
        lin == s.cpu.lin(CS, s.cpu.ip),
        s.translate(lin, false) == Ok::<u32, Fault>(pa),
        s.flushed().quiet(lin, false),
    ensures
        ({
            let base = s.cpu.lin(CS, 0);
            let f = s.flushed();
            match (f.prepared_at(pa).step(), crate::cpu::dcache::decode::decoded(f.mem, pa)) {
                (None, _) => s.chain(base, lin, pa, extra) is None,
                (Some(t), None) => s.chain(base, lin, pa, extra) == Some(t),
                (Some(t), Some((len, u))) => {
                    let next = if t.cpu.ip == s.cpu.ip.wrapping_add(len as u32)
                        || !crate::cpu::dcache::exec::is_control(u) {
                        lin.wrapping_add(len as u32)
                    } else {
                        base.wrapping_add(t.cpu.ip)
                    };
                    s.chain(base, lin, pa, extra) == if extra == 0 || !t.may_chain() || next
                        / 0x1000 != lin / 0x1000 {
                        Some(t)
                    } else {
                        t.clocked().chain(
                            base,
                            next,
                            (pa / 0x1000 * 0x1000 + next % 0x1000) as u32,
                            (extra - 1) as nat,
                        )
                    }
                },
            }
        }),
{
    reveal_with_fuel(State::chain, 1);
    reveal(State::untaken);
    let f = s.flushed();
    crate::walk::law_flush(s, lin, false);
    crate::cpu::dcache::coherence::memory::lemma_flushed(s);
    assert(f.dcache.coherent(f.mem)) by {
        reveal(crate::cpu::dcache::coherence::agrees);
    }
    lemma_run(f, pa);
    lemma_found(f, pa);
    if let Some((len, u)) = crate::cpu::dcache::decode::decoded(f.mem, pa) {
        crate::cpu::dcache::laws::law_decoded_in_page(f.mem, pa);
        lemma_flags(len, u);
    }
}

/// The length and the nature of an instruction can be read from what an entry keeps.
pub proof fn lemma_flags(len: u8, u: Uop)
    requires
        len <= 15,
    ensures
        crate::cpu::dcache::len_flags_of(len, u) % 16 == len,
        crate::cpu::dcache::len_flags_of(len, u) / 16 % 2 == 1
            <==> crate::cpu::dcache::exec::may_touch_memory(u),
        crate::cpu::dcache::len_flags_of(len, u) / 32 % 2 == 1
            <==> crate::cpu::dcache::exec::is_control(u),
{
}

} // verus!
