//! A cache of decoded instructions, keyed by physical address.
//!
//! Decoding the same instruction again and again is avoided by keeping what it
//! decoded to. Only the common instructions of 32-bit code are kept; all others go
//! to [`crate::cpu::step`]. A write to a page that holds cached code moves the page
//! to its next generation, and entries of an older generation no longer match.

pub mod decode;
pub mod exec;
pub mod jit;
pub mod agreement;
pub mod census;
pub mod coherence;
pub mod laws;
pub mod reach;

use vstd::prelude::*;
use self::decode::decode_at;
use self::exec::{exec, is_control, may_touch_memory};
use crate::cpu::state::{CS, IF, TF};
use crate::machine::{Machine, State};

verus! {

/// How many instructions the cache has room for.
pub const SLOTS: usize = 131_072;

/// The tag of a slot that holds nothing.
pub const TAG_INVALID: u32 = 0xFFFF_FFFF;

/// How the address of a memory operand is made from the registers.
#[derive(Clone, Copy, Debug, PartialEq, Eq, Structural)]
pub struct MemRef {
    /// Base register; -1 for none.
    pub base: i8,
    /// Index register; -1 for none.
    pub index: i8,
    /// How often the index is doubled.
    pub scale: u8,
    pub seg: u8,
    pub disp: u32,
}

#[derive(Clone, Copy, Debug, PartialEq, Eq, Structural)]
pub enum Rm {
    Reg(u8),
    Mem(MemRef),
}

/// A decoded instruction.
#[allow(inconsistent_fields)]
#[derive(Clone, Copy, Debug, PartialEq, Eq, Structural)]
pub enum Uop {
    MovRmR { rm: Rm, reg: u8 },
    MovRRm { reg: u8, rm: Rm },
    Mov8RmR { rm: Rm, reg: u8 },
    Mov8RRm { reg: u8, rm: Rm },
    Mov16RmR { rm: Rm, reg: u8 },
    Mov16RRm { reg: u8, rm: Rm },
    MovRImm { reg: u8, imm: u32 },
    AluRmR { kind: u8, rm: Rm, reg: u8 },
    AluRRm { kind: u8, reg: u8, rm: Rm },
    Alu8RmR { kind: u8, rm: Rm, reg: u8 },
    Alu8RRm { kind: u8, reg: u8, rm: Rm },
    AluAImm { kind: u8, imm: u32 },
    Alu8AImm { kind: u8, imm: u8 },
    Grp1RmImm { kind: u8, rm: Rm, imm: u32 },
    Grp18RmImm { kind: u8, rm: Rm, imm: u8 },
    TestRmR { rm: Rm, reg: u8 },
    Test8RmR { rm: Rm, reg: u8 },
    Lea { reg: u8, mem: MemRef },
    Jcc { cc: u8, rel: u32 },
    JmpRel { rel: u32 },
    CallRel { rel: u32 },
    Ret,
    PushR { reg: u8 },
    PopR { reg: u8 },
    ShiftRmImm { kind: u8, rm: Rm, count: u8 },
    ShiftRmCl { kind: u8, rm: Rm },
    MovzxB { reg: u8, rm: Rm },
    IncR { reg: u8 },
    DecR { reg: u8 },
    MovRmImm { rm: Rm, imm: u32 },
    MovRm8Imm { rm: Rm, imm: u8 },
    MovAMoffs { load: bool, seg: u8, off: u32 },
    Mov8AMoffs { load: bool, seg: u8, off: u32 },
    PushImm { imm: u32 },
    Leave,
    XchgAR { reg: u8 },
    /// Kinds 0 to 3: TEST with an immediate, NOT and NEG.
    Grp3b { kind: u8, rm: Rm, imm: u8 },
    Grp3w { kind: u8, rm: Rm, imm: u32 },
    /// INC, DEC, the near indirect call and jump, and PUSH.
    Grp5 { kind: u8, rm: Rm },
    SetCC { cc: u8, rm: Rm },
    MovzxW { reg: u8, rm: Rm },
    ImulRRm { reg: u8, rm: Rm },
    TestAImm { imm: u32 },
    Test8AImm { imm: u8 },
    Cdq,
    MovsxB { reg: u8, rm: Rm },
    MovsxW { reg: u8, rm: Rm },
    Cmov { cc: u8, reg: u8, rm: Rm },
    ImulRRmI { reg: u8, rm: Rm, imm: u32 },
    BitScan { reg: u8, rm: Rm, reverse: bool },
    ShxdImm { rm: Rm, reg: u8, imm: u8, left: bool },
    ShxdCl { rm: Rm, reg: u8, left: bool },
    /// A string instruction; the segment is -1 where none was named.
    StrOne { op: u8, seg: i8, o16: bool },
    /// The same under a repeat prefix.
    StrRep { op: u8, seg: i8, rep: u8, o16: bool },
}

/// A slot of the cache.
#[derive(Clone, Copy, Debug, PartialEq, Eq, Structural)]
pub struct Entry {
    /// Physical address of the first byte.
    pub tag: u32,
    /// Generation of the page when the instruction was decoded.
    pub gen: u32,
    /// Length, and 16 for an instruction that may touch memory, 32 for one that may
    /// jump.
    pub len_flags: u8,
    pub uop: Uop,
}

pub struct DecodeCache {
    /// Empty until the first instruction is kept.
    pub entries: Vec<Entry>,
    /// Generation of each 4 KB page of physical memory.
    pub page_gen: Vec<u32>,
    /// Whether a page holds cached code.
    pub page_has_code: Vec<bool>,
    /// Instructions that were decoded.
    pub fills: u64,
    /// Instructions that the cache does not take.
    pub fallbacks: u64,
}

#[verifier::ext_equal]
pub struct CacheState {
    pub entries: Seq<Entry>,
    pub page_gen: Seq<u32>,
    pub page_has_code: Seq<bool>,
    pub fills: u64,
    pub fallbacks: u64,
}

impl View for DecodeCache {
    type V = CacheState;

    open spec fn view(&self) -> CacheState {
        CacheState {
            entries: self.entries@,
            page_gen: self.page_gen@,
            page_has_code: self.page_has_code@,
            fills: self.fills,
            fallbacks: self.fallbacks,
        }
    }
}

/// What an entry keeps of the length and the nature of an instruction.
#[verifier::allow_in_spec]
pub fn len_flags_of(len: u8, uop: Uop) -> u8
    returns
        (len % 16 + (if may_touch_memory(uop) {
            16int
        } else {
            0int
        }) + (if is_control(uop) {
            32int
        } else {
            0int
        })) as u8,
{
    len % 16 + (if may_touch_memory(uop) {
        16
    } else {
        0
    }) + (if is_control(uop) {
        32
    } else {
        0
    })
}

#[verifier::allow_in_spec]
pub fn empty_entry() -> Entry
    returns
        (Entry { tag: TAG_INVALID, gen: 0, len_flags: 0, uop: Uop::Ret }),
{
    Entry { tag: TAG_INVALID, gen: 0, len_flags: 0, uop: Uop::Ret }
}

/// The slot of an address.
#[verifier::allow_in_spec]
pub fn slot_of(pa: u32) -> usize
    returns
        (pa % 131_072) as usize,
{
    (pa % 131_072) as usize
}

impl CacheState {
    /// A cache with nothing in it, for so much memory.
    pub open spec fn fresh(ram_bytes: nat) -> CacheState {
        let pages = ((ram_bytes + 4095) / 4096) as nat;
        CacheState {
            entries: Seq::empty(),
            page_gen: Seq::new(pages, |i: int| 0u32),
            page_has_code: Seq::new(pages, |i: int| false),
            fills: 0,
            fallbacks: 0,
        }
    }

    /// Generation of the page of an address.
    pub open spec fn gen_of(self, pa: u32) -> u32 {
        let p = (pa / 0x1000) as int;
        if p < self.page_gen.len() {
            self.page_gen[p]
        } else {
            0
        }
    }

    /// The cache after a byte of physical memory was written.
    pub open spec fn noted(self, pa: u32) -> CacheState {
        let p = (pa / 0x1000) as int;
        if p < self.page_has_code.len() && p < self.page_gen.len() && self.page_has_code[p] {
            CacheState {
                page_has_code: self.page_has_code.update(p, false),
                page_gen: self.page_gen.update(p, self.page_gen[p].wrapping_add(1)),
                ..self
            }
        } else {
            self
        }
    }

    /// The cache after pages `first` up to `last` were written.
    pub open spec fn noted_pages(self, first: nat, last: nat) -> CacheState
        decreases last + 1 - first,
    {
        if first > last {
            self
        } else {
            self.noted(((first * 0x1000) % 0x1_0000_0000) as u32).noted_pages(first + 1, last)
        }
    }

    /// The entry that matches an address.
    pub open spec fn hit(self, pa: u32) -> Option<(u8, Uop)> {
        let e = self.entries[slot_of(pa) as int];
        if slot_of(pa) < self.entries.len() && e.tag == pa && e.gen == self.gen_of(pa) {
            Some((e.len_flags, e.uop))
        } else {
            None
        }
    }

    /// The cache with an instruction kept.
    pub open spec fn filled(self, pa: u32, len_flags: u8, uop: Uop) -> CacheState {
        let room = if self.entries.len() == 0 {
            Seq::new(SLOTS as nat, |i: int| empty_entry())
        } else {
            self.entries
        };
        let p = (pa / 0x1000) as int;
        let e = Entry { tag: pa, gen: self.gen_of(pa), len_flags, uop };
        CacheState {
            entries: if slot_of(pa) < room.len() {
                room.update(slot_of(pa) as int, e)
            } else {
                room
            },
            page_has_code: if p < self.page_has_code.len() {
                self.page_has_code.update(p, true)
            } else {
                self.page_has_code
            },
            fills: self.fills.wrapping_add(1),
            ..self
        }
    }
}

impl DecodeCache {
    /// An empty cache for so much memory.
    pub fn new(ram_bytes: usize) -> (r: Self)
        requires
            ram_bytes <= 0x1_0000_0000,
        ensures
            r@ == CacheState::fresh(ram_bytes as nat),
    {
        let pages: usize = ((ram_bytes as u64 + 4095) / 4096) as usize;
        let mut page_gen: Vec<u32> = Vec::new();
        let mut page_has_code: Vec<bool> = Vec::new();
        let mut i: usize = 0;
        while i < pages
            invariant
                i <= pages,
                page_gen@ == Seq::new(i as nat, |k: int| 0u32),
                page_has_code@ == Seq::new(i as nat, |k: int| false),
            decreases pages - i,
        {
            page_gen.push(0);
            page_has_code.push(false);
            i = i + 1;
        }
        DecodeCache { entries: Vec::new(), page_gen, page_has_code, fills: 0, fallbacks: 0 }
    }

    /// Generation of the page of an address.
    pub fn page_gen_of(&self, pa: u32) -> (r: u32)
        ensures
            r == self@.gen_of(pa),
    {
        let p: usize = (pa / 0x1000) as usize;
        if p < self.page_gen.len() {
            self.page_gen[p]
        } else {
            0
        }
    }

    /// A byte of physical memory was written. Only a page that holds cached code
    /// moves on.
    pub fn note_write(&mut self, pa: u32)
        ensures
            final(self)@ == old(self)@.noted(pa),
    {
        let p: usize = (pa / 0x1000) as usize;
        if p < self.page_has_code.len() && p < self.page_gen.len() && self.page_has_code[p] {
            self.page_has_code[p] = false;
            self.page_gen[p] = self.page_gen[p].wrapping_add(1);
        }
    }

    /// So many bytes of physical memory from an address on were written.
    pub fn note_write_range(&mut self, pa: u32, len: usize)
        requires
            pa + len <= 0x1_0000_0000,
        ensures
            final(self)@ == (if len == 0 {
                old(self)@
            } else {
                old(self)@.noted_pages(
                    (pa / 0x1000) as nat,
                    ((pa + len - 1) / 0x1000) as nat,
                )
            }),
    {
        if len == 0 {
            return;
        }
        let first: u64 = (pa / 0x1000) as u64;
        let last: u64 = (pa as u64 + (len as u64 - 1)) / 0x1000;
        let mut p: u64 = first;
        while p <= last
            invariant
                first <= p <= last + 1,
                last < 0x10_0000,
                self@.noted_pages(p as nat, last as nat) == old(self)@.noted_pages(
                    first as nat,
                    last as nat,
                ),
            decreases last + 1 - p,
        {
            self.note_write((p * 0x1000) as u32);
            p = p + 1;
        }
    }

    /// The entry that matches an address.
    pub fn lookup(&self, pa: u32) -> (r: Option<(u8, Uop)>)
        ensures
            r == self@.hit(pa),
    {
        let slot: usize = slot_of(pa);
        if slot < self.entries.len() {
            let e: Entry = self.entries[slot];
            if e.tag == pa && e.gen == self.page_gen_of(pa) {
                return Some((e.len_flags, e.uop));
            }
        }
        None
    }

    /// Keeps an instruction.
    pub fn fill(&mut self, pa: u32, len_flags: u8, uop: Uop)
        ensures
            final(self)@ == old(self)@.filled(pa, len_flags, uop),
    {
        let gen: u32 = self.page_gen_of(pa);
        if self.entries.len() == 0 {
            let mut room: Vec<Entry> = Vec::new();
            let mut i: usize = 0;
            while i < SLOTS
                invariant
                    i <= SLOTS,
                    room@ == Seq::new(i as nat, |k: int| empty_entry()),
                decreases SLOTS - i,
            {
                room.push(empty_entry());
                i = i + 1;
            }
            self.entries = room;
        }
        let slot: usize = slot_of(pa);
        if slot < self.entries.len() {
            self.entries[slot] = Entry { tag: pa, gen, len_flags, uop };
        }
        let p: usize = (pa / 0x1000) as usize;
        if p < self.page_has_code.len() {
            self.page_has_code[p] = true;
        }
        self.fills = self.fills.wrapping_add(1);
    }
}

impl State {
    pub open spec fn with_dcache(self, dcache: CacheState) -> State {
        State { dcache, ..self }
    }

    /// The instruction at a physical address, from the cache or newly decoded;
    /// nothing for one that the cache does not take.
    #[verifier::opaque]
    pub open spec fn find_uop(self, pa: u32) -> (State, Option<(u8, Uop)>) {
        match self.dcache.hit(pa) {
            Some(x) => (self, Some(x)),
            None => match crate::cpu::dcache::decode::decoded(self.mem, pa) {
                Some((len, uop)) => {
                    let lf = len_flags_of(len, uop);
                    (self.with_dcache(self.dcache.filled(pa, lf, uop)), Some((lf, uop)))
                },
                None => (
                    self.with_dcache(
                        CacheState {
                            fallbacks: self.dcache.fallbacks.wrapping_add(1),
                            ..self.dcache
                        },
                    ),
                    None,
                ),
            },
        }
    }

    /// One decoded instruction: what it may change is saved if it may touch memory.
    #[verifier::opaque]
    pub open spec fn run_uop(self, len_flags: u8, uop: Uop) -> Option<State> {
        let s = if len_flags / 16 % 2 == 1 { self.guarded_slim(self.cpu.ip) } else { self };
        s.with_cpu(
            crate::cpu::state::Cpu {
                ip: s.cpu.ip.wrapping_add((len_flags % 16) as u32),
                ..s.cpu
            },
        ).exec_uop(uop)
    }

    /// Whether the next instruction may follow without going through the outer
    /// loop.
    pub open spec fn may_chain(self) -> bool {
        self.pending_fault is None && self.trap is None && !self.halted && !(self.cpu.flag(IF) && (
        self.pending_irq is Some || self.pic_service))
    }

    /// An instruction that the cache does not take, done by the interpreter.
    #[verifier::opaque]
    pub open spec fn untaken(self) -> Option<State> {
        State { trap_ip: self.cpu.ip, ..self }.guarded().step()
    }

    /// The clock after one instruction.
    #[verifier::opaque]
    pub open spec fn clocked(self) -> State {
        let s = self.with_cpu(
            crate::cpu::state::Cpu { tsc: self.cpu.tsc.wrapping_add(1), ..self.cpu },
        );
        if s.tick_countdown <= 1 {
            State { tick_countdown: s.tick_period, ticks: s.ticks.wrapping_add(1), ..s }
        } else {
            State { tick_countdown: (s.tick_countdown - 1) as u32, ..s }
        }
    }

    /// The instruction at `lin`, which is `pa` in physical memory, and up to `extra`
    /// more that follow in the same page. Before each the page tables get the bits that
    /// were raised.
    #[verifier::opaque]
    pub open spec fn chain(self, cs_base: u32, lin: u32, pa: u32, extra: nat) -> Option<State>
        decreases extra,
    {
        let (s, found) = self.flushed().find_uop(pa);
        match found {
            None => s.untaken(),
            Some((lf, uop)) => {
                let straight = s.cpu.ip.wrapping_add((lf % 16) as u32);
                match s.run_uop(lf, uop) {
                    None => None,
                    Some(t) => {
                        let next = next_place(lf, lin, straight, cs_base, t.cpu.ip);
                        if extra == 0 || !t.may_chain() || next / 0x1000 != lin / 0x1000 {
                            Some(t)
                        } else {
                            t.clocked().chain(
                                cs_base,
                                next,
                                same_page(pa, next),
                                (extra - 1) as nat,
                            )
                        }
                    },
                }
            },
        }
    }

    /// One instruction through the cache, and up to `extra` that can follow it. Code
    /// that is not 32-bit, and a fetch that faults, go the ordinary way.
    #[verifier::opaque]
    pub open spec fn step_cached(self, extra: nat) -> Option<State> {
        if !self.cpu.seg_is32(CS) {
            self.guarded().step()
        } else {
            let cs_base = self.cpu.lin(CS, 0);
            let lin = cs_base.wrapping_add(self.cpu.ip);
            match self.translate(lin, false) {
                Err(_) => self.guarded().step(),
                Ok(pa) => self.walked(lin, false).chain(
                    cs_base,
                    lin,
                    pa,
                    if self.cpu.flag(TF) { 0 } else { extra },
                ),
            }
        }
    }
}

/// Where the next instruction is: behind this one, or where it went.
#[verifier::allow_in_spec]
pub fn next_place(len_flags: u8, lin: u32, straight: u32, cs_base: u32, ip: u32) -> u32
    returns
        (if len_flags / 32 % 2 == 0 || ip == straight {
            lin.wrapping_add((len_flags % 16) as u32)
        } else {
            cs_base.wrapping_add(ip)
        }),
{
    if len_flags / 32 % 2 == 0 || ip == straight {
        lin.wrapping_add((len_flags % 16) as u32)
    } else {
        cs_base.wrapping_add(ip)
    }
}

/// The physical address of an address in the page of another.
#[verifier::allow_in_spec]
pub fn same_page(pa: u32, lin: u32) -> u32
    returns
        (pa / 0x1000 * 0x1000 + lin % 0x1000) as u32,
{
    pa / 0x1000 * 0x1000 + lin % 0x1000
}

fn find_uop(m: &mut Machine, pa: u32) -> (r: Option<(u8, Uop)>)
    ensures
        (final(m)@, r) == old(m)@.find_uop(pa),
{
    proof {
        reveal(State::find_uop);
    }
    if let Some(x) = m.dcache.lookup(pa) {
        return Some(x);
    }
    match decode_at(m, pa) {
        Some((len, uop)) => {
            let lf: u8 = len_flags_of(len, uop);
            m.dcache.fill(pa, lf, uop);
            Some((lf, uop))
        },
        None => {
            m.dcache.fallbacks = m.dcache.fallbacks.wrapping_add(1);
            None
        },
    }
}

fn run_uop(m: &mut Machine, len_flags: u8, uop: Uop)
    requires
        old(m)@.run_uop(len_flags, uop) is Some,
    ensures
        Some(final(m)@) == old(m)@.run_uop(len_flags, uop),
{
    proof {
        reveal(State::run_uop);
    }
    if len_flags / 16 % 2 == 1 {
        m.guard_save_slim();
    }
    m.cpu.advance_ip32((len_flags % 16) as u32);
    exec(m, uop);
}

fn untaken(m: &mut Machine)
    requires
        old(m)@.untaken() is Some,
    ensures
        Some(final(m)@) == old(m)@.untaken(),
{
    proof {
        reveal(State::untaken);
    }
    m.trap_ip = m.cpu.ip;
    m.guard_save();
    crate::cpu::step(m);
}

fn may_chain(m: &Machine) -> (r: bool)
    ensures
        r == m@.may_chain(),
{
    m.pending_fault.is_none() && m.trap.is_none() && !m.halted && !(m.cpu.flag(IF) && (
    m.pending_irq.is_some() || m.pic_service))
}

fn clock(m: &mut Machine)
    ensures
        final(m)@ == old(m)@.clocked(),
{
    proof {
        reveal(State::clocked);
    }
    m.cpu.tsc = m.cpu.tsc.wrapping_add(1);
    if m.tick_countdown <= 1 {
        m.tick_countdown = m.tick_period;
        m.ticks = m.ticks.wrapping_add(1);
    } else {
        m.tick_countdown = m.tick_countdown - 1;
    }
}

#[verifier::spinoff_prover]
fn chain(m: &mut Machine, cs_base: u32, lin: u32, pa: u32, extra: u64)
    requires
        old(m)@.chain(cs_base, lin, pa, extra as nat) is Some,
    ensures
        Some(final(m)@) == old(m)@.chain(cs_base, lin, pa, extra as nat),
{
    let mut at: u32 = lin;
    let mut phys: u32 = pa;
    let mut left: u64 = extra;
    loop
        invariant
            m@.chain(cs_base, at, phys, left as nat) is Some,
            m@.chain(cs_base, at, phys, left as nat) == old(m)@.chain(
                cs_base,
                lin,
                pa,
                extra as nat,
            ),
        decreases left,
    {
        proof {
            reveal_with_fuel(State::chain, 2);
        }
        m.flush_ad();
        let (lf, uop) = match find_uop(m, phys) {
            None => {
                untaken(m);
                return;
            },
            Some(x) => x,
        };
        let straight: u32 = m.cpu.ip.wrapping_add((lf % 16) as u32);
        run_uop(m, lf, uop);
        let next: u32 = next_place(lf, at, straight, cs_base, m.cpu.ip);
        if left == 0 || !may_chain(m) || next / 0x1000 != at / 0x1000 {
            return;
        }
        clock(m);
        phys = same_page(phys, next);
        at = next;
        left = left - 1;
    }
}

/// Executes one instruction through the cache, and up to `chain_extra` more that
/// follow it in the same page. It stops early where the outer loop has something to
/// do: a fault, a trap, a halt or an interrupt.
pub fn step_cached(m: &mut Machine, chain_extra: u64)
    requires
        old(m)@.step_cached(chain_extra as nat) is Some,
    ensures
        Some(final(m)@) == old(m)@.step_cached(chain_extra as nat),
{
    proof {
        reveal(State::step_cached);
    }
    if !m.cpu.seg_is32(CS) {
        m.guard_save();
        crate::cpu::step(m);
        return;
    }
    let cs_base: u32 = m.cpu.lin(CS, 0);
    let lin: u32 = cs_base.wrapping_add(m.cpu.ip);
    match m.translate_for(lin, false) {
        Err(_) => {
            m.guard_save();
            crate::cpu::step(m);
        },
        Ok(pa) => {
            let extra: u64 = if m.cpu.flag(TF) {
                0
            } else {
                chain_extra
            };
            m.walk(lin, false);
            chain(m, cs_base, lin, pa, extra);
        },
    }
}

} // verus!
