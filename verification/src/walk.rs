//! The accessed and dirty bits of the page tables. A page walk raises them, and they
//! are written to the tables before the next instruction of the cache.

use vstd::prelude::*;
use crate::machine::{Machine, State};

verus! {

/// A bit that a page walk raised and that is not in the table yet: the place of the
/// entry, counted in doublewords of physical memory, and which of the two it is.
#[derive(Clone, Copy, Debug, PartialEq, Eq, Structural)]
pub struct Mark {
    pub entry: u32,
    pub dirty: bool,
}

impl Mark {
    /// The address of the byte that holds the bit.
    #[verifier::allow_in_spec]
    pub fn at(&self) -> u32
        returns
            ((self.entry % 0x4000_0000) * 4) as u32,
    {
        (self.entry % 0x4000_0000) * 4
    }

    #[verifier::allow_in_spec]
    pub fn bit(&self) -> u8
        returns
            (if self.dirty {
                0x40u8
            } else {
                0x20u8
            }),
    {
        if self.dirty {
            0x40
        } else {
            0x20
        }
    }
}

/// The mark of an entry at an address.
#[verifier::allow_in_spec]
pub fn mark_of(at: u32, dirty: bool) -> Mark
    returns
        (Mark { entry: at / 4, dirty }),
{
    Mark { entry: at / 4, dirty }
}

/// Marks with one more, unless it is among them or its bit is in the table already.
pub open spec fn raised(s: State, marks: Seq<Mark>, m: Mark) -> Seq<Mark> {
    if s.has_bit(m) || marks.contains(m) {
        marks
    } else {
        marks.push(m)
    }
}

impl State {
    pub open spec fn has_bit(self, m: Mark) -> bool {
        self.phys8(m.at()) & m.bit() != 0
    }

    /// What is to be written to the tables after one more page walk: both entries were
    /// accessed, and a write makes the page dirty.
    #[verifier::opaque]
    pub open spec fn walk_marks(self, lin: u32, write: bool) -> Seq<Mark> {
        let a = raised(self, self.marks, mark_of(self.pde_at(lin), false));
        let b = raised(self, a, mark_of(self.pte_at(lin), false));
        if write {
            raised(self, b, mark_of(self.pte_at(lin), true))
        } else {
            b
        }
    }

    /// After a page walk that gave an address.
    pub open spec fn walked(self, lin: u32, write: bool) -> State {
        if self.cpu.pg() {
            State { marks: self.walk_marks(lin, write), ..self }
        } else {
            self
        }
    }

    /// A page walk raises nothing that is not raised already.
    pub open spec fn quiet(self, lin: u32, write: bool) -> bool {
        self.cpu.pg() ==> self.walk_marks(lin, write) == self.marks
    }

    pub open spec fn flushed_from(self, marks: Seq<Mark>, k: nat) -> State
        decreases marks.len() - k,
    {
        if k >= marks.len() {
            self
        } else {
            let m = marks[k as int];
            self.with_phys8(m.at(), self.phys8(m.at()) | m.bit()).flushed_from(marks, k + 1)
        }
    }

    /// The bits that page walks raised are in the tables.
    #[verifier::opaque]
    pub open spec fn flushed(self) -> State {
        State { marks: Seq::empty(), ..self }.flushed_from(self.marks, 0)
    }
}

fn has_mark(marks: &Vec<Mark>, m: Mark) -> (r: bool)
    ensures
        r == marks@.contains(m),
{
    let mut k: usize = 0;
    while k < marks.len()
        invariant
            k <= marks.len(),
            forall|j: int| 0 <= j < k ==> marks@[j] != m,
        decreases marks.len() - k,
    {
        if marks[k] == m {
            assert(marks@[k as int] == m);
            return true;
        }
        k = k + 1;
    }
    false
}

impl Machine {
    fn raise(&mut self, m: Mark)
        ensures
            final(self)@ == (State { marks: raised(old(self)@, old(self)@.marks, m), ..old(self)@ }),
    {
        if self.read_phys8(m.at()) & m.bit() == 0 && !has_mark(&self.marks, m) {
            self.marks.push(m);
        }
    }

    /// Notes what a page walk raises in the tables.
    pub fn walk(&mut self, lin: u32, write: bool)
        ensures
            final(self)@ == old(self)@.walked(lin, write),
    {
        if !self.cpu.pg() {
            return;
        }
        proof {
            reveal(State::walk_marks);
            reveal(State::phys8);
        }
        let at: u32 = (self.cpu.cr3 & 0xFFFF_F000) | ((lin >> 22) << 2);
        let pde: u32 = self.read_phys32(at);
        let pte_at: u32 = (pde & 0xFFFF_F000) | (((lin >> 12) & 0x3FF) << 2);
        self.raise(mark_of(at, false));
        self.raise(mark_of(pte_at, false));
        if write {
            self.raise(mark_of(pte_at, true));
        }
    }

    /// Whether a page walk would raise nothing.
    pub fn walk_is_quiet(&self, lin: u32, write: bool) -> (r: bool)
        ensures
            r == self@.quiet(lin, write),
    {
        if !self.cpu.pg() {
            return true;
        }
        proof {
            lemma_quiet_is_raised(self@, lin, write);
        }
        let at: u32 = (self.cpu.cr3 & 0xFFFF_F000) | ((lin >> 22) << 2);
        let pde: u32 = self.read_phys32(at);
        let pte_at: u32 = (pde & 0xFFFF_F000) | (((lin >> 12) & 0x3FF) << 2);
        self.is_raised(mark_of(at, false)) && self.is_raised(mark_of(pte_at, false)) && (!write
            || self.is_raised(mark_of(pte_at, true)))
    }

    fn is_raised(&self, m: Mark) -> (r: bool)
        ensures
            r == (self@.has_bit(m) || self@.marks.contains(m)),
    {
        self.read_phys8(m.at()) & m.bit() != 0 || has_mark(&self.marks, m)
    }

    /// Writes the bits that page walks raised to the tables.
    pub fn flush_ad(&mut self)
        ensures
            final(self)@ == old(self)@.flushed(),
    {
        proof {
            reveal(State::flushed);
        }
        let mut marks: Vec<Mark> = Vec::new();
        std::mem::swap(&mut marks, &mut self.marks);
        assert(self.marks@ =~= Seq::<Mark>::empty());
        let mut k: usize = 0;
        while k < marks.len()
            invariant
                k <= marks.len(),
                self@.flushed_from(marks@, k as nat) == (State {
                    marks: Seq::empty(),
                    ..old(self)@
                }).flushed_from(old(self)@.marks, 0),
            decreases marks.len() - k,
        {
            let m: Mark = marks[k];
            let v: u8 = self.read_phys8(m.at()) | m.bit();
            self.write_phys8(m.at(), v);
            k = k + 1;
        }
    }
}

/// What a page walk notes depends on the tables alone.
pub proof fn lemma_walk_same(s: State, t: State, lin: u32, write: bool)
    requires
        s.mem == t.mem,
        s.marks == t.marks,
        s.cpu.cr3 == t.cpu.cr3,
        s.cpu.cr0 == t.cpu.cr0,
    ensures
        s.walk_marks(lin, write) == t.walk_marks(lin, write),
        s.quiet(lin, write) == t.quiet(lin, write),
{
    reveal(State::walk_marks);
    reveal(State::phys32);
    reveal(State::phys8);
}

/// Within a page all walks are alike.
pub proof fn lemma_walk_ahead(s: State, lin: u32, i: u32, write: bool)
    requires
        i < 0x1000,
        lin % 0x1000 + i < 0x1000,
    ensures
        lin + i <= u32::MAX,
        s.walk_marks((lin + i) as u32, write) == s.walk_marks(lin, write),
        s.quiet((lin + i) as u32, write) == s.quiet(lin, write),
{
    reveal(State::walk_marks);
    crate::cpu::dcache::agreement::fetch::lemma_page(lin, 0, i);
}

/// What was raised stays so.
pub proof fn lemma_quiet_stays(s: State, t: State, lin: u32, write: bool)
    requires
        s.quiet(lin, write),
        s.mem == t.mem,
        s.cpu.cr3 == t.cpu.cr3,
        s.cpu.cr0 == t.cpu.cr0,
        forall|m: Mark| s.marks.contains(m) ==> #[trigger] t.marks.contains(m),
    ensures
        t.quiet(lin, write),
{
    reveal(State::walk_marks);
    reveal(State::phys32);
    reveal(State::phys8);
    lemma_quiet_is_raised(s, lin, write);
}

/// When a walk raises nothing.
pub proof fn lemma_quiet_is_raised(s: State, lin: u32, write: bool)
    ensures
        s.quiet(lin, write) <==> (s.cpu.pg() ==> {
            let p = mark_of(s.pde_at(lin), false);
            let q = mark_of(s.pte_at(lin), false);
            let r = mark_of(s.pte_at(lin), true);
            &&& s.has_bit(p) || s.marks.contains(p)
            &&& s.has_bit(q) || s.marks.contains(q)
            &&& write ==> s.has_bit(r) || s.marks.contains(r)
        }),
{
    reveal(State::walk_marks);
    let p = mark_of(s.pde_at(lin), false);
    let q = mark_of(s.pte_at(lin), false);
    let r = mark_of(s.pte_at(lin), true);
    let a = raised(s, s.marks, p);
    let b = raised(s, a, q);
    let c = raised(s, b, r);
    assert(s.marks.len() <= a.len() <= b.len() <= c.len());
    assert(a.len() == s.marks.len() ==> a == s.marks);
    assert(b.len() == a.len() ==> b == a);
    assert(c.len() == b.len() ==> c == b);
}

/// A page walk keeps the marks that there are, and raises its own.
pub proof fn lemma_walk_grows(s: State, lin: u32, write: bool)
    ensures
        forall|m: Mark| s.marks.contains(m) ==> #[trigger] s.walk_marks(lin, write).contains(m),
        s.walked(lin, write).quiet(lin, write),
        s.walked(lin, write).quiet(lin, false),
{
    reveal(State::walk_marks);
    reveal(State::phys32);
    reveal(State::phys8);
    let t = s.walked(lin, write);
    let p = mark_of(s.pde_at(lin), false);
    let q = mark_of(s.pte_at(lin), false);
    let r = mark_of(s.pte_at(lin), true);
    let a = raised(s, s.marks, p);
    let b = raised(s, a, q);
    lemma_raised(s, s.marks, p);
    lemma_raised(s, a, q);
    lemma_raised(s, b, r);
    lemma_quiet_is_raised(t, lin, write);
    lemma_quiet_is_raised(t, lin, false);
}

/// A read keeps the marks that there are.
pub proof fn lemma_read_grows(s: State, lin: u32)
    ensures
        forall|m: Mark| s.marks.contains(m) ==> #[trigger] s.read8(lin).0.marks.contains(m),
        forall|m: Mark| s.marks.contains(m) ==> #[trigger] s.read16(lin).0.marks.contains(m),
        forall|m: Mark| s.marks.contains(m) ==> #[trigger] s.read32(lin).0.marks.contains(m),
{
    reveal(State::read16);
    reveal(State::read32);
    let s1 = s.read8(lin).0;
    let s2 = s1.read8(lin.wrapping_add(1)).0;
    let s3 = s2.read8(lin.wrapping_add(2)).0;
    lemma_byte_read_grows(s, lin);
    lemma_byte_read_grows(s1, lin.wrapping_add(1));
    lemma_byte_read_grows(s2, lin.wrapping_add(2));
    lemma_byte_read_grows(s3, lin.wrapping_add(2).wrapping_add(1));
}

proof fn lemma_byte_read_grows(s: State, lin: u32)
    ensures
        forall|m: Mark| s.marks.contains(m) ==> #[trigger] s.read8(lin).0.marks.contains(m),
{
    reveal(State::read8);
    lemma_walk_grows(s, lin, false);
}

proof fn lemma_raised(s: State, marks: Seq<Mark>, m: Mark)
    ensures
        s.has_bit(m) || raised(s, marks, m).contains(m),
        forall|q: Mark| marks.contains(q) ==> #[trigger] raised(s, marks, m).contains(q),
{
    let after = marks.push(m);
    assert(after[marks.len() as int] == m);
    assert forall|q: Mark| marks.contains(q) implies #[trigger] raised(s, marks, m).contains(q) by {
        let j = choose|j: int| 0 <= j < marks.len() && marks[j] == q;
        assert(after[j] == q);
    }
}

proof fn lemma_or_bits(b: u8)
    by (bit_vector)
    ensures
        (b | 0x20) & 0x20 != 0,
        (b | 0x40) & 0x40 != 0,
        b & 0x20 != 0 ==> (b | 0x40) & 0x20 != 0,
        b & 0x40 != 0 ==> (b | 0x20) & 0x40 != 0,
        0xFFu8 & 0x20 != 0,
        0xFFu8 & 0x40 != 0,
{
}

proof fn lemma_masked(b: u8, c: u32)
    by (bit_vector)
    requires
        c % 0x100 == 0,
    ensures
        (((b | 0x20) as u32 + c) as u32) & 0xFFFF_F007 == ((b as u32 + c) as u32) & 0xFFFF_F007,
        (((b | 0x40) as u32 + c) as u32) & 0xFFFF_F007 == ((b as u32 + c) as u32) & 0xFFFF_F007,
{
}

proof fn lemma_entries_alike(p: u32, q: u32, r: u32, t: u32)
    by (bit_vector)
    requires
        p & 0xFFFF_F007 == q & 0xFFFF_F007,
        r & 0xFFFF_F007 == t & 0xFFFF_F007,
    ensures
        p & 0xFFFF_F000 == q & 0xFFFF_F000,
        r & 0xFFFF_F000 == t & 0xFFFF_F000,
        p & 1 == q & 1,
        r & 1 == t & 1,
        (p & r) & 4 == (q & t) & 4,
        (p & r) & 2 == (q & t) & 2,
{
}

/// The tables of two states say the same but for what was accessed and written.
spec fn tables_alike(s: State, t: State) -> bool {
    forall|e: u32|
        e % 4 == 0 ==> #[trigger] s.phys32(e) & 0xFFFF_F007 == t.phys32(e) & 0xFFFF_F007
}

proof fn lemma_tables_alike(s: State, t: State, lin: u32, write: bool)
    requires
        tables_alike(s, t),
        s.cpu == t.cpu,
        s.sys_access == t.sys_access,
    ensures
        t.translate(lin, write) == s.translate(lin, write),
        t.pte_at(lin) == s.pte_at(lin),
{
    reveal(State::translate);
    let pde = s.pde_at(lin);
    crate::machine::lemma_entry_places(s.cpu.cr3, lin);
    crate::machine::lemma_entry_places(s.phys32(pde), lin);
    assert(s.phys32(pde) & 0xFFFF_F007 == t.phys32(pde) & 0xFFFF_F007);
    lemma_entries_alike(s.phys32(pde), t.phys32(pde), 0, 0);
    let pte = s.pte_at(lin);
    assert(s.phys32(pte) & 0xFFFF_F007 == t.phys32(pte) & 0xFFFF_F007);
    lemma_entries_alike(s.phys32(pde), t.phys32(pde), s.phys32(pte), t.phys32(pte));
}

/// A bit that is written to a table.
proof fn lemma_bit_set(s: State, m: Mark)
    ensures
        ({
            let t = s.with_phys8(m.at(), s.phys8(m.at()) | m.bit());
            &&& t == (State { mem: t.mem, dcache: t.dcache, ..s })
            &&& t.mem.len() == s.mem.len()
            &&& t.has_bit(m)
            &&& forall|q: Mark| s.has_bit(q) ==> #[trigger] t.has_bit(q)
            &&& tables_alike(s, t)
        }),
{
    let t = s.with_phys8(m.at(), s.phys8(m.at()) | m.bit());
    let b = s.phys8(m.at());
    reveal(State::with_phys8);
    reveal(State::phys8);
    lemma_or_bits(b);
    assert forall|e: u32| e % 4 == 0 implies #[trigger] s.phys32(e) & 0xFFFF_F007 == t.phys32(e)
        & 0xFFFF_F007 by {
        reveal(State::phys32);
        if e == m.at() {
            let c = (0x100 * s.phys8(e.wrapping_add(1)) + 0x1_0000 * s.phys8(e.wrapping_add(2))
                + 0x100_0000 * s.phys8(e.wrapping_add(3))) as u32;
            lemma_masked(b, c);
        }
    }
}

proof fn lemma_flushed_from(s: State, marks: Seq<Mark>, k: nat)
    ensures
        ({
            let t = s.flushed_from(marks, k);
            &&& t == (State { mem: t.mem, dcache: t.dcache, ..s })
            &&& t.mem.len() == s.mem.len()
            &&& forall|q: Mark| s.has_bit(q) ==> #[trigger] t.has_bit(q)
            &&& forall|j: int| k <= j < marks.len() ==> t.has_bit(#[trigger] marks[j])
            &&& tables_alike(s, t)
        }),
    decreases marks.len() - k,
{
    if k < marks.len() {
        let m = marks[k as int];
        let u = s.with_phys8(m.at(), s.phys8(m.at()) | m.bit());
        lemma_bit_set(s, m);
        lemma_flushed_from(u, marks, k + 1);
        let t = s.flushed_from(marks, k);
        assert(t.has_bit(m));
        assert forall|e: u32| e % 4 == 0 implies #[trigger] s.phys32(e) & 0xFFFF_F007 == t.phys32(e)
            & 0xFFFF_F007 by {
            assert(u.phys32(e) & 0xFFFF_F007 == t.phys32(e) & 0xFFFF_F007);
        }
    }
}

/// Writing the bits to the tables changes no more than memory, and no translation.
pub proof fn law_flush(s: State, lin: u32, write: bool)
    ensures
        ({
            let t = s.flushed();
            &&& t == (State { mem: t.mem, dcache: t.dcache, marks: Seq::empty(), ..s })
            &&& t.mem.len() == s.mem.len()
            &&& t.translate(lin, write) == s.translate(lin, write)
            &&& forall|m: Mark| s.marks.contains(m) || s.has_bit(m) ==> #[trigger] t.has_bit(m)
        }),
{
    reveal(State::flushed);
    let u = State { marks: Seq::empty(), ..s };
    let t = s.flushed();
    lemma_flushed_from(u, s.marks, 0);
    lemma_tables_alike(u, t, lin, write);
    crate::cpu::dcache::agreement::fetch::lemma_translate_same(u, s, lin, write);
    assert forall|m: Mark| s.marks.contains(m) || s.has_bit(m) implies #[trigger] t.has_bit(m) by {
        if s.marks.contains(m) {
            let j = choose|j: int| 0 <= j < s.marks.len() && s.marks[j] == m;
            assert(t.has_bit(s.marks[j]));
        } else {
            assert(u.has_bit(m)) by {
                reveal(State::phys8);
            }
        }
    }
}

/// After an access both entries of its page say that it was accessed, and after a write
/// that it is dirty; a walk then raises nothing more.
pub proof fn law_walk_reaches_tables(s: State, lin: u32, write: bool)
    requires
        s.cpu.pg(),
    ensures
        ({
            let t = s.walked(lin, write).flushed();
            &&& t.pde_at(lin) == s.pde_at(lin)
            &&& t.pte_at(lin) == s.pte_at(lin)
            &&& t.has_bit(mark_of(s.pde_at(lin), false))
            &&& t.has_bit(mark_of(s.pte_at(lin), false))
            &&& write ==> t.has_bit(mark_of(s.pte_at(lin), true))
            &&& t.quiet(lin, write)
            &&& t.quiet(lin, false)
        }),
{
    let u = s.walked(lin, write);
    let t = u.flushed();
    lemma_walk_grows(s, lin, write);
    law_flush(u, lin, write);
    assert(t.pte_at(lin) == u.pte_at(lin)) by {
        reveal(State::flushed);
        let v = State { marks: Seq::empty(), ..u };
        lemma_flushed_from(v, u.marks, 0);
        lemma_tables_alike(v, t, lin, write);
        reveal(State::phys32);
        reveal(State::phys8);
    }
    assert(u.pte_at(lin) == s.pte_at(lin)) by {
        reveal(State::phys32);
        reveal(State::phys8);
    }
    lemma_quiet_is_raised(u, lin, write);
    lemma_quiet_is_raised(t, lin, write);
    lemma_quiet_is_raised(t, lin, false);
    assert(t.has_bit(mark_of(s.pde_at(lin), false)));
    assert(t.has_bit(mark_of(s.pte_at(lin), false)));
}

/// A write to a place apart from the tables leaves what a walk raises alone.
pub proof fn lemma_walk_apart(s: State, lin: u32, pa: u32, v: u8, write: bool)
    requires
        s.apart(lin, pa),
    ensures
        s.with_phys8(pa, v).quiet(lin, write) == s.quiet(lin, write),
{
    reveal(State::with_phys8);
    let t = s.with_phys8(pa, v);
    if s.cpu.pg() {
        crate::machine::lemma_entry_places(s.cpu.cr3, lin);
        crate::machine::lemma_entry_places(s.phys32(s.pde_at(lin)), lin);
        crate::machine::lemma_entry_kept(s, s.pde_at(lin), pa, v);
        crate::machine::lemma_entry_kept(s, s.pte_at(lin), pa, v);
        reveal(State::phys8);
        lemma_quiet_is_raised(s, lin, write);
        lemma_quiet_is_raised(t, lin, write);
    }
}

} // verus!
