//! The repetition of MOVS and STOS a page at a time.
//!
//! A fill or a copy that runs up in memory translates once for each page and moves
//! whole runs of elements. It does exactly what the elements would do one by one;
//! what does not fit that way (an element across pages, a fault, page tables that
//! the run would write to) is left to them.

use vstd::prelude::*;
use crate::cpu::dcache::CacheState;
use crate::cpu::operand::{segment_of, Decoder};
use crate::cpu::state::{Cpu, CX, DF, DI, DS, ES, SI};
use crate::cpu::string::{element, element_size};
use crate::machine::{byte_of, Machine, State};
use crate::walk::Mark;

verus! {

impl State {
    /// Writing to a physical page leaves the translation of an address alone.
    #[verifier::opaque]
    pub open spec fn tables_clear(self, lin: u32, page: u32) -> bool {
        !self.cpu.pg() || (self.pde_at(lin) / 0x1000 != page && self.pte_at(lin) / 0x1000 != page)
    }
}

/// Only one physical page, the registers and what is kept of decoded code differ.
#[verifier::opaque]
spec fn page_differs(s: State, t: State, page: u32) -> bool {
    &&& t.mem.len() == s.mem.len()
    &&& t.cpu == (Cpu { regs: t.cpu.regs, ..s.cpu })
    &&& t.sys_access == s.sys_access
    &&& forall|i: int|
        0 <= i < s.mem.len() && i / 0x1000 != page ==> #[trigger] t.mem[i] == s.mem[i]
}

proof fn lemma_entry_same(s: State, t: State, a: u32, page: u32)
    requires
        page_differs(s, t, page),
        a % 4 == 0,
        a / 0x1000 != page,
    ensures
        s.phys32(a) == t.phys32(a),
{
    reveal(page_differs);
    reveal(State::phys32);
    reveal(State::phys8);
}

/// What a page walk raises in one state is noted in another.
spec fn covers(s: State, t: State, lin: u32, write: bool) -> bool {
    forall|m: Mark| s.walked(lin, write).marks.contains(m) ==> #[trigger] t.marks.contains(m)
}

/// The addresses of a page are translated alike, also after another page was written.
proof fn lemma_translated_alike(s: State, t: State, lin: u32, i: u32, write: bool, page: u32)
    requires
        page_differs(s, t, page),
        s.translate(lin, write) is Ok,
        s.tables_clear(lin, page),
        lin % 0x1000 + i < 0x1000,
    ensures
        lin + i <= u32::MAX,
        s.translate(lin, write)->Ok_0 + i <= u32::MAX,
        s.translate(lin, write)->Ok_0 % 0x1000 == lin % 0x1000,
        t.translate((lin + i) as u32, write) == Ok::<u32, crate::machine::Fault>(
            (s.translate(lin, write)->Ok_0 + i) as u32,
        ),
        t.tables_clear((lin + i) as u32, page),
        covers(s, t, lin, write) ==> t.quiet((lin + i) as u32, write),
{
    reveal(State::translate);
    reveal(State::tables_clear);
    reveal(page_differs);
    let pde = s.phys32(s.pde_at(lin));
    let pte = s.phys32(s.pte_at(lin));
    crate::cpu::dcache::agreement::fetch::lemma_page(lin, pte, i);
    crate::cpu::dcache::agreement::fetch::lemma_low_bits(lin, pte);
    if s.cpu.pg() {
        crate::machine::lemma_entry_places(s.cpu.cr3, lin);
        crate::machine::lemma_entry_places(pde, lin);
        lemma_entry_same(s, t, s.pde_at(lin), page);
        lemma_entry_same(s, t, s.pte_at(lin), page);
        assert(t.phys8(s.pde_at(lin)) == s.phys8(s.pde_at(lin)) && t.phys8(s.pte_at(lin))
            == s.phys8(s.pte_at(lin))) by {
            reveal(State::phys8);
        }
        let w = s.walked(lin, write);
        crate::walk::lemma_walk_grows(s, lin, write);
        assert(w.pte_at(lin) == s.pte_at(lin) && w.phys8(s.pde_at(lin)) == s.phys8(s.pde_at(lin))
            && w.phys8(s.pte_at(lin)) == s.phys8(s.pte_at(lin))) by {
            reveal(State::phys32);
            reveal(State::phys8);
        }
        crate::walk::lemma_quiet_is_raised(w, lin, write);
        crate::walk::lemma_quiet_is_raised(t, (lin + i) as u32, write);
    }
}

/// Where the next element of a run is.
proof fn lemma_next_place(s: State, t: State, la: u32, n: int, size: u32, write: bool, page: u32)
    requires
        page_differs(s, t, page),
        s.translate(la, write) is Ok,
        s.tables_clear(la, page),
        0 <= n,
        la % 0x1000 + n + size <= 0x1000,
        0 < size,
    ensures
        ({
            let pa = s.translate(la, write)->Ok_0;
            &&& la + n + size <= 0x1_0000_0000
            &&& pa + n + size <= 0x1_0000_0000
            &&& pa % 0x1000 == la % 0x1000
            &&& (pa + n) % 0x1000 == la % 0x1000 + n
            &&& forall|i: u32|
                i < size ==> t.translate(#[trigger] ((la + n) as u32).wrapping_add(i), write)
                    == Ok::<u32, crate::machine::Fault>((pa + n + i) as u32) && (covers(s, t, la, write)
                    ==> t.quiet(((la + n) as u32).wrapping_add(i), write))
        }),
{
    let pa = s.translate(la, write)->Ok_0;
    lemma_translated_alike(s, t, la, (n + size - 1) as u32, write, page);
    assert forall|i: u32| i < size implies t.translate(
        #[trigger] ((la + n) as u32).wrapping_add(i),
        write,
    ) == Ok::<u32, crate::machine::Fault>((pa + n + i) as u32) && (covers(s, t, la, write) ==> t.quiet(
        ((la + n) as u32).wrapping_add(i),
        write,
    )) by {
        lemma_translated_alike(s, t, la, (n + i) as u32, write, page);
    }
}

proof fn lemma_noted_once(c: CacheState, a: u32, b: u32)
    requires
        a / 0x1000 == b / 0x1000,
    ensures
        c.noted(a).noted(b) == c.noted(a),
        c.noted(a) == c.noted(b),
{
}

/// An offset that stays in the page stays behind the address.
proof fn lemma_address_in_page(c: Cpu, seg: usize, off: u32, by: u32)
    requires
        seg < 6,
        c.lin(seg, off) % 0x1000 + by < 0x1000,
    ensures
        c.lin(seg, off.wrapping_add(by)) == c.lin(seg, off) + by,
{
    let a = c.seg_base(seg).wrapping_add(off);
    let b = c.seg_base(seg).wrapping_add(off.wrapping_add(by));
    lemma_low_part(a, by);
    assert(b == a + by) by {
        lemma_sum(c.seg_base(seg), off, by);
    }
}

proof fn lemma_sum(base: u32, off: u32, by: u32)
    requires
        base.wrapping_add(off) + by <= u32::MAX,
    ensures
        base.wrapping_add(off.wrapping_add(by)) == base.wrapping_add(off) + by,
{
}

proof fn lemma_low_part(a: u32, by: u32)
    requires
        a % 0x1000 + by < 0x1000 || (a & 0xF_FFFF) % 0x1000 + by < 0x1000,
    ensures
        a + by <= u32::MAX,
        ((a + by) as u32) & 0xF_FFFF == (a & 0xF_FFFF) + by,
{
    assert(a + by <= 0xFFFF_FFFF && ((a + by) as u32) & 0xF_FFFF == (a & 0xF_FFFF) + by)
        by (bit_vector)
        requires
            a % 0x1000 + by < 0x1000 || (a & 0xF_FFFF) % 0x1000 + by < 0x1000,
    ;
}

/// An element that is written within a page of memory.
#[verifier::spinoff_prover]
#[verifier::rlimit(60)]
proof fn lemma_element_put(s: State, lin: u32, pa: u32, v: u32, size: u32)
    requires
        size == 1 || size == 2 || size == 4,
        pa % 0x1000 + size <= 0x1000,
        pa + size <= s.mem.len(),
        lin % 0x1000 + size <= 0x1000,
        forall|i: u32|
            i < size ==> s.translate(#[trigger] lin.wrapping_add(i), true) == Ok::<
                u32,
                crate::machine::Fault,
            >((pa + i) as u32) && s.quiet(lin.wrapping_add(i), true),
    ensures
        ({
            let t = s.write_element(lin, v, size);
            &&& t == (State { mem: t.mem, dcache: s.dcache.noted(pa), ..s })
            &&& t.mem.len() == s.mem.len()
            &&& forall|i: int|
                0 <= i < s.mem.len() ==> #[trigger] t.mem[i] == (if pa <= i < pa + size {
                    byte_of(v, (i - pa) as u32)
                } else {
                    s.mem[i]
                })
        }),
{
    reveal(State::write_element);
    reveal(State::write8);
    reveal(State::write16);
    reveal(State::write32);
    reveal(State::with_phys8);
    crate::cpu::repeat::lemma_low_byte(v);
    assert(lin.wrapping_add(0) == lin);
    assert(s.translate(lin.wrapping_add(0), true) is Ok);
    assert(s.translate(lin.wrapping_add(1), true) == s.translate(lin.wrapping_add(1), true));
    assert(s.translate(lin.wrapping_add(2), true) == s.translate(lin.wrapping_add(2), true));
    assert(s.translate(lin.wrapping_add(3), true) == s.translate(lin.wrapping_add(3), true));
    if size == 2 {
        lemma_noted_once(s.dcache, pa, (pa + 1) as u32);
    } else if size == 4 {
        lemma_noted_once(s.dcache, pa, (pa + 1) as u32);
        lemma_noted_once(s.dcache, pa, (pa + 2) as u32);
        lemma_noted_once(s.dcache, pa, (pa + 3) as u32);
    }
}

/// Memory with `n` bytes from `pa` on filled.
spec fn filled_memory(mem: Seq<u8>, pa: int, n: int, v: u32, size: int) -> Seq<u8> {
    Seq::new(
        mem.len(),
        |i: int|
            if pa <= i < pa + n {
                byte_of(v, ((i - pa) % size) as u32)
            } else {
                mem[i]
            },
    )
}

/// The state after `k` elements of a fill within a page, which are `n` bytes.
#[verifier::opaque]
spec fn filled_run(s: State, d: Decoder, op: u8, pa: u32, k: int, n: int) -> State {
    let size = element_size(&d, op);
    State {
        mem: filled_memory(s.mem, pa as int, n, s.cpu.element(size), size as int),
        dcache: if k == 0 {
            s.dcache
        } else {
            s.dcache.noted(pa)
        },
        cpu: s.cpu.with_reg(DI, ((s.cpu.regs[DI as int] + n) % 0x1_0000_0000) as u32).with_reg(
            CX,
            (s.cpu.regs[CX as int] - k) as u32,
        ),
        ..s
    }
}

impl State {
    /// A repetition with wide addresses that runs up and has not faulted.
    pub open spec fn repeats_up(self, d: Decoder) -> bool {
        &&& d.rep is Some
        &&& d.addrsize32
        &&& !self.cpu.flag(DF)
        &&& self.pending_fault is None
    }

    /// A run at an address, of so many bytes, stays in a page and in memory, and the
    /// page tables are elsewhere.
    pub open spec fn run_fits(self, la: u32, write: bool, n: int, page: u32) -> bool {
        &&& self.translate(la, write) matches Ok(pa) && pa + n <= self.mem.len()
        &&& la % 0x1000 + n <= 0x1000
        &&& self.tables_clear(la, page)
    }

    /// The same, and the page tables say already what a walk raises.
    pub open spec fn run_ready(self, la: u32, write: bool, n: int, page: u32) -> bool {
        self.run_fits(la, write, n, page) && self.quiet(la, write)
    }
}

/// An element that is done and counted takes the instruction on.
proof fn lemma_exec_on(t: State, d: Decoder, op: u8, w: State, u: State)
    requires
        d.rep is Some,
        d.addrsize32,
        t.pending_fault is None,
        u.pending_fault is None,
        t.cpu.regs[CX as int] > 0,
        op == 0xA4 || op == 0xA5 || op == 0xAA || op == 0xAB,
        t.string_once(d, op) == Some((w, false)),
        u == w.with_cpu(w.cpu.with_reg(CX, w.cpu.regs[CX as int].wrapping_sub(1))),
    ensures
        t.string_exec(d, op) == u.string_exec(d, op),
{
    reveal_with_fuel(State::string_exec, 2);
}

/// The processor after `k` elements of a fill.
proof fn lemma_filled_cpu(s: State, d: Decoder, op: u8, pa: u32, k: int, n: int)
    requires
        d.addrsize32,
        !s.cpu.flag(DF),
        0 <= k < s.cpu.regs[CX as int],
        0 <= n,
        op == 0xAA || op == 0xAB,
    ensures
        ({
            let size = element_size(&d, op);
            let c = filled_run(s, d, op, pa, k, n).cpu;
            let c1 = c.stepped(DI, true, size);
            &&& c1.with_reg(CX, c1.regs[CX as int].wrapping_sub(1)) == filled_run(
                s,
                d,
                op,
                pa,
                k + 1,
                n + size,
            ).cpu
            &&& c1.regs[CX as int] == s.cpu.regs[CX as int] - k
            &&& c.regs[CX as int] > 0
            &&& c.element(size) == s.cpu.element(size)
        }),
{
    reveal(filled_run);
    reveal(Cpu::element);
    let size = element_size(&d, op);
    let t = filled_run(s, d, op, pa, k, n);
    let a = s.cpu.with_reg(DI, ((s.cpu.regs[DI as int] + n) % 0x1_0000_0000) as u32);
    crate::cpu::repeat::lemma_moved(s.cpu, DI, 0);
    crate::cpu::repeat::lemma_moved(a, CX, 0);
    crate::cpu::repeat::lemma_moved(t.cpu, DI, size);
    let c1 = t.cpu.stepped(DI, true, size);
    let c2 = c1.with_reg(CX, c1.regs[CX as int].wrapping_sub(1));
    assert(c2.regs =~= filled_run(s, d, op, pa, k + 1, n + size).cpu.regs);
}

proof fn lemma_filled_memory(mem: Seq<u8>, after: Seq<u8>, pa: int, n: int, v: u32, size: int)
    requires
        size > 0,
        n >= 0,
        n % size == 0,
        after.len() == mem.len(),
        forall|i: int|
            0 <= i < mem.len() ==> #[trigger] after[i] == (if pa + n <= i < pa + n + size {
                byte_of(v, (i - pa - n) as u32)
            } else {
                filled_memory(mem, pa, n, v, size)[i]
            }),
    ensures
        after == filled_memory(mem, pa, n + size, v, size),
{
    let want = filled_memory(mem, pa, n + size, v, size);
    assert forall|i: int| 0 <= i < mem.len() implies #[trigger] after[i] == want[i] by {
        if pa + n <= i < pa + n + size {
            let q = n / size;
            vstd::arithmetic::div_mod::lemma_fundamental_div_mod(n, size);
            vstd::arithmetic::div_mod::lemma_mod_multiples_vanish(q, i - pa - n, size);
            vstd::arithmetic::div_mod::lemma_small_mod((i - pa - n) as nat, size as nat);
        }
    }
    assert(after =~= want);
}

/// The state that the elements so far have left.
proof fn lemma_filled_state(s: State, d: Decoder, op: u8, la: u32, pa: u32, k: int, n: int)
    requires
        op == 0xAA || op == 0xAB,
        s.repeats_up(d),
        la == s.destination(d),
        pa % 0x1000 == la % 0x1000,
        0 <= n,
        la % 0x1000 + n < 0x1000,
    ensures
        ({
            let t = filled_run(s, d, op, pa, k, n);
            &&& page_differs(s, t, pa / 0x1000)
            &&& t.marks == s.marks
            &&& t.destination(d) == la + n
            &&& t.pending_fault is None
            &&& t.mem.len() == s.mem.len()
        }),
{
    reveal(filled_run);
    reveal(page_differs);
    lemma_address_in_page(s.cpu, ES, s.cpu.regs[DI as int], n as u32);
}

/// The element that is put behind those so far.
proof fn lemma_filled_next(s: State, d: Decoder, op: u8, pa: u32, k: int, n: int, w: State)
    requires
        op == 0xAA || op == 0xAB,
        0 <= k,
        0 <= n,
        n % (element_size(&d, op) as int) == 0,
        pa + n <= u32::MAX,
        pa % 0x1000 + n < 0x1000,
        ({
            let size = element_size(&d, op);
            let t = filled_run(s, d, op, pa, k, n);
            &&& w == (State { mem: w.mem, dcache: t.dcache.noted((pa + n) as u32), ..t })
            &&& w.mem.len() == t.mem.len()
            &&& forall|i: int|
                0 <= i < t.mem.len() ==> #[trigger] w.mem[i] == (if pa + n <= i < pa + n + size {
                    byte_of(s.cpu.element(size), (i - (pa + n)) as u32)
                } else {
                    t.mem[i]
                })
        }),
    ensures
        ({
            let u = filled_run(s, d, op, pa, k + 1, n + element_size(&d, op));
            w.with_cpu(u.cpu) == u && u.pending_fault == s.pending_fault
        }),
{
    reveal(filled_run);
    let size = element_size(&d, op);
    lemma_filled_memory(s.mem, w.mem, pa as int, n, s.cpu.element(size), size as int);
    lemma_noted_once(s.dcache, pa, (pa + n) as u32);
}

/// One element more of a fill within a page.
proof fn lemma_fill_on(s: State, d: Decoder, op: u8, la: u32, pa: u32, k: int, n: int)
    requires
        op == 0xAA || op == 0xAB,
        s.repeats_up(d),
        la == s.destination(d),
        s.translate(la, true) == Ok::<u32, crate::machine::Fault>(pa),
        0 <= k < s.cpu.regs[CX as int],
        0 <= n,
        n % (element_size(&d, op) as int) == 0,
        s.run_ready(la, true, n + element_size(&d, op), pa / 0x1000),
    ensures
        filled_run(s, d, op, pa, k, n).string_exec(d, op) == filled_run(
            s,
            d,
            op,
            pa,
            k + 1,
            n + element_size(&d, op),
        ).string_exec(d, op),
{
    let size = element_size(&d, op);
    let v = s.cpu.element(size);
    let t = filled_run(s, d, op, pa, k, n);
    assert(page_differs(s, s, pa / 0x1000)) by {
        reveal(page_differs);
    }
    lemma_next_place(s, s, la, n, size, true, pa / 0x1000);
    lemma_filled_cpu(s, d, op, pa, k, n);
    lemma_filled_state(s, d, op, la, pa, k, n);
    lemma_next_place(s, t, la, n, size, true, pa / 0x1000);
    let at = (la + n) as u32;
    lemma_element_put(t, at, (pa + n) as u32, v, size);
    let w = t.write_element(at, v, size);
    lemma_filled_next(s, d, op, pa, k, n, w);
    let u = filled_run(s, d, op, pa, k + 1, n + size);
    let w1 = w.with_cpu(t.cpu.stepped(DI, true, size));
    assert(t.string_once(d, op) == Some((w1, false))) by {
        reveal(State::string_once);
    }
    assert(u == w1.with_cpu(w1.cpu.with_reg(CX, w1.cpu.regs[CX as int].wrapping_sub(1))));
    lemma_exec_on(t, d, op, w1, u);
}

/// A run of a fill is so many elements of it.
proof fn lemma_fill_run(s: State, d: Decoder, op: u8, la: u32, pa: u32, k: int, n: int)
    requires
        op == 0xAA || op == 0xAB,
        s.repeats_up(d),
        la == s.destination(d),
        s.translate(la, true) == Ok::<u32, crate::machine::Fault>(pa),
        0 <= k <= s.cpu.regs[CX as int],
        n == element_size(&d, op) * k,
        s.run_ready(la, true, n, pa / 0x1000),
    ensures
        s.string_exec(d, op) == filled_run(s, d, op, pa, k, n).string_exec(d, op),
    decreases k,
{
    let size = element_size(&d, op);
    if k == 0 {
        reveal(filled_run);
        let t = filled_run(s, d, op, pa, 0, 0);
        assert(t.mem =~= s.mem);
        assert(t.cpu.regs =~= s.cpu.regs);
        assert(n == 0);
        assert(t == s);
    } else {
        let before = n - size;
        assert(before == size * (k - 1) && before >= 0) by (nonlinear_arith)
            requires
                n == size * k,
                before == n - size,
                k > 0,
        ;
        assert(before % (size as int) == 0) by {
            vstd::arithmetic::div_mod::lemma_mod_multiples_basic(k - 1, size as int);
            assert(size * (k - 1) == (k - 1) * size) by (nonlinear_arith);
        }
        lemma_fill_run(s, d, op, la, pa, k - 1, before);
        lemma_fill_on(s, d, op, la, pa, k - 1, before);
    }
}

fn tables_clear(m: &Machine, lin: u32, page: u32) -> (r: bool)
    ensures
        r == m@.tables_clear(lin, page),
{
    proof {
        reveal(State::tables_clear);
    }
    if !m.cpu.pg() {
        return true;
    }
    let at: u32 = (m.cpu.cr3 & 0xFFFF_F000) | ((lin >> 22) << 2);
    let pde: u32 = m.read_phys32(at);
    at / 0x1000 != page && ((pde & 0xFFFF_F000) | (((lin >> 12) & 0x3FF) << 2)) / 0x1000 != page
}

fn fill_bytes(mem: &mut Vec<u8>, pa: usize, n: usize, v: u32, size: u32)
    requires
        pa + n <= old(mem)@.len(),
        0 < size <= 4,
    ensures
        final(mem)@ == filled_memory(old(mem)@, pa as int, n as int, v, size as int),
{
    let mut i: usize = 0;
    let have: usize = mem.len();
    while i < n
        invariant
            0 < size <= 4,
            i <= n,
            pa + n <= have,
            mem@.len() == have,
            mem@.len() == old(mem)@.len(),
            mem@ =~= filled_memory(old(mem)@, pa as int, i as int, v, size as int),
        decreases n - i,
    {
        let b: u8 = byte_of(v, (i % size as usize) as u32);
        mem.set(pa + i, b);
        i = i + 1;
    }
}

impl State {
    /// At least one element of a fill can be done as a run.
    pub open spec fn fill_ready(self, d: Decoder, op: u8) -> bool {
        let la = self.destination(d);
        &&& self.cpu.regs[CX as int] > 0
        &&& self.translate(la, true) matches Ok(pa) && self.run_ready(
            la,
            true,
            element_size(&d, op) as int,
            pa / 0x1000,
        )
    }
}

/// The elements of a run, at most `cx`, that has room for so many bytes.
fn run_length(cx: u32, size: u32, la: u32, pa: u32, have: u64) -> (k: u32)
    requires
        cx > 0,
        0 < size <= 4,
        la % 0x1000 + size <= 0x1000,
        pa + size <= have,
    ensures
        0 < k <= cx,
        la % 0x1000 + size * k <= 0x1000,
        pa + size * k <= have,
{
    let in_page: u64 = 0x1000 - (la % 0x1000) as u64;
    let room: u64 = if in_page < have - pa as u64 {
        in_page
    } else {
        have - pa as u64
    };
    let fit: u64 = room / size as u64;
    let k: u32 = if (cx as u64) < fit {
        cx
    } else {
        fit as u32
    };
    proof {
        lemma_run_length(room as int, size as int, fit as int, k as int);
    }
    k
}

/// Does a run of a fill that fits.
fn fill_run(m: &mut Machine, d: &Decoder, op: u8, la: u32, pa: u32, k: u32)
    requires
        d.wf(),
        op == 0xAA || op == 0xAB,
        old(m)@.repeats_up(*d),
        la == old(m)@.destination(*d),
        old(m)@.translate(la, true) == Ok::<u32, crate::machine::Fault>(pa),
        0 < k <= old(m)@.cpu.regs[CX as int],
        old(m)@.run_ready(la, true, element_size(d, op) * k, pa / 0x1000),
    ensures
        final(m)@.string_exec(*d, op) == old(m)@.string_exec(*d, op),
        final(m)@.repeats_up(*d),
        final(m)@.cpu.regs[CX as int] == old(m)@.cpu.regs[CX as int] - k,
{
    let size: u32 = element_size(d, op);
    let cx: u32 = m.cpu.reg32(CX);
    let di: u32 = m.cpu.reg32(DI);
    assert(k * size == size * k && size * k <= 0x1000) by (nonlinear_arith)
        requires
            size * k <= 0x1000,
    ;
    let n: u32 = k * size;
    let v: u32 = element(&m.cpu, size);
    fill_bytes(&mut m.mem, pa as usize, n as usize, v, size);
    m.dcache.note_write(pa);
    m.cpu.set_reg32(DI, di.wrapping_add(n));
    m.cpu.set_reg32(CX, cx - k);
    proof {
        let before = old(m)@;
        lemma_fill_run(before, *d, op, la, pa, k as int, n as int);
        assert(m@ == filled_run(before, *d, op, pa, k as int, n as int)) by {
            reveal(filled_run);
        }
        let c1 = before.cpu.with_reg(DI, di.wrapping_add(n));
        crate::cpu::repeat::lemma_moved(before.cpu, DI, 0);
        crate::cpu::repeat::lemma_moved(c1, CX, 0);
    }
}

/// Fills page by page. What is left is done element by element.
pub fn bulk_stos(m: &mut Machine, d: &Decoder, op: u8)
    requires
        d.wf(),
        op == 0xAA || op == 0xAB,
        old(m)@.repeats_up(*d),
    ensures
        final(m)@.string_exec(*d, op) == old(m)@.string_exec(*d, op),
        !final(m)@.fill_ready(*d, op),
{
    let size: u32 = element_size(d, op);
    let mut go = true;
    while go
        invariant
            d.wf(),
            op == 0xAA || op == 0xAB,
            size == element_size(d, op),
            m@.repeats_up(*d),
            m@.string_exec(*d, op) == old(m)@.string_exec(*d, op),
            !go ==> !m@.fill_ready(*d, op),
        decreases m@.cpu.regs[CX as int], (if go { 1int } else { 0int }),
    {
        let cx: u32 = m.cpu.reg32(CX);
        let la: u32 = m.cpu.lin(ES, m.cpu.reg32(DI));
        let have: u64 = m.mem.len() as u64;
        go = false;
        if cx != 0 && la % 0x1000 + size <= 0x1000 {
            if let Ok(pa) = m.translate_for(la, true) {
                if pa as u64 + size as u64 <= have && tables_clear(m, la, pa / 0x1000)
                    && m.walk_is_quiet(la, true) {
                    let k: u32 = run_length(cx, size, la, pa, have);
                    fill_run(m, d, op, la, pa, k);
                    go = true;
                }
            }
        }
    }
}

proof fn lemma_run_length(room: int, size: int, fit: int, k: int)
    requires
        0 < size <= room,
        fit == room / size,
        k <= fit,
    ensures
        fit >= 1,
        k >= 1 ==> size * k <= room,
        k * size == size * k,
        k * size <= room,
{
    assert(fit >= 1 && size * fit <= room && (k <= fit ==> size * k <= size * fit) && k * size
        == size * k) by (nonlinear_arith)
        requires
            0 < size <= room,
            fit == room / size,
            k <= fit,
    ;
}

/// An element that is read within a page of memory.
proof fn lemma_element_got(s: State, lin: u32, pa: u32, size: u32)
    requires
        size == 1 || size == 2 || size == 4,
        pa + size <= s.mem.len(),
        pa + size <= 0x1_0000_0000,
        forall|i: u32|
            i < size ==> s.translate(#[trigger] lin.wrapping_add(i), false) == Ok::<
                u32,
                crate::machine::Fault,
            >((pa + i) as u32) && s.quiet(lin.wrapping_add(i), false),
    ensures
        s.read_element(lin, size).0 == s,
        forall|b: int|
            0 <= b < size ==> byte_of(s.read_element(lin, size).1, b as u32) == #[trigger] s.mem[pa
                + b],
{
    reveal(State::read_element);
    reveal(State::read8);
    reveal(State::read16);
    reveal(State::read32);
    reveal(State::phys8);
    assert(lin.wrapping_add(0) == lin);
    assert(s.translate(lin.wrapping_add(0), false) is Ok);
    assert(s.translate(lin.wrapping_add(1), false) == s.translate(lin.wrapping_add(1), false));
    assert(s.translate(lin.wrapping_add(2), false) == s.translate(lin.wrapping_add(2), false));
    assert(s.translate(lin.wrapping_add(3), false) == s.translate(lin.wrapping_add(3), false));
    assert(lin.wrapping_add(2).wrapping_add(1) == lin.wrapping_add(3));
    if size == 4 {
        crate::machine::law_word_of_bytes(
            s.mem[pa as int],
            s.mem[pa + 1],
            s.mem[pa + 2],
            s.mem[pa + 3],
        );
    }
}

/// Memory with `n` bytes copied.
spec fn copied_memory(mem: Seq<u8>, from: int, to: int, n: int) -> Seq<u8> {
    Seq::new(
        mem.len(),
        |i: int|
            if to <= i < to + n {
                mem[from + (i - to)]
            } else {
                mem[i]
            },
    )
}

/// The state after `k` elements of a copy within a page, which are `n` bytes.
#[verifier::opaque]
spec fn copied_run(s: State, from: u32, to: u32, k: int, n: int) -> State {
    let si = ((s.cpu.regs[SI as int] + n) % 0x1_0000_0000) as u32;
    let di = ((s.cpu.regs[DI as int] + n) % 0x1_0000_0000) as u32;
    State {
        mem: copied_memory(s.mem, from as int, to as int, n),
        dcache: if k == 0 {
            s.dcache
        } else {
            s.dcache.noted(to)
        },
        cpu: s.cpu.with_reg(SI, si).with_reg(DI, di).with_reg(
            CX,
            (s.cpu.regs[CX as int] - k) as u32,
        ),
        ..s
    }
}

/// The processor after `k` elements of a copy.
#[verifier::rlimit(40)]
proof fn lemma_copied_cpu(s: State, from: u32, to: u32, k: int, n: int, size: u32)
    requires
        !s.cpu.flag(DF),
        0 <= k < s.cpu.regs[CX as int],
        0 <= n,
    ensures
        ({
            let c = copied_run(s, from, to, k, n).cpu;
            let c1 = c.stepped(SI, true, size).stepped(DI, true, size);
            &&& c1.with_reg(CX, c1.regs[CX as int].wrapping_sub(1)) == copied_run(
                s,
                from,
                to,
                k + 1,
                n + size,
            ).cpu
            &&& c1.regs[CX as int] == s.cpu.regs[CX as int] - k
            &&& c.regs[CX as int] > 0
        }),
{
    reveal(copied_run);
    let t = copied_run(s, from, to, k, n);
    let a = s.cpu.with_reg(SI, ((s.cpu.regs[SI as int] + n) % 0x1_0000_0000) as u32);
    let b = a.with_reg(DI, ((s.cpu.regs[DI as int] + n) % 0x1_0000_0000) as u32);
    crate::cpu::repeat::lemma_moved(s.cpu, SI, 0);
    crate::cpu::repeat::lemma_moved(a, DI, 0);
    crate::cpu::repeat::lemma_moved(b, CX, 0);
    crate::cpu::repeat::lemma_moved(t.cpu, SI, size);
    crate::cpu::repeat::lemma_moved(t.cpu.stepped(SI, true, size), DI, size);
    let c1 = t.cpu.stepped(SI, true, size).stepped(DI, true, size);
    let c2 = c1.with_reg(CX, c1.regs[CX as int].wrapping_sub(1));
    assert(c2.regs =~= copied_run(s, from, to, k + 1, n + size).cpu.regs);
}

/// A run of a copy stays in its pages and does not run into what it has still to
/// read.
pub open spec fn copy_fits(s: State, sla: u32, dla: u32, from: u32, to: u32, n: int) -> bool {
    &&& s.translate(sla, false) == Ok::<u32, crate::machine::Fault>(from)
    &&& s.translate(dla, true) == Ok::<u32, crate::machine::Fault>(to)
    &&& s.run_ready(sla, false, n, to / 0x1000)
    &&& s.run_ready(dla, true, n, to / 0x1000)
    &&& to <= from || from + n <= to
}

/// The state that the elements so far have left.
proof fn lemma_copied_state(
    s: State,
    d: Decoder,
    sla: u32,
    dla: u32,
    from: u32,
    to: u32,
    k: int,
    n: int,
)
    requires
        d.wf(),
        s.repeats_up(d),
        sla == s.source(d),
        dla == s.destination(d),
        to % 0x1000 == dla % 0x1000,
        0 <= n,
        sla % 0x1000 + n < 0x1000,
        dla % 0x1000 + n < 0x1000,
    ensures
        ({
            let t = copied_run(s, from, to, k, n);
            &&& page_differs(s, t, to / 0x1000)
            &&& t.marks == s.marks
            &&& t.source(d) == sla + n
            &&& t.destination(d) == dla + n
            &&& t.pending_fault is None
            &&& t.mem.len() == s.mem.len()
        }),
{
    reveal(copied_run);
    reveal(page_differs);
    lemma_address_in_page(s.cpu, segment_of(&d, DS), s.cpu.regs[SI as int], n as u32);
    lemma_address_in_page(s.cpu, ES, s.cpu.regs[DI as int], n as u32);
}

/// The element that is put behind those so far.
proof fn lemma_copied_next(
    s: State,
    from: u32,
    to: u32,
    k: int,
    n: int,
    size: u32,
    v: u32,
    w: State,
)
    requires
        0 <= k,
        0 <= n,
        0 < size <= 4,
        to + n <= u32::MAX,
        to % 0x1000 + n < 0x1000,
        from + n + size <= s.mem.len(),
        to <= from || from + n + size <= to,
        ({
            let t = copied_run(s, from, to, k, n);
            &&& w == (State { mem: w.mem, dcache: t.dcache.noted((to + n) as u32), ..t })
            &&& w.mem.len() == t.mem.len()
            &&& forall|b: int|
                0 <= b < size ==> byte_of(v, b as u32) == #[trigger] t.mem[from + n + b]
            &&& forall|i: int|
                0 <= i < t.mem.len() ==> #[trigger] w.mem[i] == (if to + n <= i < to + n + size {
                    byte_of(v, (i - (to + n)) as u32)
                } else {
                    t.mem[i]
                })
        }),
    ensures
        ({
            let u = copied_run(s, from, to, k + 1, n + size);
            w.with_cpu(u.cpu) == u && u.pending_fault == s.pending_fault
        }),
{
    reveal(copied_run);
    let t = copied_run(s, from, to, k, n);
    let u = copied_run(s, from, to, k + 1, n + size);
    assert forall|i: int| 0 <= i < s.mem.len() implies #[trigger] w.mem[i] == u.mem[i] by {
        if to + n <= i < to + n + size {
            let b = i - (to + n);
            assert(t.mem[from + n + b] == s.mem[from + n + b]);
        }
    }
    assert(w.mem =~= u.mem);
    lemma_noted_once(s.dcache, to, (to + n) as u32);
}

/// One element more of a copy within a page.
proof fn lemma_copy_on(
    s: State,
    d: Decoder,
    op: u8,
    sla: u32,
    dla: u32,
    from: u32,
    to: u32,
    k: int,
    n: int,
)
    requires
        op == 0xA4 || op == 0xA5,
        d.wf(),
        s.repeats_up(d),
        sla == s.source(d),
        dla == s.destination(d),
        0 <= k < s.cpu.regs[CX as int],
        0 <= n,
        copy_fits(s, sla, dla, from, to, n + element_size(&d, op)),
    ensures
        copied_run(s, from, to, k, n).string_exec(d, op) == copied_run(
            s,
            from,
            to,
            k + 1,
            n + element_size(&d, op),
        ).string_exec(d, op),
{
    let size = element_size(&d, op);
    let t = copied_run(s, from, to, k, n);
    let page = to / 0x1000;
    assert(page_differs(s, s, page)) by {
        reveal(page_differs);
    }
    lemma_next_place(s, s, sla, n, size, false, page);
    lemma_next_place(s, s, dla, n, size, true, page);
    lemma_copied_cpu(s, from, to, k, n, size);
    lemma_copied_state(s, d, sla, dla, from, to, k, n);
    lemma_next_place(s, t, sla, n, size, false, page);
    lemma_next_place(s, t, dla, n, size, true, page);
    let at = (sla + n) as u32;
    let dest = (dla + n) as u32;
    lemma_element_got(t, at, (from + n) as u32, size);
    let v = t.read_element(at, size).1;
    lemma_element_put(t, dest, (to + n) as u32, v, size);
    let w = t.write_element(dest, v, size);
    lemma_copied_next(s, from, to, k, n, size, v, w);
    let u = copied_run(s, from, to, k + 1, n + size);
    let w1 = w.with_cpu(t.cpu.stepped(SI, true, size).stepped(DI, true, size));
    assert(t.string_once(d, op) == Some((w1, false))) by {
        reveal(State::string_once);
    }
    assert(u == w1.with_cpu(w1.cpu.with_reg(CX, w1.cpu.regs[CX as int].wrapping_sub(1))));
    lemma_exec_on(t, d, op, w1, u);
}

/// A run of a copy is so many elements of it.
proof fn lemma_copy_run(
    s: State,
    d: Decoder,
    op: u8,
    sla: u32,
    dla: u32,
    from: u32,
    to: u32,
    k: int,
    n: int,
)
    requires
        op == 0xA4 || op == 0xA5,
        d.wf(),
        s.repeats_up(d),
        sla == s.source(d),
        dla == s.destination(d),
        0 <= k <= s.cpu.regs[CX as int],
        n == element_size(&d, op) * k,
        copy_fits(s, sla, dla, from, to, n),
    ensures
        s.string_exec(d, op) == copied_run(s, from, to, k, n).string_exec(d, op),
    decreases k,
{
    let size = element_size(&d, op);
    if k == 0 {
        reveal(copied_run);
        let t = copied_run(s, from, to, 0, 0);
        assert(t.mem =~= s.mem);
        assert(t.cpu.regs =~= s.cpu.regs);
        assert(n == 0);
        assert(t == s);
    } else {
        let before = n - size;
        assert(before == size * (k - 1) && before >= 0) by (nonlinear_arith)
            requires
                n == size * k,
                before == n - size,
                k > 0,
        ;
        lemma_copy_run(s, d, op, sla, dla, from, to, k - 1, before);
        lemma_copy_on(s, d, op, sla, dla, from, to, k - 1, before);
    }
}

fn copy_bytes(mem: &mut Vec<u8>, from: usize, to: usize, n: usize)
    requires
        from + n <= old(mem)@.len(),
        to + n <= old(mem)@.len(),
        to <= from || from + n <= to,
    ensures
        final(mem)@ == copied_memory(old(mem)@, from as int, to as int, n as int),
{
    let mut i: usize = 0;
    let have: usize = mem.len();
    while i < n
        invariant
            i <= n,
            from + n <= have,
            to + n <= have,
            to <= from || from + n <= to,
            mem@.len() == have,
            mem@ =~= copied_memory(old(mem)@, from as int, to as int, i as int),
        decreases n - i,
    {
        let b: u8 = mem[from + i];
        mem.set(to + i, b);
        i = i + 1;
    }
}

impl State {
    /// At least one element of a copy can be done as a run.
    pub open spec fn copy_ready(self, d: Decoder, op: u8) -> bool {
        &&& self.cpu.regs[CX as int] > 0
        &&& self.translate(self.source(d), false) matches Ok(from) && self.translate(
            self.destination(d),
            true,
        ) matches Ok(to) && copy_fits(
            self,
            self.source(d),
            self.destination(d),
            from,
            to,
            element_size(&d, op) as int,
        )
    }
}

/// Does a run of a copy that fits.
fn copy_run(m: &mut Machine, d: &Decoder, op: u8, sla: u32, dla: u32, from: u32, to: u32, k: u32)
    requires
        d.wf(),
        op == 0xA4 || op == 0xA5,
        old(m)@.repeats_up(*d),
        sla == old(m)@.source(*d),
        dla == old(m)@.destination(*d),
        0 < k <= old(m)@.cpu.regs[CX as int],
        copy_fits(old(m)@, sla, dla, from, to, element_size(d, op) * k),
    ensures
        final(m)@.string_exec(*d, op) == old(m)@.string_exec(*d, op),
        final(m)@.repeats_up(*d),
        final(m)@.cpu.regs[CX as int] == old(m)@.cpu.regs[CX as int] - k,
{
    let size: u32 = element_size(d, op);
    let cx: u32 = m.cpu.reg32(CX);
    let si: u32 = m.cpu.reg32(SI);
    let di: u32 = m.cpu.reg32(DI);
    assert(k * size == size * k && size * k <= 0x1000) by (nonlinear_arith)
        requires
            size * k <= 0x1000,
    ;
    let n: u32 = k * size;
    copy_bytes(&mut m.mem, from as usize, to as usize, n as usize);
    m.dcache.note_write(to);
    m.cpu.set_reg32(SI, si.wrapping_add(n));
    m.cpu.set_reg32(DI, di.wrapping_add(n));
    m.cpu.set_reg32(CX, cx - k);
    proof {
        let before = old(m)@;
        lemma_copy_run(before, *d, op, sla, dla, from, to, k as int, n as int);
        assert(m@ == copied_run(before, from, to, k as int, n as int)) by {
            reveal(copied_run);
        }
        let c1 = before.cpu.with_reg(SI, si.wrapping_add(n));
        let c2 = c1.with_reg(DI, di.wrapping_add(n));
        crate::cpu::repeat::lemma_moved(before.cpu, SI, 0);
        crate::cpu::repeat::lemma_moved(c1, DI, 0);
        crate::cpu::repeat::lemma_moved(c2, CX, 0);
    }
}

/// A run of one element or more of a copy, where one can be done.
fn copy_some(m: &mut Machine, d: &Decoder, op: u8) -> (done: bool)
    requires
        d.wf(),
        op == 0xA4 || op == 0xA5,
        old(m)@.repeats_up(*d),
    ensures
        final(m)@.string_exec(*d, op) == old(m)@.string_exec(*d, op),
        final(m)@.repeats_up(*d),
        done == old(m)@.copy_ready(*d, op),
        done ==> final(m)@.cpu.regs[CX as int] < old(m)@.cpu.regs[CX as int],
        !done ==> final(m)@ == old(m)@,
{
    let size: u32 = element_size(d, op);
    let cx: u32 = m.cpu.reg32(CX);
    let sla: u32 = m.cpu.lin(segment_of(d, DS), m.cpu.reg32(SI));
    let dla: u32 = m.cpu.lin(ES, m.cpu.reg32(DI));
    let have: u64 = m.mem.len() as u64;
    if cx == 0 || sla % 0x1000 + size > 0x1000 || dla % 0x1000 + size > 0x1000 {
        return false;
    }
    match (m.translate_for(sla, false), m.translate_for(dla, true)) {
        (Ok(from), Ok(to)) => {
            let limit: u64 = if to <= from {
                have
            } else {
                to as u64
            };
            if from as u64 + size as u64 > have || to as u64 + size as u64 > have || from as u64
                + size as u64 > limit || !tables_clear(m, sla, to / 0x1000) || !tables_clear(
                m,
                dla,
                to / 0x1000,
            ) || !m.walk_is_quiet(sla, false) || !m.walk_is_quiet(dla, true) {
                return false;
            }
            let most: u32 = run_length(cx, size, dla, to, have);
            let k: u32 = run_length(most, size, sla, from, limit);
            assert(size * k <= size * most) by (nonlinear_arith)
                requires
                    k <= most,
            ;
            copy_run(m, d, op, sla, dla, from, to, k);
            true
        },
        _ => false,
    }
}

/// Copies page by page. What is left is done element by element.
pub fn bulk_movs(m: &mut Machine, d: &Decoder, op: u8)
    requires
        d.wf(),
        op == 0xA4 || op == 0xA5,
        old(m)@.repeats_up(*d),
    ensures
        final(m)@.string_exec(*d, op) == old(m)@.string_exec(*d, op),
        !final(m)@.copy_ready(*d, op),
{
    let mut go = true;
    while go
        invariant
            d.wf(),
            op == 0xA4 || op == 0xA5,
            m@.repeats_up(*d),
            m@.string_exec(*d, op) == old(m)@.string_exec(*d, op),
            !go ==> !m@.copy_ready(*d, op),
        decreases m@.cpu.regs[CX as int], (if go { 1int } else { 0int }),
    {
        go = copy_some(m, d, op);
    }
}

/// Memory with `n` bytes from `to` on that repeat those from `from` up to `to`.
spec fn spread_memory(mem: Seq<u8>, from: int, to: int, n: int) -> Seq<u8> {
    Seq::new(
        mem.len(),
        |i: int|
            if to <= i < to + n {
                mem[from + (i - to) % (to - from)]
            } else {
                mem[i]
            },
    )
}

/// The marks of page walks after the first byte of a copy.
spec fn copy_marks(s: State, sla: u32, dla: u32) -> Seq<Mark> {
    s.walked(sla, false).walked(dla, true).marks
}

/// The state after `k` bytes of a copy that runs into what it reads.
#[verifier::opaque]
spec fn spread_run(s: State, marks: Seq<Mark>, from: u32, to: u32, k: int) -> State {
    State {
        mem: spread_memory(s.mem, from as int, to as int, k),
        marks: if k == 0 {
            s.marks
        } else {
            marks
        },
        ..copied_run(s, from, to, k, k)
    }
}

proof fn lemma_spread_state(
    s: State,
    marks: Seq<Mark>,
    d: Decoder,
    sla: u32,
    dla: u32,
    from: u32,
    to: u32,
    k: int,
)
    requires
        d.wf(),
        s.repeats_up(d),
        sla == s.source(d),
        dla == s.destination(d),
        to % 0x1000 == dla % 0x1000,
        0 <= k,
        sla % 0x1000 + k < 0x1000,
        dla % 0x1000 + k < 0x1000,
    ensures
        ({
            let t = spread_run(s, marks, from, to, k);
            &&& page_differs(s, t, to / 0x1000)
            &&& t.source(d) == sla + k
            &&& t.destination(d) == dla + k
            &&& t.pending_fault is None
            &&& t.mem.len() == s.mem.len()
            &&& k == 0 ==> t.mem == s.mem && t.marks == s.marks
            &&& k > 0 ==> t.marks == marks
        }),
{
    reveal(spread_run);
    reveal(page_differs);
    lemma_copied_state(s, d, sla, dla, from, to, k, k);
    assert(k == 0 ==> spread_run(s, marks, from, to, k).mem =~= s.mem);
}

/// The byte that comes next is the one that the spreading asks for.
proof fn lemma_spread_next(
    s: State,
    marks: Seq<Mark>,
    from: u32,
    to: u32,
    k: int,
    v: u32,
    w: State,
)
    requires
        0 <= k,
        from < to,
        to + k < s.mem.len(),
        to + k <= u32::MAX,
        to % 0x1000 + k < 0x1000,
        ({
            let t = spread_run(s, marks, from, to, k);
            &&& w == (State {
                mem: w.mem,
                dcache: t.dcache.noted((to + k) as u32),
                marks,
                ..t
            })
            &&& w.mem.len() == t.mem.len()
            &&& byte_of(v, 0) == t.mem[from + k]
            &&& forall|i: int|
                0 <= i < t.mem.len() ==> #[trigger] w.mem[i] == (if to + k <= i < to + k + 1 {
                    byte_of(v, (i - (to + k)) as u32)
                } else {
                    t.mem[i]
                })
        }),
    ensures
        ({
            let u = spread_run(s, marks, from, to, k + 1);
            w.with_cpu(u.cpu) == u && u.pending_fault == s.pending_fault
        }),
{
    reveal(spread_run);
    reveal(copied_run);
    let t = spread_run(s, marks, from, to, k);
    let u = spread_run(s, marks, from, to, k + 1);
    let d = to - from;
    assert(t.mem[from + k] == s.mem[from + k % d]) by {
        if k < d {
            vstd::arithmetic::div_mod::lemma_small_mod(k as nat, d as nat);
        } else {
            vstd::arithmetic::div_mod::lemma_mod_add_multiples_vanish(k - d, d);
        }
    }
    assert forall|i: int| 0 <= i < s.mem.len() implies #[trigger] w.mem[i] == u.mem[i] by {
        assert(t.mem[i] == t.mem[i]);
    }
    assert(w.mem =~= u.mem);
    lemma_noted_once(s.dcache, to, (to + k) as u32);
}

proof fn lemma_spread_more(s: State, d: Decoder, sla: u32, dla: u32, from: u32, to: u32, k: int)
    requires
        d.wf(),
        s.repeats_up(d),
        sla == s.source(d),
        dla == s.destination(d),
        0 <= k < s.cpu.regs[CX as int],
        from < to,
        s.translate(sla, false) == Ok::<u32, crate::machine::Fault>(from),
        s.translate(dla, true) == Ok::<u32, crate::machine::Fault>(to),
        s.run_fits(sla, false, k + 1, to / 0x1000),
        s.run_fits(dla, true, k + 1, to / 0x1000),
    ensures
        ({
            let marks = copy_marks(s, sla, dla);
            spread_run(s, marks, from, to, k).string_exec(d, 0xA4) == spread_run(
                s,
                marks,
                from,
                to,
                k + 1,
            ).string_exec(d, 0xA4)
        }),
{
    let marks = copy_marks(s, sla, dla);
    let t = spread_run(s, marks, from, to, k);
    let page = to / 0x1000;
    assert(page_differs(s, s, page)) by {
        reveal(page_differs);
    }
    lemma_next_place(s, s, sla, k, 1, false, page);
    lemma_next_place(s, s, dla, k, 1, true, page);
    lemma_copied_cpu(s, from, to, k, k, 1);
    lemma_spread_state(s, marks, d, sla, dla, from, to, k);
    lemma_next_place(s, t, sla, k, 1, false, page);
    lemma_next_place(s, t, dla, k, 1, true, page);
    let at = (sla + k) as u32;
    let dest = (dla + k) as u32;
    assert(at.wrapping_add(0) == at && dest.wrapping_add(0) == dest);
    let x = t.walked(at, false);
    let y = x.walked(dest, true);
    lemma_spread_marks(s, t, sla, dla, page, k);
    assert(t.translate(at.wrapping_add(0), false) is Ok);
    assert(t.translate(dest.wrapping_add(0), true) is Ok);
    crate::cpu::dcache::agreement::fetch::lemma_translate_same(x, t, dest, true);
    let v = t.mem[from + k] as u32;
    assert(t.read_element(at, 1) == (x, v)) by {
        reveal(State::read_element);
        reveal(State::read8);
        reveal(State::phys8);
    }
    let w = x.write_element(dest, v, 1);
    assert(w == y.with_phys8((to + k) as u32, v as u8)) by {
        reveal(State::write_element);
        reveal(State::write8);
    }
    assert(byte_of(v, 0) == v as u8 && v as u8 == t.mem[from + k]) by {
        crate::cpu::repeat::lemma_low_byte(v);
    }
    reveal(State::with_phys8);
    lemma_spread_next(s, marks, from, to, k, v, w);
    let u = spread_run(s, marks, from, to, k + 1);
    assert(t.cpu == copied_run(s, from, to, k, k).cpu && u.cpu == copied_run(
        s,
        from,
        to,
        k + 1,
        k + 1,
    ).cpu) by {
        reveal(spread_run);
    }
    let w1 = w.with_cpu(t.cpu.stepped(SI, true, 1).stepped(DI, true, 1));
    assert(t.string_once(d, 0xA4) == Some((w1, false))) by {
        reveal(State::string_once);
    }
    assert(u == w1.with_cpu(w1.cpu.with_reg(CX, w1.cpu.regs[CX as int].wrapping_sub(1))));
    lemma_exec_on(t, d, 0xA4, w1, u);
}

/// The page walks of a byte raise what those of the first one raise.
proof fn lemma_spread_marks(s: State, t: State, sla: u32, dla: u32, page: u32, k: int)
    requires
        page_differs(s, t, page),
        k == 0 ==> t.mem == s.mem && t.marks == s.marks,
        k > 0 ==> t.marks == copy_marks(s, sla, dla),
        s.translate(sla, false) is Ok,
        s.translate(dla, true) is Ok,
        s.tables_clear(sla, page),
        s.tables_clear(dla, page),
        0 <= k,
        sla % 0x1000 + k < 0x1000,
        dla % 0x1000 + k < 0x1000,
    ensures
        t.walked((sla + k) as u32, false).walked((dla + k) as u32, true) == (State {
            marks: copy_marks(s, sla, dla),
            ..t
        }),
{
    reveal(page_differs);
    let b = s.walked(sla, false);
    if k == 0 {
        crate::walk::lemma_walk_same(t, s, sla, false);
        crate::walk::lemma_walk_same(t.walked(sla, false), b, dla, true);
    } else {
        crate::walk::lemma_walk_grows(b, dla, true);
        lemma_next_place(s, t, sla, k, 1, false, page);
        crate::cpu::dcache::agreement::fetch::lemma_translate_same(b, s, dla, true);
        assert(b.tables_clear(dla, page)) by {
            reveal(State::tables_clear);
            reveal(State::phys32);
            reveal(State::phys8);
        }
        lemma_next_place(b, t, dla, k, 1, true, page);
        let at = (sla + k) as u32;
        let dest = (dla + k) as u32;
        assert(at.wrapping_add(0) == at && dest.wrapping_add(0) == dest);
        assert(covers(s, t, sla, false));
        assert(covers(b, t, dla, true));
        assert(t.quiet(at.wrapping_add(0), false));
        assert(t.quiet(dest.wrapping_add(0), true));
    }
}

proof fn lemma_spread_run(s: State, d: Decoder, sla: u32, dla: u32, from: u32, to: u32, k: int)
    requires
        d.wf(),
        s.repeats_up(d),
        sla == s.source(d),
        dla == s.destination(d),
        0 <= k <= s.cpu.regs[CX as int],
        from < to,
        s.translate(sla, false) == Ok::<u32, crate::machine::Fault>(from),
        s.translate(dla, true) == Ok::<u32, crate::machine::Fault>(to),
        s.run_fits(sla, false, k, to / 0x1000),
        s.run_fits(dla, true, k, to / 0x1000),
    ensures
        s.string_exec(d, 0xA4) == spread_run(
            s,
            copy_marks(s, sla, dla),
            from,
            to,
            k,
        ).string_exec(d, 0xA4),
    decreases k,
{
    if k == 0 {
        reveal(spread_run);
        reveal(copied_run);
        let t = spread_run(s, copy_marks(s, sla, dla), from, to, 0);
        assert(t.mem =~= s.mem);
        assert(t.cpu.regs =~= s.cpu.regs);
        assert(t == s);
    } else {
        lemma_spread_run(s, d, sla, dla, from, to, k - 1);
        lemma_spread_more(s, d, sla, dla, from, to, k - 1);
    }
}

/// A repeated MOVSB to a place above the one that it reads spreads the bytes between
/// the two, with or without paging, where all of them lie in one page and the page
/// tables elsewhere. With the destination one above the source, the first byte fills
/// all of it. Besides, the walks of the two pages are noted.
pub proof fn law_page_copied_upon_itself(s: State, d: Decoder, from: u32, to: u32)
    requires
        d.wf(),
        s.repeats_up(d),
        from < to,
        s.translate(s.source(d), false) == Ok::<u32, crate::machine::Fault>(from),
        s.translate(s.destination(d), true) == Ok::<u32, crate::machine::Fault>(to),
        s.run_fits(s.source(d), false, s.cpu.regs[CX as int] as int, to / 0x1000),
        s.run_fits(s.destination(d), true, s.cpu.regs[CX as int] as int, to / 0x1000),
    ensures
        s.string_exec(d, 0xA4) matches Some(t) && (State { marks: s.marks, ..t }).same_but_data(s)
            && crate::cpu::repeat::spread(
            s.mem,
            t.mem,
            from as int,
            to as int,
            s.cpu.regs[CX as int] as int,
        ) && crate::cpu::repeat::used_up(s.cpu, t.cpu, true, s.cpu.regs[CX as int] as int)
            && (s.cpu.regs[CX as int] > 0 ==> t.marks == s.walked(s.source(d), false).walked(
            s.destination(d),
            true,
        ).marks),
{
    let n = s.cpu.regs[CX as int] as int;
    lemma_spread_run(s, d, s.source(d), s.destination(d), from, to, n);
    let t = spread_run(s, copy_marks(s, s.source(d), s.destination(d)), from, to, n);
    reveal(spread_run);
    reveal(copied_run);
    reveal(State::same_but_data);
    reveal(crate::cpu::repeat::moved_on);
    assert(t.string_exec(d, 0xA4) == Some(t)) by {
        reveal(State::string_exec);
    }
}

} // verus!
