//! Protected mode: an interrupt and the return from it, with and without a change of
//! the ring, and a far call and the return from it.

use vstd::prelude::*;
use crate::cpu::interrupt::IRET_MASK;
use crate::cpu::state::{Cpu, CS, IF, SP, SS, TF};
use crate::machine::State;

verus! {

impl State {
    /// Protected mode in which no address is translated.
    pub open spec fn untranslated(self) -> bool {
        &&& self.cpu.pe()
        &&& !self.cpu.pg()
        &&& !self.cpu.vm86()
        &&& self.mem.len() <= 0x1_0000_0000
    }

    /// A segment register holds what the descriptor tables say of its selector.
    pub open spec fn holds(self, idx: usize) -> bool {
        self.load_seg_raw(idx, self.cpu.sregs[idx as int]) == Some(self)
    }

    /// The descriptor of a selector lies apart from memory from `lo` up to `hi`.
    pub open spec fn descriptor_apart(self, sel: u16, lo: int, hi: int) -> bool {
        let a = self.cpu.descriptor_table(sel).0.wrapping_add((sel / 8 * 8) as u32);
        a + 8 <= 0x1_0000_0000 && (a + 8 <= lo || hi <= a)
    }
}

/// Memory differs only from `lo` up to `hi`.
pub open spec fn wrote(p: Seq<u8>, q: Seq<u8>, lo: int, hi: int) -> bool {
    &&& p.len() == q.len()
    &&& forall|i: int| 0 <= i < p.len() && !(lo <= i < hi) ==> #[trigger] q[i] == p[i]
}

/// A stack of 32 bits that has room for `n` bytes below its pointer.
pub open spec fn room_below(s: State, n: int) -> bool {
    &&& s.cpu.hidden[SS as int].big
    &&& s.cpu.regs[SP as int] >= n
    &&& s.cpu.hidden[SS as int].base + s.cpu.regs[SP as int] <= s.mem.len()
}

/// Where the stack pointer points.
pub open spec fn stack_top(s: State) -> int {
    s.cpu.hidden[SS as int].base + s.cpu.regs[SP as int]
}

/// Only the processor, memory and what is kept of decoded code differ.
pub open spec fn data_differs(s: State, t: State) -> bool {
    t == (State { cpu: t.cpu, mem: t.mem, dcache: t.dcache, ..s })
}

/// Of the processor only what an interrupt changes differs.
spec fn flow_differs(a: Cpu, b: Cpu) -> bool {
    b == (Cpu {
        regs: b.regs,
        sregs: b.sregs,
        hidden: b.hidden,
        ip: b.ip,
        flags: b.flags,
        ..a
    })
}

proof fn lemma_push(s: State, v: u32)
    requires
        s.untranslated(),
        room_below(s, 4),
    ensures
        ({
            let t = s.push32(v);
            let top = stack_top(s);
            &&& t.cpu == s.cpu.with_reg(SP, (s.cpu.regs[SP as int] - 4) as u32)
            &&& data_differs(s, t)
            &&& wrote(s.mem, t.mem, top - 4, top)
            &&& crate::cpu::plain::dword_at(t.mem, top - 4) == v
        }),
{
    reveal(State::push32);
    reveal(State::sp_down);
    let c = s.cpu.with_reg(SP, (s.cpu.regs[SP as int] - 4) as u32);
    let u = s.with_cpu(c);
    assert(s.sp_down(4) == u);
    let a = (stack_top(s) - 4) as u32;
    assert(c.lin(SS, c.sp()) == a);
    crate::cpu::plain::lemma_dword_written(u, a, v);
    reveal(State::write32);
    reveal(State::translate);
    reveal(State::with_phys8);
}

proof fn lemma_pop(s: State)
    requires
        s.untranslated(),
        s.cpu.hidden[SS as int].big,
        stack_top(s) + 4 <= s.mem.len(),
        s.cpu.regs[SP as int] + 4 <= u32::MAX,
    ensures
        s.pop32() == (
            s.with_cpu(s.cpu.with_reg(SP, (s.cpu.regs[SP as int] + 4) as u32)),
            crate::cpu::plain::dword_at(s.mem, stack_top(s)),
        ),
{
    reveal(State::pop32);
    reveal(State::sp_up);
    let a = stack_top(s) as u32;
    assert(s.cpu.lin(SS, s.cpu.sp()) == a);
    crate::cpu::plain::lemma_dword_read(s, a);
}

/// Two doublewords more on the stack.
proof fn lemma_dword_kept(p: Seq<u8>, q: Seq<u8>, a: int, lo: int, hi: int)
    requires
        wrote(p, q, lo, hi),
        0 <= a,
        a + 4 <= p.len(),
        a + 4 <= lo || hi <= a,
    ensures
        crate::cpu::plain::dword_at(q, a) == crate::cpu::plain::dword_at(p, a),
{
    crate::cpu::plain::lemma_dword_same(q, p, a);
}

/// Setting the stack pointer twice is setting it once.
proof fn lemma_sp_twice(c: Cpu, v: u32, w: u32)
    ensures
        c.with_reg(SP, v).with_reg(SP, w) == c.with_reg(SP, w),
        c.with_reg(SP, c.regs[SP as int]) == c,
{
    assert(c.with_reg(SP, v).with_reg(SP, w).regs =~= c.with_reg(SP, w).regs);
    assert(c.with_reg(SP, c.regs[SP as int]).regs =~= c.regs);
}

/// What three pushes leave.
proof fn lemma_three_pushed(s: State, x: u32, y: u32, z: u32)
    requires
        s.untranslated(),
        room_below(s, 12),
    ensures
        ({
            let t = s.push32(x).push32(y).push32(z);
            let top = stack_top(s);
            &&& t.cpu == s.cpu.with_reg(SP, (s.cpu.regs[SP as int] - 12) as u32)
            &&& data_differs(s, t)
            &&& wrote(s.mem, t.mem, top - 12, top)
            &&& crate::cpu::plain::dword_at(t.mem, top - 12) == z
            &&& crate::cpu::plain::dword_at(t.mem, top - 8) == y
            &&& crate::cpu::plain::dword_at(t.mem, top - 4) == x
        }),
{
    let sp = s.cpu.regs[SP as int];
    let top = stack_top(s);
    lemma_push(s, x);
    let s1 = s.push32(x);
    lemma_sp_twice(s.cpu, (sp - 4) as u32, (sp - 8) as u32);
    lemma_push(s1, y);
    let s2 = s1.push32(y);
    lemma_sp_twice(s.cpu, (sp - 8) as u32, (sp - 12) as u32);
    lemma_push(s2, z);
    let s3 = s2.push32(z);
    lemma_dword_kept(s1.mem, s2.mem, top - 4, top - 8, top - 4);
    lemma_dword_kept(s2.mem, s3.mem, top - 4, top - 12, top - 8);
    lemma_dword_kept(s2.mem, s3.mem, top - 8, top - 12, top - 8);
}

/// Three pops.
proof fn lemma_three_popped(s: State)
    requires
        s.untranslated(),
        s.cpu.hidden[SS as int].big,
        stack_top(s) + 12 <= s.mem.len(),
        s.cpu.regs[SP as int] + 12 <= u32::MAX,
    ensures
        ({
            let (s1, x) = s.pop32();
            let (s2, y) = s1.pop32();
            let (s3, z) = s2.pop32();
            &&& s3 == s.with_cpu(s.cpu.with_reg(SP, (s.cpu.regs[SP as int] + 12) as u32))
            &&& x == crate::cpu::plain::dword_at(s.mem, stack_top(s))
            &&& y == crate::cpu::plain::dword_at(s.mem, stack_top(s) + 4)
            &&& z == crate::cpu::plain::dword_at(s.mem, stack_top(s) + 8)
        }),
{
    let sp = s.cpu.regs[SP as int];
    lemma_pop(s);
    let s1 = s.pop32().0;
    lemma_sp_twice(s.cpu, (sp + 4) as u32, (sp + 8) as u32);
    lemma_pop(s1);
    let s2 = s1.pop32().0;
    lemma_sp_twice(s.cpu, (sp + 8) as u32, (sp + 12) as u32);
    lemma_pop(s2);
}

/// A read leaves a machine without paging as it is.
proof fn lemma_read_is_pure(s: State, a: u32)
    requires
        !s.cpu.pg(),
    ensures
        s.read32(a).0 == s,
        s.read16(a).0 == s,
{
    reveal(State::read8);
    reveal(State::read16);
    reveal(State::read32);
    reveal(State::translate);
}

/// Two machines that hold the same at an address read the same there.
proof fn lemma_read_same(s: State, t: State, a: u32, lo: int, hi: int)
    requires
        !s.cpu.pg(),
        !t.cpu.pg(),
        wrote(s.mem, t.mem, lo, hi),
        a + 4 <= 0x1_0000_0000,
        a + 4 <= lo || hi <= a,
    ensures
        s.read32(a).1 == t.read32(a).1,
        s.read16(a).1 == t.read16(a).1,
{
    reveal(State::read8);
    reveal(State::read16);
    reveal(State::read32);
    reveal(State::translate);
    reveal(State::phys8);
}

/// The tables that selectors are looked up in.
pub open spec fn same_tables(a: Cpu, b: Cpu) -> bool {
    &&& a.cr0 == b.cr0
    &&& a.gdtr_base == b.gdtr_base
    &&& a.gdtr_limit == b.gdtr_limit
    &&& a.ldtr_base == b.ldtr_base
    &&& a.ldtr_limit == b.ldtr_limit
}

/// A selector that was loaded from the tables is loaded from them again.
proof fn lemma_loaded_again(s: State, t: State, idx: usize, lo: int, hi: int)
    requires
        idx < 6,
        s.untranslated(),
        t.untranslated(),
        s.holds(idx),
        same_tables(s.cpu, t.cpu),
        wrote(s.mem, t.mem, lo, hi),
        s.descriptor_apart(s.cpu.sregs[idx as int], lo, hi),
    ensures
        t.load_seg_raw(idx, s.cpu.sregs[idx as int]) == Some(
            t.with_cpu(
                t.cpu.with_segment(idx, s.cpu.sregs[idx as int], s.cpu.hidden[idx as int]),
            ),
        ),
{
    reveal(State::load_seg_raw);
    reveal(State::read_descriptor);
    let sel = s.cpu.sregs[idx as int];
    let a = s.cpu.descriptor_table(sel).0.wrapping_add((sel / 8 * 8) as u32);
    let s0 = State { sys_access: true, ..s };
    let t0 = State { sys_access: true, ..t };
    lemma_read_is_pure(s0, a);
    lemma_read_is_pure(s0, a.wrapping_add(4));
    lemma_read_is_pure(t0, a);
    lemma_read_is_pure(t0, a.wrapping_add(4));
    lemma_read_same(s0, t0, a, lo, hi);
    lemma_read_same(s0, t0, a.wrapping_add(4), lo, hi);
    let got = s.load_seg_raw(idx, sel)->0;
    assert(got.cpu.hidden[idx as int] == s.cpu.hidden[idx as int]);
}

impl State {
    /// The interrupt descriptor of a vector.
    pub open spec fn gate(self, n: u8) -> (u32, u32) {
        let a = self.cpu.idtr_base.wrapping_add((8 * n) as u32);
        (self.read32(a).1, self.read32(a.wrapping_add(4)).1)
    }

    /// The selector of the code that a vector leads to.
    pub open spec fn gate_selector(self, n: u8) -> u16 {
        (self.gate(n).0 / 0x1_0000) as u16
    }

    /// The ring of the code that a vector leads to.
    pub open spec fn gate_ring(self, n: u8) -> u8 {
        let g = self.cpu.gdtr_base.wrapping_add((self.gate_selector(n) / 8 * 8) as u32);
        (self.read32(g.wrapping_add(4)).1 / 0x2000 % 4) as u8
    }
}

proof fn lemma_other_flags(flags: u32)
    by (bit_vector)
    ensures
        (flags & !0x200u32) & 0x2_0000 == flags & 0x2_0000,
        ((flags & !0x200u32) & !0x100u32) & 0x2_0000 == flags & 0x2_0000,
        (flags & !0x100u32) & 0x2_0000 == flags & 0x2_0000,
        0x200u32 & 0x8D5u32 == 0,
        0x100u32 & 0x8D5u32 == 0,
{
}

/// The way into a handler, when the frame is on the stack.
spec fn entered(s: State, interrupts_off: bool, sel: u16, dest: u32) -> Option<State> {
    let s1 = if interrupts_off { s.with_cpu(s.cpu.with_flag(IF, false)) } else { s };
    match s1.with_cpu(s1.cpu.with_flag(TF, false)).load_seg_raw(CS, sel) {
        None => None,
        Some(s2) => Some(s2.with_cpu(s2.cpu.with_ip(dest))),
    }
}

proof fn lemma_entered(s: State, interrupts_off: bool, sel: u16, dest: u32, t: State)
    requires
        s.untranslated(),
        entered(s, interrupts_off, sel, dest) == Some(t),
    ensures
        t.untranslated(),
        flow_differs(s.cpu, t.cpu),
        data_differs(s, t),
        t.mem == s.mem,
        t.cpu.regs == s.cpu.regs,
        t.cpu.sregs == s.cpu.with_sreg(CS, sel).sregs,
        forall|i: int| 0 <= i < 6 && i != CS ==> #[trigger] t.cpu.hidden[i] == s.cpu.hidden[i],
{
    reveal(Cpu::with_flag);
    reveal(State::load_seg_raw);
    reveal(State::read_descriptor);
    lemma_other_flags(s.cpu.flags);
    let s1 = if interrupts_off {
        s.with_cpu(s.cpu.with_flag(IF, false))
    } else {
        s
    };
    let s2 = s1.with_cpu(s1.cpu.with_flag(TF, false));
    let a = s2.cpu.descriptor_table(sel).0.wrapping_add((sel / 8 * 8) as u32);
    let s3 = State { sys_access: true, ..s2 };
    lemma_read_is_pure(s3, a);
    lemma_read_is_pure(s3, a.wrapping_add(4));
}

/// What an interrupt that stays in its ring leaves.
proof fn lemma_delivered(s: State, n: u8)
    requires
        s.untranslated(),
        room_below(s, 12),
        s.deliver(n, None) is Some,
        s.gate_ring(n) >= s.cpu.cpl(),
    ensures
        ({
            let t = s.deliver(n, None)->0;
            let top = stack_top(s);
            &&& t.untranslated()
            &&& flow_differs(s.cpu, t.cpu)
            &&& data_differs(s, t)
            &&& wrote(s.mem, t.mem, top - 12, top)
            &&& crate::cpu::plain::dword_at(t.mem, top - 12) == s.cpu.ip
            &&& crate::cpu::plain::dword_at(t.mem, top - 8) == s.cpu.sregs[CS as int]
            &&& crate::cpu::plain::dword_at(t.mem, top - 4) == s.cpu.eflags()
            &&& t.cpu.regs == s.cpu.with_reg(SP, (s.cpu.regs[SP as int] - 12) as u32).regs
            &&& t.cpu.sregs == s.cpu.with_sreg(CS, s.gate_selector(n)).sregs
            &&& forall|i: int| 0 <= i < 6 && i != CS ==> #[trigger] t.cpu.hidden[i]
                == s.cpu.hidden[i]
        }),
{
    reveal(State::deliver);
    let a = s.cpu.idtr_base.wrapping_add((8 * n) as u32);
    lemma_read_is_pure(s, a);
    lemma_read_is_pure(s, a.wrapping_add(4));
    let g = s.cpu.gdtr_base.wrapping_add((s.gate_selector(n) / 8 * 8) as u32);
    lemma_read_is_pure(s, g.wrapping_add(4));
    let (lo, hi) = s.gate(n);
    let ty = (hi / 0x100 % 0x20) as u8;
    let dest = (lo % 0x1_0000 + hi / 0x1_0000 * 0x1_0000) as u32;
    let f = s.cpu.eflags();
    let cs = s.cpu.sregs[CS as int] as u32;
    lemma_push(s, f);
    lemma_push(s.push32(f), cs);
    lemma_three_pushed(s, f, cs, s.cpu.ip);
    let u = s.push32(f).push32(cs).push32(s.cpu.ip);
    let t = s.deliver(n, None)->0;
    assert(entered(u, ty == 0x0E, s.gate_selector(n), dest) == Some(t));
    lemma_entered(u, ty == 0x0E, s.gate_selector(n), dest, t);
}

proof fn lemma_ring(c: Cpu)
    requires
        c.pe(),
        !c.vm86(),
    ensures
        c.cpl() == c.sregs[CS as int] % 4,
{
    let v = c.sregs[CS as int];
    assert(v & 3 == v % 4) by (bit_vector);
}

/// The return to the ring that the handler runs in.
proof fn lemma_returned(s: State, t: State)
    requires
        s.untranslated(),
        t.untranslated(),
        room_below(s, 12),
        flow_differs(s.cpu, t.cpu),
        data_differs(s, t),
        wrote(s.mem, t.mem, stack_top(s) - 12, stack_top(s)),
        crate::cpu::plain::dword_at(t.mem, stack_top(s) - 12) == s.cpu.ip,
        crate::cpu::plain::dword_at(t.mem, stack_top(s) - 8) == s.cpu.sregs[CS as int],
        crate::cpu::plain::dword_at(t.mem, stack_top(s) - 4) == s.cpu.eflags(),
        t.cpu.regs == s.cpu.with_reg(SP, (s.cpu.regs[SP as int] - 12) as u32).regs,
        forall|i: int| 0 <= i < 6 && i != CS ==> #[trigger] t.cpu.hidden[i] == s.cpu.hidden[i],
        forall|i: int| 0 <= i < 6 && i != CS ==> #[trigger] t.cpu.sregs[i] == s.cpu.sregs[i],
        t.cpu.sregs[CS as int] % 4 == s.cpu.sregs[CS as int] % 4,
        s.holds(CS),
        s.descriptor_apart(s.cpu.sregs[CS as int], stack_top(s) - 12, stack_top(s)),
        s.cpu.with_ip(s.cpu.ip) == s.cpu,
    ensures
        t.iret() matches Some(r) && data_differs(s, r) && r.cpu == s.cpu.with_eflags(
            (s.cpu.eflags() & IRET_MASK) | 0x0002,
        ) && r.mem == t.mem,
{
    reveal(State::iret);
    let sp = s.cpu.regs[SP as int];
    let top = stack_top(s);
    lemma_ring(t.cpu);
    assert(t.cpu.hidden[SS as int] == s.cpu.hidden[SS as int]);
    lemma_three_popped(t);
    let t3 = t.with_cpu(t.cpu.with_reg(SP, sp));
    lemma_ring(t3.cpu);
    lemma_loaded_again(s, t3, CS, top - 12, top);
    let cs = s.cpu.sregs[CS as int];
    let r = t.iret()->0;
    assert((cs as u32) as u16 == cs);
    assert(r.cpu.regs =~= s.cpu.regs);
    assert(r.cpu.sregs =~= s.cpu.sregs);
    assert(r.cpu.hidden =~= s.cpu.hidden);
}

impl State {
    /// On the stack that the task state segment holds for ring 0, with nothing on
    /// it yet.
    pub open spec fn on_inner_stack(self) -> State {
        let esp0 = self.read32(self.cpu.tr_base.wrapping_add(4)).1;
        let ss0 = self.read16(self.cpu.tr_base.wrapping_add(8)).1;
        let s = self.load_seg_raw(SS, ss0)->0;
        s.with_cpu(s.cpu.with_reg(SP, esp0))
    }
}

/// The change to the inner stack.
proof fn lemma_inner_stack(s: State, w: State)
    requires
        s.untranslated(),
        s.to_inner_stack() == Some(w),
        room_below(s.on_inner_stack(), 8),
    ensures
        ({
            let v = s.on_inner_stack();
            let top = stack_top(v);
            &&& v.untranslated()
            &&& data_differs(s, v)
            &&& v.mem == s.mem
            &&& flow_differs(s.cpu, v.cpu)
            &&& v.cpu.flags == s.cpu.flags
            &&& v.cpu.ip == s.cpu.ip
            &&& forall|i: int| 0 <= i < 8 && i != SP ==> #[trigger] v.cpu.regs[i] == s.cpu.regs[i]
            &&& forall|i: int| 0 <= i < 6 && i != SS ==> #[trigger] v.cpu.sregs[i]
                == s.cpu.sregs[i]
            &&& forall|i: int| 0 <= i < 6 && i != SS ==> #[trigger] v.cpu.hidden[i]
                == s.cpu.hidden[i]
            &&& data_differs(v, w)
            &&& w.cpu == v.cpu.with_reg(SP, (v.cpu.regs[SP as int] - 8) as u32)
            &&& wrote(v.mem, w.mem, top - 8, top)
            &&& crate::cpu::plain::dword_at(w.mem, top - 4) == s.cpu.sregs[SS as int]
            &&& crate::cpu::plain::dword_at(w.mem, top - 8) == s.cpu.regs[SP as int]
        }),
{
    reveal(State::to_inner_stack);
    let a = s.cpu.tr_base.wrapping_add(4);
    let b = s.cpu.tr_base.wrapping_add(8);
    lemma_read_is_pure(s, a);
    lemma_read_is_pure(s, b);
    let ss0 = s.read16(b).1;
    assert(s.load_seg_raw(SS, ss0) is Some);
    let v = s.on_inner_stack();
    assert(v.untranslated() && data_differs(s, v) && v.mem == s.mem && flow_differs(s.cpu, v.cpu)
        && v.cpu.flags == s.cpu.flags && v.cpu.ip == s.cpu.ip) by {
        reveal(State::load_seg_raw);
        reveal(State::read_descriptor);
        let d = s.cpu.descriptor_table(ss0).0.wrapping_add((ss0 / 8 * 8) as u32);
        let s0 = State { sys_access: true, ..s };
        lemma_read_is_pure(s0, d);
        lemma_read_is_pure(s0, d.wrapping_add(4));
    }
    assert((forall|i: int| 0 <= i < 8 && i != SP ==> #[trigger] v.cpu.regs[i] == s.cpu.regs[i]) && (
    forall|i: int| 0 <= i < 6 && i != SS ==> #[trigger] v.cpu.sregs[i] == s.cpu.sregs[i]) && (
    forall|i: int| 0 <= i < 6 && i != SS ==> #[trigger] v.cpu.hidden[i] == s.cpu.hidden[i])) by {
        reveal(State::load_seg_raw);
        reveal(State::read_descriptor);
        let d = s.cpu.descriptor_table(ss0).0.wrapping_add((ss0 / 8 * 8) as u32);
        let s0 = State { sys_access: true, ..s };
        lemma_read_is_pure(s0, d);
        lemma_read_is_pure(s0, d.wrapping_add(4));
    }
    let top = stack_top(v);
    let sp = v.cpu.regs[SP as int];
    let old_ss = s.cpu.sregs[SS as int] as u32;
    lemma_push(v, old_ss);
    let v1 = v.push32(old_ss);
    lemma_sp_twice(v.cpu, (sp - 4) as u32, (sp - 8) as u32);
    lemma_push(v1, s.cpu.regs[SP as int]);
    lemma_dword_kept(v1.mem, w.mem, top - 4, top - 8, top - 4);
}

/// What an interrupt that goes to an inner ring leaves.
proof fn lemma_delivered_inside(s: State, n: u8)
    requires
        s.untranslated(),
        room_below(s.on_inner_stack(), 20),
        s.deliver(n, None) is Some,
        s.gate_ring(n) < s.cpu.cpl(),
    ensures
        ({
            let t = s.deliver(n, None)->0;
            let v = s.on_inner_stack();
            let top = stack_top(v);
            &&& t.untranslated()
            &&& flow_differs(s.cpu, t.cpu)
            &&& data_differs(s, t)
            &&& wrote(s.mem, t.mem, top - 20, top)
            &&& crate::cpu::plain::dword_at(t.mem, top - 20) == s.cpu.ip
            &&& crate::cpu::plain::dword_at(t.mem, top - 16) == s.cpu.sregs[CS as int]
            &&& crate::cpu::plain::dword_at(t.mem, top - 12) == s.cpu.eflags()
            &&& crate::cpu::plain::dword_at(t.mem, top - 8) == s.cpu.regs[SP as int]
            &&& crate::cpu::plain::dword_at(t.mem, top - 4) == s.cpu.sregs[SS as int]
            &&& top <= s.mem.len()
            &&& t.cpu.regs[SP as int] == v.cpu.regs[SP as int] - 20
            &&& t.cpu.sregs[CS as int] == s.gate_selector(n)
            &&& t.cpu.hidden[SS as int] == v.cpu.hidden[SS as int]
            &&& forall|i: int| 0 <= i < 8 && i != SP ==> #[trigger] t.cpu.regs[i] == s.cpu.regs[i]
            &&& forall|i: int| 0 <= i < 6 && i != CS && i != SS ==> #[trigger] t.cpu.sregs[i]
                == s.cpu.sregs[i]
            &&& forall|i: int| 0 <= i < 6 && i != CS && i != SS ==> #[trigger] t.cpu.hidden[i]
                == s.cpu.hidden[i]
        }),
{
    reveal(State::deliver);
    let a = s.cpu.idtr_base.wrapping_add((8 * n) as u32);
    lemma_read_is_pure(s, a);
    lemma_read_is_pure(s, a.wrapping_add(4));
    let g = s.cpu.gdtr_base.wrapping_add((s.gate_selector(n) / 8 * 8) as u32);
    lemma_read_is_pure(s, g.wrapping_add(4));
    let (lo, hi) = s.gate(n);
    let ty = (hi / 0x100 % 0x20) as u8;
    let dest = (lo % 0x1_0000 + hi / 0x1_0000 * 0x1_0000) as u32;
    let w = s.to_inner_stack()->0;
    lemma_inner_stack(s, w);
    let v = s.on_inner_stack();
    let top = stack_top(v);
    let f = s.cpu.eflags();
    assert(w.cpu.eflags() == f) by {
        reveal(Cpu::flags_now);
    }
    let cs = s.cpu.sregs[CS as int] as u32;
    assert(w.cpu.sregs[CS as int] == v.cpu.sregs[CS as int]);
    lemma_push(w, f);
    lemma_push(w.push32(f), cs);
    lemma_three_pushed(w, f, cs, s.cpu.ip);
    let u = w.push32(f).push32(cs).push32(s.cpu.ip);
    lemma_dword_kept(w.mem, u.mem, top - 4, top - 20, top - 8);
    lemma_dword_kept(w.mem, u.mem, top - 8, top - 20, top - 8);
    let t = s.deliver(n, None)->0;
    assert(entered(u, ty == 0x0E, s.gate_selector(n), dest) == Some(t));
    lemma_entered(u, ty == 0x0E, s.gate_selector(n), dest, t);
}

proof fn lemma_not_virtual(f: u32)
    by (bit_vector)
    ensures
        ((f & 0x0024_7FD5) | 0x0002) & 0x2_0000 == 0,
{
}

/// The return to an outer ring.
proof fn lemma_returned_outside(s: State, t: State, lo: int, hi: int)
    requires
        s.untranslated(),
        t.untranslated(),
        flow_differs(s.cpu, t.cpu),
        data_differs(s, t),
        wrote(s.mem, t.mem, lo, hi),
        t.cpu.hidden[SS as int].big,
        stack_top(t) == lo,
        hi == lo + 20,
        hi <= s.mem.len(),
        t.cpu.regs[SP as int] + 20 <= u32::MAX,
        crate::cpu::plain::dword_at(t.mem, lo) == s.cpu.ip,
        crate::cpu::plain::dword_at(t.mem, lo + 4) == s.cpu.sregs[CS as int],
        crate::cpu::plain::dword_at(t.mem, lo + 8) == s.cpu.eflags(),
        crate::cpu::plain::dword_at(t.mem, lo + 12) == s.cpu.regs[SP as int],
        crate::cpu::plain::dword_at(t.mem, lo + 16) == s.cpu.sregs[SS as int],
        forall|i: int| 0 <= i < 8 && i != SP ==> #[trigger] t.cpu.regs[i] == s.cpu.regs[i],
        forall|i: int| 0 <= i < 6 && i != CS && i != SS ==> #[trigger] t.cpu.sregs[i]
            == s.cpu.sregs[i],
        forall|i: int| 0 <= i < 6 && i != CS && i != SS ==> #[trigger] t.cpu.hidden[i]
            == s.cpu.hidden[i],
        t.cpu.sregs[CS as int] % 4 < s.cpu.sregs[CS as int] % 4,
        s.holds(CS),
        s.holds(SS),
        s.descriptor_apart(s.cpu.sregs[CS as int], lo, hi),
        s.descriptor_apart(s.cpu.sregs[SS as int], lo, hi),
        s.cpu.with_ip(s.cpu.ip) == s.cpu,
    ensures
        t.iret() matches Some(r) && data_differs(s, r) && r.cpu == s.cpu.with_eflags(
            (s.cpu.eflags() & IRET_MASK) | 0x0002,
        ) && r.mem == t.mem,
{
    reveal(State::iret);
    let sp = t.cpu.regs[SP as int];
    let f = s.cpu.eflags();
    lemma_ring(t.cpu);
    lemma_three_popped(t);
    let t3 = t.with_cpu(t.cpu.with_reg(SP, (sp + 12) as u32));
    lemma_ring(t3.cpu);
    lemma_pop(t3);
    let t4 = t3.with_cpu(t3.cpu.with_reg(SP, (sp + 16) as u32));
    lemma_pop(t4);
    let t5 = t4.with_cpu(t4.cpu.with_reg(SP, (sp + 20) as u32));
    lemma_loaded_again(s, t5, CS, lo, hi);
    let cs = s.cpu.sregs[CS as int];
    let ss = s.cpu.sregs[SS as int];
    let t6 = t5.with_cpu(t5.cpu.with_segment(CS, cs, s.cpu.hidden[CS as int]));
    let t7 = t6.with_cpu(t6.cpu.with_ip(s.cpu.ip).with_eflags((f & IRET_MASK) | 0x0002));
    lemma_not_virtual(f);
    lemma_loaded_again(s, t7, SS, lo, hi);
    assert((cs as u32) as u16 == cs);
    assert((ss as u32) as u16 == ss);
    let r = t.iret()->0;
    assert(r.cpu.regs =~= s.cpu.regs);
    assert(r.cpu.sregs =~= s.cpu.sregs);
    assert(r.cpu.hidden =~= s.cpu.hidden);
}

/// Who accesses memory makes no difference when no address is translated.
proof fn lemma_same_for_supervisor(s: State, n: u8)
    requires
        s.untranslated(),
    ensures
        ({
            let s0 = State { sys_access: true, ..s };
            &&& s0.gate_selector(n) == s.gate_selector(n)
            &&& s0.gate_ring(n) == s.gate_ring(n)
            &&& s0.on_inner_stack().mem == s.on_inner_stack().mem
            &&& s0.on_inner_stack().cpu == s.on_inner_stack().cpu
        }),
{
    let s0 = State { sys_access: true, ..s };
    assert forall|a: u32|
        s0.read32(a).1 == (#[trigger] s.read32(a)).1 && s0.read16(a).1 == s.read16(a).1 by {
        reveal(State::read8);
        reveal(State::read16);
        reveal(State::read32);
        reveal(State::translate);
        reveal(State::phys8);
    }
    let b = s.cpu.tr_base.wrapping_add(8);
    assert(s.read32(b) == s.read32(b));
    let ss0 = s.read16(b).1;
    reveal(State::load_seg_raw);
    reveal(State::read_descriptor);
    let d = s.cpu.descriptor_table(ss0).0.wrapping_add((ss0 / 8 * 8) as u32);
    lemma_read_is_pure(s0, d);
    lemma_read_is_pure(s0, d.wrapping_add(4));
}

impl State {
    /// Where an interrupt puts its frame: on the current stack, or on that of the
    /// ring it goes to.
    pub open spec fn frame_of(self, n: u8) -> (int, int) {
        if self.gate_ring(n) < self.cpu.cpl() {
            (stack_top(self.on_inner_stack()) - 20, stack_top(self.on_inner_stack()))
        } else {
            (stack_top(self) - 12, stack_top(self))
        }
    }

    /// The frame of an interrupt has room on a stack of 32 bits, and the segments
    /// to return to are in the descriptor tables, apart from the frame.
    pub open spec fn frame_fits(self, n: u8) -> bool {
        let (lo, hi) = self.frame_of(n);
        &&& self.holds(CS)
        &&& self.descriptor_apart(self.cpu.sregs[CS as int], lo, hi)
        &&& if self.gate_ring(n) < self.cpu.cpl() {
            &&& room_below(self.on_inner_stack(), 20)
            &&& self.holds(SS)
            &&& self.descriptor_apart(self.cpu.sregs[SS as int], lo, hi)
        } else {
            room_below(self, 12)
        }
    }
}

/// The return from an interrupt of protected mode undoes it, in the same ring and
/// from an inner one: all of the processor is as it was, but for the flags that the
/// return does not take, and of memory only the frame has changed.
pub proof fn law_protected_interrupt_returns(s: State, n: u8)
    requires
        s.untranslated(),
        s.cpu.with_ip(s.cpu.ip) == s.cpu,
        s.interrupt_protected(n, None) is Some,
        s.gate_ring(n) <= s.cpu.cpl(),
        s.gate_selector(n) % 4 == s.gate_ring(n),
        s.frame_fits(n),
    ensures
        s.interrupt_protected(n, None)->0.iret() matches Some(r) && data_differs(s, r) && r.cpu
            == s.cpu.with_eflags((s.cpu.eflags() & IRET_MASK) | 0x0002) && wrote(
            s.mem,
            r.mem,
            s.frame_of(n).0,
            s.frame_of(n).1,
        ),
{
    reveal(State::interrupt_protected);
    let s0 = State { sys_access: true, ..s };
    lemma_same_for_supervisor(s, n);
    lemma_ring(s.cpu);
    let t = s.interrupt_protected(n, None)->0;
    let (lo, hi) = s.frame_of(n);
    if s.gate_ring(n) < s.cpu.cpl() {
        lemma_delivered_inside(s0, n);
        lemma_returned_outside(s, t, lo, hi);
    } else {
        lemma_delivered(s0, n);
        lemma_returned(s, t);
    }
}

impl State {
    /// The code segment could be loaded again as it is.
    pub open spec fn code_reloads(self) -> bool {
        self.load_seg(CS, self.cpu.sregs[CS as int]) == Some((self, true))
    }
}

/// A code segment that could be loaded is loaded again in the same ring.
proof fn lemma_code_again(s: State, t: State, lo: int, hi: int)
    requires
        s.untranslated(),
        t.untranslated(),
        s.code_reloads(),
        same_tables(s.cpu, t.cpu),
        s.cpu.cpl() == t.cpu.cpl(),
        wrote(s.mem, t.mem, lo, hi),
        s.descriptor_apart(s.cpu.sregs[CS as int], lo, hi),
    ensures
        t.load_seg(CS, s.cpu.sregs[CS as int]) == Some(
            (
                t.with_cpu(
                    t.cpu.with_segment(CS, s.cpu.sregs[CS as int], s.cpu.hidden[CS as int]),
                ),
                true,
            ),
        ),
{
    reveal(State::load_seg);
    reveal(State::read_descriptor);
    let sel = s.cpu.sregs[CS as int];
    let a = s.cpu.descriptor_table(sel).0.wrapping_add((sel / 8 * 8) as u32);
    let s0 = State { sys_access: true, ..s };
    let t0 = State { sys_access: true, ..t };
    lemma_read_is_pure(s0, a);
    lemma_read_is_pure(s0, a.wrapping_add(4));
    lemma_read_is_pure(t0, a);
    lemma_read_is_pure(t0, a.wrapping_add(4));
    lemma_read_same(s0, t0, a, lo, hi);
    lemma_read_same(s0, t0, a.wrapping_add(4), lo, hi);
    let (got, _) = s.load_seg(CS, sel)->0;
    assert(got.cpu.sregs[CS as int] == sel);
    assert(got.cpu.hidden[CS as int] == s.cpu.hidden[CS as int]);
}

/// A far call to other code of the same ring.
proof fn lemma_called(s: State, sel: u16, off: u32, t: State)
    requires
        s.untranslated(),
        room_below(s, 8),
        (s.read_descriptor(sel).2 / 0x100 % 0x100) as u8 & 0x10 != 0,
        s.load_seg(CS, sel) matches Some((u, ok)) && ok,
        s.far_call(sel, off, true) == Some(t),
    ensures
        t.untranslated(),
        flow_differs(s.cpu, t.cpu),
        t.cpu.flags == s.cpu.flags,
        data_differs(s, t),
        wrote(s.mem, t.mem, stack_top(s) - 8, stack_top(s)),
        crate::cpu::plain::dword_at(t.mem, stack_top(s) - 8) == s.cpu.ip,
        crate::cpu::plain::dword_at(t.mem, stack_top(s) - 4) == s.cpu.sregs[CS as int],
        t.cpu.regs == s.cpu.with_reg(SP, (s.cpu.regs[SP as int] - 8) as u32).regs,
        forall|i: int| 0 <= i < 6 && i != CS ==> #[trigger] t.cpu.hidden[i] == s.cpu.hidden[i],
        forall|i: int| 0 <= i < 6 && i != CS ==> #[trigger] t.cpu.sregs[i] == s.cpu.sregs[i],
        sel >= 4 ==> t.cpu.sregs[CS as int] % 4 == s.cpu.cpl(),
        sel < 4 ==> t.cpu.sregs[CS as int] == sel,
{
    reveal(State::far_call);
    let (u, _) = s.load_seg(CS, sel)->0;
    let a = s.cpu.descriptor_table(sel).0.wrapping_add((sel / 8 * 8) as u32);
    let s0 = State { sys_access: true, ..s };
    lemma_read_is_pure(s0, a);
    lemma_read_is_pure(s0, a.wrapping_add(4));
    assert(s.read_descriptor(sel).0 == s) by {
        reveal(State::read_descriptor);
    }
    lemma_ring(s.cpu);
    assert(u.untranslated() && flow_differs(s.cpu, u.cpu) && data_differs(s, u) && u.mem == s.mem
        && u.cpu.regs == s.cpu.regs && u.cpu.ip == s.cpu.ip && u.cpu.flags == s.cpu.flags) by {
        reveal(State::load_seg);
    }
    assert(forall|i: int| 0 <= i < 6 && i != CS ==> #[trigger] u.cpu.hidden[i] == s.cpu.hidden[i])
        by {
        reveal(State::load_seg);
    }
    assert(forall|i: int| 0 <= i < 6 && i != CS ==> #[trigger] u.cpu.sregs[i] == s.cpu.sregs[i])
        by {
        reveal(State::load_seg);
    }
    assert(if sel >= 4 { u.cpu.sregs[CS as int] % 4 == s.cpu.cpl() } else {
        u.cpu.sregs[CS as int] == sel
    }) by {
        reveal(State::load_seg);
    }
    let sp = s.cpu.regs[SP as int];
    let top = stack_top(s);
    let cs = s.cpu.sregs[CS as int] as u32;
    assert(u.cpu.hidden[SS as int] == s.cpu.hidden[SS as int]);
    reveal(State::push_w);
    lemma_push(u, cs);
    let u1 = u.push32(cs);
    lemma_sp_twice(u.cpu, (sp - 4) as u32, (sp - 8) as u32);
    lemma_push(u1, s.cpu.ip);
    let u2 = u1.push32(s.cpu.ip);
    lemma_dword_kept(u1.mem, u2.mem, top - 4, top - 8, top - 4);
}

/// A far return undoes a far call to other code of the same ring: all of the
/// processor is as it was, and of memory only the return address has changed.
pub proof fn law_far_call_returns(s: State, sel: u16, off: u32)
    requires
        s.untranslated(),
        room_below(s, 8),
        s.cpu.with_ip(s.cpu.ip) == s.cpu,
        s.code_reloads(),
        s.descriptor_apart(s.cpu.sregs[CS as int], stack_top(s) - 8, stack_top(s)),
        sel >= 4,
        (s.read_descriptor(sel).2 / 0x100 % 0x100) as u8 & 0x10 != 0,
        s.load_seg(CS, sel) matches Some((u, ok)) && ok,
    ensures
        s.far_call(sel, off, true) matches Some(t) && t.far_ret(true, 0) matches Some(r)
            && data_differs(s, r) && r.cpu == s.cpu && wrote(
            s.mem,
            r.mem,
            stack_top(s) - 8,
            stack_top(s),
        ),
{
    assert(s.far_call(sel, off, true) is Some) by {
        reveal(State::far_call);
        reveal(State::read_descriptor);
        let a = s.cpu.descriptor_table(sel).0.wrapping_add((sel / 8 * 8) as u32);
        let s0 = State { sys_access: true, ..s };
        lemma_read_is_pure(s0, a);
        lemma_read_is_pure(s0, a.wrapping_add(4));
    }
    let t = s.far_call(sel, off, true)->0;
    lemma_called(s, sel, off, t);
    reveal(State::far_ret);
    reveal(State::pop_w);
    reveal(State::sp_up);
    let sp = s.cpu.regs[SP as int];
    let top = stack_top(s);
    let cs = s.cpu.sregs[CS as int];
    lemma_ring(s.cpu);
    lemma_ring(t.cpu);
    assert(t.cpu.hidden[SS as int] == s.cpu.hidden[SS as int]);
    lemma_pop(t);
    let t1 = t.with_cpu(t.cpu.with_reg(SP, (sp - 4) as u32));
    lemma_sp_twice(t.cpu, (sp - 4) as u32, sp);
    lemma_pop(t1);
    let t2 = t.with_cpu(t.cpu.with_reg(SP, sp));
    lemma_ring(t2.cpu);
    lemma_code_again(s, t2, top - 8, top);
    assert((cs as u32) as u16 == cs);
    let t3 = t2.with_cpu(t2.cpu.with_segment(CS, cs, s.cpu.hidden[CS as int]));
    let t4 = t3.with_cpu(t3.cpu.with_ip(s.cpu.ip));
    assert(t4.cpu.regs =~= s.cpu.regs);
    assert(t4.cpu.sregs =~= s.cpu.sregs);
    assert(t4.cpu.hidden =~= s.cpu.hidden);
    assert(t4.cpu == s.cpu);
    lemma_sp_twice(s.cpu, sp, sp);
    assert(t4.sp_up(0).cpu == s.cpu);
}

} // verus!
