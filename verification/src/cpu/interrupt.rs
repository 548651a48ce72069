//! Delivery of interrupts and exceptions, and the return from them.
//!
//! In real mode the vector table at address 0 says where a handler is; in
//! protected mode a gate of the interrupt descriptor table does, and the ring may
//! change on the way.
//!
//! A machine whose descriptor tables do not hold what a delivery needs has no next
//! state: the spec functions here give `None` for it.

use vstd::prelude::*;
use crate::cpu::operand::{pop16, pop32, push16, push32};
use crate::cpu::segment::load_seg_raw;
use crate::cpu::state::{Cpu, CS, IF, SP, SS, TF};
use crate::machine::{LogState, Machine, State};

verus! {

/// Flags that IRET takes from the stack in protected mode.
pub const IRET_MASK: u32 = 0x0024_7FD5;

/// The last interrupts with one more; beyond 32 the oldest goes.
pub open spec fn with_recent(
    recent: Seq<(u8, u16, u32)>,
    entry: (u8, u16, u32),
) -> Seq<(u8, u16, u32)> {
    if recent.len() == 32 {
        recent.remove(0).push(entry)
    } else {
        recent.push(entry)
    }
}

impl State {
    /// Counts a vector and puts it among the last interrupts.
    #[verifier::opaque]
    pub open spec fn counted(self, n: u8) -> State {
        State {
            log: LogState {
                int_counts: vstd::array::spec_array_update(
                    self.log.int_counts,
                    n as int,
                    self.log.int_counts[n as int].wrapping_add(1),
                ),
                int_recent: with_recent(
                    self.log.int_recent,
                    (n, self.cpu.sregs[CS as int], self.cpu.ip),
                ),
                ..self.log
            },
            ..self
        }
    }

    /// Notes where a vector was taken for the first time.
    #[verifier::opaque]
    pub open spec fn first_taken(self, n: u8) -> State {
        if self.log.int_counts[n as int] == 0 {
            State {
                log: LogState {
                    int_first: vstd::array::spec_array_update(
                        self.log.int_first,
                        n as int,
                        (self.cpu.sregs[CS as int], self.cpu.ip),
                    ),
                    ..self.log
                },
                ..self
            }
        } else {
            self
        }
    }

    /// Notes the first fault of the machine.
    #[verifier::opaque]
    pub open spec fn first_faulted(self, n: u8) -> State {
        if self.log.first_fault is None {
            State {
                log: LogState {
                    first_fault: Some((n, self.cpu.sregs[CS as int], self.cpu.ip)),
                    ..self.log
                },
                ..self
            }
        } else {
            self
        }
    }

    /// Takes a vector in real mode: flags, CS and IP go on the stack, interrupts
    /// and single steps are off, and the vector table says where to go.
    #[verifier::opaque]
    pub open spec fn interrupt_real(self, n: u8) -> State {
        let s1 = self.push16((self.cpu.eflags() as u16) | 0xF002);
        let s2 = s1.with_cpu(s1.cpu.with_flag(IF, false).with_flag(TF, false));
        let s3 = s2.push16(s2.cpu.sregs[CS as int]);
        let s4 = s3.push16(s3.cpu.ip as u16);
        let vec = (4 * n) as u32;
        let (s5, ip) = s4.read16(vec);
        let s6 = s5.with_cpu(Cpu { ip: ip as u32, ..s5.cpu });
        let (s7, cs) = s6.read16((vec + 2) as u32);
        s7.with_cpu(s7.cpu.with_sreg(CS, cs))
    }

    /// Takes a vector through a 32-bit gate of the descriptor table. There must be
    /// a present interrupt or trap gate for it. Where the target segment is more
    /// privileged, the stack is the one that the task state segment holds, and the
    /// old one is pushed onto it. An interrupt gate turns interrupts off.
    #[verifier::opaque]
    pub open spec fn deliver(self, n: u8, err: Option<u32>) -> Option<State> {
        let off = 8 * n;
        if off + 7 > self.cpu.idtr_limit {
            None
        } else {
            let a = self.cpu.idtr_base.wrapping_add(off as u32);
            let (s1, lo) = self.read32(a);
            let (s2, hi) = s1.read32(a.wrapping_add(4));
            let ty = (hi / 0x100 % 0x20) as u8;
            let sel = (lo / 0x1_0000) as u16;
            let dest = (lo % 0x1_0000 + hi / 0x1_0000 * 0x1_0000) as u32;
            if hi / 0x8000 % 2 == 0 || (ty != 0x0E && ty != 0x0F) {
                None
            } else {
                let g = s2.cpu.gdtr_base.wrapping_add((sel / 8 * 8) as u32);
                let (s3, ghi) = s2.read32(g.wrapping_add(4));
                let target_dpl = (ghi / 0x2000 % 4) as u8;
                match (if target_dpl < s3.cpu.cpl() {
                    s3.to_inner_stack()
                } else {
                    Some(s3)
                }) {
                    None => None,
                    Some(s4) => {
                        let s5 = s4.push32(s4.cpu.eflags());
                        let s6 = s5.push32(s5.cpu.sregs[CS as int] as u32);
                        let s7 = s6.push32(s6.cpu.ip);
                        let s8 = match err {
                            Some(e) => s7.push32(e),
                            None => s7,
                        };
                        let s9 = if ty == 0x0E {
                            s8.with_cpu(s8.cpu.with_flag(IF, false))
                        } else {
                            s8
                        };
                        match s9.with_cpu(s9.cpu.with_flag(TF, false)).load_seg_raw(CS, sel) {
                            None => None,
                            Some(s10) => Some(s10.with_cpu(s10.cpu.with_ip(dest))),
                        }
                    },
                }
            }
        }
    }

    /// Switches to the stack that the task state segment holds for ring 0 and
    /// pushes the old stack pointer onto it.
    #[verifier::opaque]
    pub open spec fn to_inner_stack(self) -> Option<State> {
        let old_ss = self.cpu.sregs[SS as int] as u32;
        let old_esp = self.cpu.regs[SP as int];
        let (s1, esp0) = self.read32(self.cpu.tr_base.wrapping_add(4));
        let (s2, ss0) = s1.read16(s1.cpu.tr_base.wrapping_add(8));
        match s2.load_seg_raw(SS, ss0) {
            None => None,
            Some(s3) => Some(
                s3.with_cpu(s3.cpu.with_reg(SP, esp0)).push32(old_ss).push32(old_esp),
            ),
        }
    }

    /// [`deliver`](Self::deliver), with the processor's own memory accesses done
    /// as supervisor.
    #[verifier::opaque]
    pub open spec fn interrupt_protected(self, n: u8, err: Option<u32>) -> Option<State> {
        match (State { sys_access: true, ..self }).deliver(n, err) {
            None => None,
            Some(s) => Some(State { sys_access: self.sys_access, ..s }),
        }
    }

    /// Takes a vector.
    #[verifier::opaque]
    pub open spec fn interrupt(self, n: u8) -> Option<State> {
        let s = self.first_taken(n).counted(n);
        if s.cpu.pe() {
            s.interrupt_protected(n, None)
        } else {
            Some(s.interrupt_real(n))
        }
    }

    /// Privilege level in the descriptor of a vector.
    pub open spec fn gate_dpl(self, n: u8) -> (State, u8) {
        let s = State { sys_access: true, ..self };
        let (t, hi) = s.read32(s.cpu.idtr_base.wrapping_add((8 * n) as u32).wrapping_add(4));
        (State { sys_access: self.sys_access, ..t }, (hi / 0x2000 % 4) as u8)
    }

    /// The INT instruction: user code may only use a gate that is open to it, and
    /// gets a general protection fault for any other.
    #[verifier::opaque]
    pub open spec fn software_int(self, n: u8, start_ip: u32) -> Option<State> {
        if self.cpu.pe() && 8 * n + 7 <= self.cpu.idtr_limit {
            let (s, dpl) = self.gate_dpl(n);
            if dpl < s.cpu.cpl() {
                s.gp_fault(start_ip, (8 * n + 2) as u32)
            } else {
                s.interrupt(n)
            }
        } else {
            self.interrupt(n)
        }
    }

    /// A general protection fault at the start of an instruction.
    #[verifier::opaque]
    pub open spec fn gp_fault(self, start_ip: u32, err: u32) -> Option<State> {
        let s = self.with_cpu(self.cpu.with_ip(start_ip));
        if s.cpu.pe() {
            s.first_faulted(13).counted(13).interrupt_protected(13, Some(err))
        } else {
            s.first_faulted(13).interrupt(13)
        }
    }

    /// An undefined instruction at the given address.
    pub open spec fn undefined(self, start_ip: u32) -> Option<State> {
        self.with_cpu(self.cpu.with_ip(start_ip)).interrupt(6)
    }

    #[verifier::opaque]
    pub open spec fn page_fault(self, err: u32) -> Option<State> {
        self.first_faulted(14).counted(14).interrupt_protected(14, Some(err))
    }

    #[verifier::opaque]
    pub open spec fn divide_error(self, start_ip: u32) -> Option<State> {
        self.with_cpu(Cpu { ip: start_ip, ..self.cpu }).first_faulted(0).interrupt(0)
    }

    /// Returns from an interrupt. In protected mode 32-bit values are popped; a
    /// return to a less privileged ring pops the outer stack pointer too, all of
    /// it before the ring changes.
    #[verifier::opaque]
    pub open spec fn iret(self) -> Option<State> {
        if self.cpu.pe() {
            let (s1, ip) = self.pop32();
            let (s2, sel32) = s1.pop32();
            let sel = sel32 as u16;
            let (s3, f) = s2.pop32();
            let outer = (sel % 4) as u8 > s3.cpu.cpl();
            let (s4, esp) = if outer { s3.pop32() } else { (s3, 0u32) };
            let (s5, ss32) = if outer { s4.pop32() } else { (s4, 0u32) };
            match s5.load_seg_raw(CS, sel) {
                None => None,
                Some(s6) => {
                    let s7 = s6.with_cpu(
                        s6.cpu.with_ip(ip).with_eflags((f & IRET_MASK) | 0x0002),
                    );
                    if outer {
                        match s7.load_seg_raw(SS, ss32 as u16) {
                            None => None,
                            Some(s8) => Some(s8.with_cpu(s8.cpu.with_reg(SP, esp))),
                        }
                    } else {
                        Some(s7)
                    }
                },
            }
        } else {
            let (s1, ip) = self.pop16();
            let s2 = s1.with_cpu(Cpu { ip: ip as u32, ..s1.cpu });
            let (s3, cs) = s2.pop16();
            let s4 = s3.with_cpu(s3.cpu.with_sreg(CS, cs));
            let (s5, f) = s4.pop16();
            Some(s5.with_cpu(s5.cpu.with_eflags((f as u32 & 0x0FD5) | 0x0002)))
        }
    }

    /// Whether the task state segment lets the current code use a port.
    pub open spec fn io_bitmap_allows(self, port: u16, bytes: u8) -> (State, bool) {
        let s0 = State { sys_access: true, ..self };
        let (s1, base) = s0.read16(s0.cpu.tr_base.wrapping_add(0x66));
        let at = (base + port / 8) as u32;
        if at + 1 > s1.cpu.tr_limit {
            (State { sys_access: self.sys_access, ..s1 }, false)
        } else {
            let (s2, word) = s1.read16(s1.cpu.tr_base.wrapping_add(at));
            let ones: u16 = if bytes == 1 { 1 } else if bytes == 2 { 3 } else { 15 };
            (
                State { sys_access: self.sys_access, ..s2 },
                (word >> (port % 8)) & ones == 0,
            )
        }
    }

    /// Whether the current code may use a port: always in real mode and where the
    /// I/O privilege level allows it, else as the task state segment says.
    #[verifier::opaque]
    pub open spec fn io_permitted(self, port: u16, bytes: u8) -> (State, bool) {
        if !self.cpu.pe() || (!self.cpu.vm86() && self.cpu.cpl() <= self.cpu.iopl()) {
            (self, true)
        } else {
            self.io_bitmap_allows(port, bytes)
        }
    }
}

fn count(m: &mut Machine, n: u8)
    ensures
        final(m)@ == old(m)@.counted(n),
{
    proof {
        reveal(State::counted);
    }
    let cs: u16 = m.cpu.sregs[CS];
    let ip: u32 = m.cpu.ip;
    m.log.int_counts[n as usize] = m.log.int_counts[n as usize].wrapping_add(1);
    if m.log.int_recent.len() == 32 {
        m.log.int_recent.remove(0);
    }
    m.log.int_recent.push((n, cs, ip));
}

fn note_first_fault(m: &mut Machine, n: u8)
    ensures
        final(m)@ == old(m)@.first_faulted(n),
{
    proof {
        reveal(State::first_faulted);
    }
    if m.log.first_fault.is_none() {
        m.log.first_fault = Some((n, m.cpu.sregs[CS], m.cpu.ip));
    }
}

/// Counts a fault of a vector and notes the first one.
pub fn count_fault(m: &mut Machine, n: u8)
    ensures
        final(m)@ == old(m)@.first_faulted(n).counted(n),
{
    note_first_fault(m, n);
    count(m, n);
}

/// Takes an interrupt or exception.
pub fn interrupt(m: &mut Machine, n: u8)
    requires
        old(m)@.interrupt(n) is Some,
    ensures
        Some(final(m)@) == old(m)@.interrupt(n),
{
    proof {
        reveal(State::interrupt);
        reveal(State::interrupt_real);
        reveal(State::first_taken);
    }
    if m.log.int_counts[n as usize] == 0 {
        m.log.int_first[n as usize] = (m.cpu.sregs[CS], m.cpu.ip);
    }
    count(m, n);
    if m.cpu.pe() {
        interrupt_protected_err(m, n, None);
        return;
    }
    let f: u16 = (m.cpu.eflags() as u16) | 0xF002;
    push16(m, f);
    m.cpu.set_flag(IF, false);
    m.cpu.set_flag(TF, false);
    let cs: u16 = m.cpu.sregs[CS];
    push16(m, cs);
    let ip: u16 = m.cpu.ip as u16;
    push16(m, ip);
    let vec: u32 = 4 * n as u32;
    let to_ip: u16 = m.read16(vec);
    m.cpu.ip = to_ip as u32;
    let to_cs: u16 = m.read16(vec + 2);
    m.cpu.sregs[CS] = to_cs;
}

/// Takes a vector in protected mode, with an error code for the handler where
/// there is one.
pub fn interrupt_protected_err(m: &mut Machine, n: u8, err: Option<u32>)
    requires
        old(m)@.interrupt_protected(n, err) is Some,
    ensures
        Some(final(m)@) == old(m)@.interrupt_protected(n, err),
{
    proof {
        reveal(State::interrupt_protected);
    }
    let prev = m.sys_access;
    m.sys_access = true;
    interrupt_protected_inner(m, n, err);
    m.sys_access = prev;
}

fn inner_stack(m: &mut Machine)
    requires
        old(m)@.to_inner_stack() is Some,
    ensures
        Some(final(m)@) == old(m)@.to_inner_stack(),
{
    proof {
        reveal(State::to_inner_stack);
    }
    let old_ss: u32 = m.cpu.sregs[SS] as u32;
    let old_esp: u32 = m.cpu.regs[SP];
    let a: u32 = m.cpu.tr_base.wrapping_add(4);
    let esp0: u32 = m.read32(a);
    let b: u32 = m.cpu.tr_base.wrapping_add(8);
    let ss0: u16 = m.read16(b);
    load_seg_raw(m, SS, ss0);
    m.cpu.set_reg32(SP, esp0);
    push32(m, old_ss);
    push32(m, old_esp);
}

fn interrupt_protected_inner(m: &mut Machine, n: u8, err: Option<u32>)
    requires
        old(m)@.deliver(n, err) is Some,
    ensures
        Some(final(m)@) == old(m)@.deliver(n, err),
{
    proof {
        reveal(State::deliver);
    }
    let a: u32 = m.cpu.idtr_base.wrapping_add(8 * n as u32);
    let lo: u32 = m.read32(a);
    let hi: u32 = m.read32(a.wrapping_add(4));
    let ty: u8 = (hi / 0x100 % 0x20) as u8;
    let sel: u16 = (lo / 0x1_0000) as u16;
    let dest: u32 = lo % 0x1_0000 + hi / 0x1_0000 * 0x1_0000;
    let g: u32 = m.cpu.gdtr_base.wrapping_add((sel / 8 * 8) as u32);
    let ghi: u32 = m.read32(g.wrapping_add(4));
    let target_dpl: u8 = (ghi / 0x2000 % 4) as u8;
    if target_dpl < m.cpu.cpl() {
        inner_stack(m);
    }
    let f: u32 = m.cpu.eflags();
    push32(m, f);
    let cs: u32 = m.cpu.sregs[CS] as u32;
    push32(m, cs);
    let ip: u32 = m.cpu.ip;
    push32(m, ip);
    if let Some(e) = err {
        push32(m, e);
    }
    if ty == 0x0E {
        m.cpu.set_flag(IF, false);
    }
    m.cpu.set_flag(TF, false);
    load_seg_raw(m, CS, sel);
    m.cpu.set_ip(dest);
}

/// The INT instruction.
pub fn software_int(m: &mut Machine, n: u8, start_ip: u32)
    requires
        old(m)@.software_int(n, start_ip) is Some,
    ensures
        Some(final(m)@) == old(m)@.software_int(n, start_ip),
{
    proof {
        reveal(State::software_int);
    }
    if m.cpu.pe() && 8 * n as u32 + 7 <= m.cpu.idtr_limit as u32 {
        let prev = m.sys_access;
        m.sys_access = true;
        let a: u32 = m.cpu.idtr_base.wrapping_add(8 * n as u32).wrapping_add(4);
        let hi: u32 = m.read32(a);
        m.sys_access = prev;
        let dpl: u8 = (hi / 0x2000 % 4) as u8;
        if dpl < m.cpu.cpl() {
            gp_fault(m, start_ip, 8 * n as u32 + 2);
            return;
        }
    }
    interrupt(m, n);
}

pub fn gp_fault(m: &mut Machine, start_ip: u32, err: u32)
    requires
        old(m)@.gp_fault(start_ip, err) is Some,
    ensures
        Some(final(m)@) == old(m)@.gp_fault(start_ip, err),
{
    proof {
        reveal(State::gp_fault);
    }
    m.cpu.set_ip(start_ip);
    if m.cpu.pe() {
        count_fault(m, 13);
        interrupt_protected_err(m, 13, Some(err));
    } else {
        note_first_fault(m, 13);
        interrupt(m, 13);
    }
}

/// Interrupt 6 at the start of an instruction.
pub fn undefined(m: &mut Machine, start_ip: u32)
    requires
        old(m)@.undefined(start_ip) is Some,
    ensures
        Some(final(m)@) == old(m)@.undefined(start_ip),
{
    m.cpu.set_ip(start_ip);
    interrupt(m, 6);
}

/// Delivers a page fault. The instruction has been taken back and CR2 holds the
/// address.
pub fn page_fault(m: &mut Machine, err: u32)
    requires
        old(m)@.page_fault(err) is Some,
    ensures
        Some(final(m)@) == old(m)@.page_fault(err),
{
    proof {
        reveal(State::page_fault);
    }
    count_fault(m, 14);
    interrupt_protected_err(m, 14, Some(err));
}

/// Division by zero, or a quotient that does not fit: the return address is the
/// instruction itself.
pub fn divide_error(m: &mut Machine, start_ip: u32)
    requires
        old(m)@.divide_error(start_ip) is Some,
    ensures
        Some(final(m)@) == old(m)@.divide_error(start_ip),
{
    proof {
        reveal(State::divide_error);
    }
    m.cpu.ip = start_ip;
    note_first_fault(m, 0);
    interrupt(m, 0);
}

/// Returns from an interrupt.
pub fn iret(m: &mut Machine)
    requires
        old(m)@.iret() is Some,
    ensures
        Some(final(m)@) == old(m)@.iret(),
{
    proof {
        reveal(State::iret);
    }
    if m.cpu.pe() {
        let ip: u32 = pop32(m);
        let sel: u16 = pop32(m) as u16;
        let f: u32 = pop32(m);
        let outer = (sel % 4) as u8 > m.cpu.cpl();
        let esp: u32 = if outer {
            pop32(m)
        } else {
            0
        };
        let ss: u32 = if outer {
            pop32(m)
        } else {
            0
        };
        load_seg_raw(m, CS, sel);
        m.cpu.set_ip(ip);
        m.cpu.set_eflags((f & IRET_MASK) | 0x0002);
        if outer {
            load_seg_raw(m, SS, ss as u16);
            m.cpu.set_reg32(SP, esp);
        }
        return;
    }
    let ip: u16 = pop16(m);
    m.cpu.ip = ip as u32;
    let cs: u16 = pop16(m);
    m.cpu.sregs[CS] = cs;
    let f: u16 = pop16(m);
    m.cpu.set_eflags((f as u32 & 0x0FD5) | 0x0002);
}

/// Whether the current code may use a port.
pub fn io_permitted(m: &mut Machine, port: u16, bytes: u8) -> (r: bool)
    ensures
        (final(m)@, r) == old(m)@.io_permitted(port, bytes),
{
    proof {
        reveal(State::io_permitted);
    }
    if !m.cpu.pe() || (!m.cpu.vm86() && m.cpu.cpl() <= m.cpu.iopl()) {
        return true;
    }
    let prev = m.sys_access;
    m.sys_access = true;
    let a: u32 = m.cpu.tr_base.wrapping_add(0x66);
    let base: u16 = m.read16(a);
    let at: u32 = base as u32 + (port / 8) as u32;
    if at + 1 > m.cpu.tr_limit {
        m.sys_access = prev;
        return false;
    }
    let b: u32 = m.cpu.tr_base.wrapping_add(at);
    let word: u16 = m.read16(b);
    m.sys_access = prev;
    let ones: u16 = if bytes == 1 {
        1
    } else if bytes == 2 {
        3
    } else {
        15
    };
    (word >> (port % 8)) & ones == 0
}

/// The address of the word on a stack of real mode that is `n` bytes below the
/// stack pointer, which goes round the end of the segment.
pub open spec fn below(c: Cpu, n: u16) -> u32 {
    c.lin(SS, c.reg16(SP).wrapping_sub(n) as u32)
}

/// A word on the stack of real mode is pushed to where the stack pointer then points.
proof fn lemma_push_real(s: State, v: u16)
    requires
        !s.cpu.pe(),
        !s.cpu.pg(),
        below(s.cpu, 2) + 1 < s.mem.len(),
    ensures
        ({
            let t = s.push16(v);
            let a = below(s.cpu, 2);
            &&& t.cpu == s.cpu.with_reg16(SP, s.cpu.reg16(SP).wrapping_sub(2))
            &&& t.mem == s.mem.update(a as int, crate::machine::byte_of(v as u32, 0)).update(
                a + 1,
                crate::machine::byte_of(v as u32, 1),
            )
            &&& t.pending_fault == s.pending_fault
        }),
{
    reveal(State::push16);
    reveal(State::sp_down);
    reveal(State::write16);
    reveal(State::translate);
    reveal(State::with_phys8);
    let n = s.cpu.reg16(SP).wrapping_sub(2);
    let c = s.cpu.with_reg16(SP, n);
    lemma_low_half_twice(s.cpu, n, n);
    lemma_narrowed(s.cpu.reg16(SP) as u32);
    assert(s.sp_down(2).cpu == c);
    lemma_masked(s.cpu.seg_base(SS).wrapping_add(n as u32));
}

/// A word that is on the stack of real mode is popped.
proof fn lemma_pop_real(s: State, v: u16)
    requires
        !s.cpu.pe(),
        !s.cpu.pg(),
        below(s.cpu, 0) + 1 < s.mem.len(),
        s.mem[below(s.cpu, 0) as int] == crate::machine::byte_of(v as u32, 0),
        s.mem[below(s.cpu, 0) + 1] == crate::machine::byte_of(v as u32, 1),
    ensures
        s.pop16() == (s.with_cpu(s.cpu.with_reg16(SP, s.cpu.reg16(SP).wrapping_add(2))), v),
{
    reveal(State::pop16);
    reveal(State::sp_up);
    reveal(State::read16);
    reveal(State::read8);
    reveal(State::phys8);
    reveal(State::translate);
    crate::machine::law_bytes_of_word(v as u32);
    lemma_narrowed(s.cpu.reg16(SP) as u32);
    lemma_masked(s.cpu.seg_base(SS).wrapping_add(s.cpu.reg16(SP) as u32));
    assert(s.sp_up(2) == s.with_cpu(
        s.cpu.with_reg16(SP, s.cpu.reg16(SP).wrapping_add(2)),
    ));
}

proof fn lemma_narrowed(v: u32)
    requires
        v <= 0xFFFF,
    ensures
        v.wrapping_sub(2) as u16 == (v as u16).wrapping_sub(2),
        v.wrapping_add(2) as u16 == (v as u16).wrapping_add(2),
        crate::cpu::alu::narrow(v.wrapping_sub(2), false) as u16 == (v as u16).wrapping_sub(2),
        crate::cpu::alu::narrow(v.wrapping_add(2), false) as u16 == (v as u16).wrapping_add(2),
{
    let a = v.wrapping_sub(2);
    let b = v.wrapping_add(2);
    crate::cpu::meaning::lemma_parts(a, 0);
    crate::cpu::meaning::lemma_parts(b, 0);
}

proof fn lemma_masked(v: u32)
    ensures
        v & 0xF_FFFF <= 0xF_FFFF,
{
    crate::cpu::meaning::lemma_parts(v, 0);
}

/// The three words of a frame do not overlap, wherever the stack pointer is.
proof fn lemma_words_apart(c: Cpu)
    requires
        !c.pe(),
    ensures
        ({
            let a = below(c, 2);
            let b = below(c, 4);
            let d = below(c, 6);
            &&& a != b && a + 1 != b && a != b + 1
            &&& a != d && a + 1 != d && a != d + 1
            &&& b != d && b + 1 != d && b != d + 1
        }),
{
    let base = c.seg_base(SS);
    let sel = c.sregs[SS as int] as u32;
    crate::cpu::meaning::lemma_parts(sel, 0);
    let x = c.reg16(SP).wrapping_sub(2) as u32;
    let y = c.reg16(SP).wrapping_sub(4) as u32;
    let z = c.reg16(SP).wrapping_sub(6) as u32;
    lemma_two_apart(base, x, y);
    lemma_two_apart(base, y, z);
    lemma_two_apart(base, x, z);
}

proof fn lemma_two_apart(base: u32, x: u32, y: u32)
    requires
        base <= 0xF_FFF0,
        x <= 0xFFFF,
        y <= 0xFFFF,
        x == y + 2 || x == y + 4 || x + 0x1_0000 == y + 2 || x + 0x1_0000 == y + 4,
    ensures
        ({
            let a = base.wrapping_add(x) & 0xF_FFFF;
            let b = base.wrapping_add(y) & 0xF_FFFF;
            a != b && a + 1 != b && a != b + 1
        }),
{
    let p = (base + x) as u32;
    let q = (base + y) as u32;
    crate::cpu::meaning::lemma_parts(p, 0);
    crate::cpu::meaning::lemma_parts(q, 0);
}

/// Setting the low half of a register twice is setting it once, and setting it to
/// what it is changes nothing.
proof fn lemma_low_half_twice(c: Cpu, v: u16, w: u16)
    ensures
        c.with_reg16(SP, v).with_reg16(SP, w) == c.with_reg16(SP, w),
        c.with_reg16(SP, c.reg16(SP)) == c,
        c.with_reg16(SP, v).reg16(SP) == v,
{
    let r = c.regs[SP as int];
    assert((((r & 0xFFFF_0000) | v as u32) & 0xFFFF_0000) | w as u32 == (r & 0xFFFF_0000)
        | w as u32 && (r & 0xFFFF_0000) | (r as u16 as u32) == r && ((r & 0xFFFF_0000) | v as u32)
        as u16 == v) by (bit_vector);
    assert(c.with_reg16(SP, v).with_reg16(SP, w).regs =~= c.with_reg16(SP, w).regs);
    assert(c.with_reg16(SP, c.reg16(SP)).regs =~= c.regs);
}

/// The return from an interrupt of real mode undoes it: execution goes on where it
/// was, with the same registers and the same flags, also where the stack goes round
/// the end of its segment. The words on the stack must lie in memory.
pub proof fn law_real_interrupt_returns(s: State, n: u8)
    requires
        !s.cpu.pe(),
        !s.cpu.pg(),
        s.cpu.ip <= 0xFFFF,
        below(s.cpu, 2) + 1 < s.mem.len(),
        below(s.cpu, 4) + 1 < s.mem.len(),
        below(s.cpu, 6) + 1 < s.mem.len(),
    ensures
        s.interrupt_real(n).iret() matches Some(t) && {
            &&& t.cpu.ip == s.cpu.ip
            &&& t.cpu.sregs == s.cpu.sregs
            &&& t.cpu.regs == s.cpu.regs
            &&& t.cpu.eflags() == (s.cpu.eflags() & 0x0FD5) | 0x0002
        },
{
    reveal(State::interrupt_real);
    reveal(State::iret);
    reveal(Cpu::with_flag);
    let sp = s.cpu.reg16(SP);
    let x = sp.wrapping_sub(2);
    let y = sp.wrapping_sub(4);
    let z = sp.wrapping_sub(6);
    lemma_words_apart(s.cpu);
    let f = (s.cpu.eflags() as u16) | 0xF002;
    lemma_push_real(s, f);
    let s1 = s.push16(f);
    lemma_low_half_twice(s.cpu, x, y);
    let s2 = s1.with_cpu(s1.cpu.with_flag(IF, false).with_flag(TF, false));
    let cs = s2.cpu.sregs[CS as int];
    assert(below(s2.cpu, 2) == below(s.cpu, 4));
    lemma_push_real(s2, cs);
    let s3 = s2.push16(cs);
    lemma_low_half_twice(s2.cpu, y, z);
    let ip = s3.cpu.ip as u16;
    assert(below(s3.cpu, 2) == below(s.cpu, 6));
    lemma_push_real(s3, ip);
    let s4 = s3.push16(ip);
    lemma_low_half_twice(s3.cpu, z, y);
    let vec = (4 * n) as u32;
    crate::machine::lemma_read_keeps(s4, vec);
    let (s5, vip) = s4.read16(vec);
    let s6 = s5.with_cpu(Cpu { ip: vip as u32, ..s5.cpu });
    crate::machine::lemma_read_keeps(s6, (vec + 2) as u32);
    let (s7, vcs) = s6.read16((vec + 2) as u32);
    let i = s7.with_cpu(s7.cpu.with_sreg(CS, vcs));
    assert(i == s.interrupt_real(n));
    assert(i.mem == s4.mem);
    assert(below(i.cpu, 0) == below(s.cpu, 6));
    lemma_pop_real(i, ip);
    lemma_low_half_twice(i.cpu, y, x);
    let i1 = i.pop16().0;
    let i2 = i1.with_cpu(Cpu { ip: ip as u32, ..i1.cpu });
    assert(below(i2.cpu, 0) == below(s.cpu, 4));
    lemma_pop_real(i2, cs);
    lemma_low_half_twice(i2.cpu, x, sp);
    let i3 = i2.pop16().0;
    let i4 = i3.with_cpu(i3.cpu.with_sreg(CS, cs));
    assert(below(i4.cpu, 0) == below(s.cpu, 2));
    lemma_pop_real(i4, f);
    let i5 = i4.pop16().0;
    let flags = s.cpu.eflags();
    assert((((flags as u16) | 0xF002u16) as u32 & 0x0FD5) | 0x0002 == (flags & 0x0FD5) | 0x0002)
        by (bit_vector);
    crate::cpu::state::law_eflags_read_back(i5.cpu, (f as u32 & 0x0FD5) | 0x0002);
    lemma_low_half_twice(s.cpu, y, z);
    lemma_low_half_twice(s.cpu, z, y);
    lemma_low_half_twice(s.cpu, y, x);
    lemma_low_half_twice(s.cpu, x, sp);
    assert(s3.cpu.regs =~= s.cpu.with_reg16(SP, y).regs);
    assert(s4.cpu.regs =~= s.cpu.with_reg16(SP, z).regs);
    assert(i1.cpu.regs =~= s.cpu.with_reg16(SP, y).regs);
    assert(i3.cpu.regs =~= s.cpu.with_reg16(SP, x).regs);
    assert(i5.cpu.regs =~= s.cpu.regs);
    assert(i5.cpu.sregs =~= s.cpu.sregs);
}

} // verus!
