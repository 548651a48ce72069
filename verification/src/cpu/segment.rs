//! Segment registers and their hidden copies of descriptors, and the far
//! transfers that change the code segment.

use vstd::prelude::*;
use crate::cpu::interrupt::{count_fault, interrupt_protected_err};
use crate::cpu::operand::{pop_w, push_w, sp_up};
use crate::cpu::state::{Cpu, SegHidden, CS, DS, ES, FS, GS, SP, SS};
use crate::machine::{Machine, State};

verus! {

/// The copy of a descriptor. Base and limit are in pieces there, and the limit
/// counts pages when the granularity bit says so.
#[verifier::allow_in_spec]
pub fn hidden_of(lo: u32, hi: u32) -> SegHidden
    returns
        (SegHidden {
            base: (lo / 0x1_0000 + hi % 0x100 * 0x1_0000 + hi / 0x100_0000 * 0x100_0000) as u32,
            limit: (if hi / 0x80_0000 % 2 == 1 {
                (lo % 0x1_0000 + hi / 0x1_0000 % 0x10 * 0x1_0000) * 0x1000 + 0xFFF
            } else {
                lo % 0x1_0000 + hi / 0x1_0000 % 0x10 * 0x1_0000
            }) as u32,
            access: (hi / 0x100 % 0x100) as u8,
            big: hi / 0x40_0000 % 2 == 1,
        }),
{
    let units: u32 = lo % 0x1_0000 + hi / 0x1_0000 % 0x10 * 0x1_0000;
    SegHidden {
        base: lo / 0x1_0000 + hi % 0x100 * 0x1_0000 + hi / 0x100_0000 * 0x100_0000,
        limit: if hi / 0x80_0000 % 2 == 1 {
            units * 0x1000 + 0xFFF
        } else {
            units
        },
        access: (hi / 0x100 % 0x100) as u8,
        big: hi / 0x40_0000 % 2 == 1,
    }
}

/// What a segment register holds after a null selector was loaded.
#[verifier::allow_in_spec]
pub fn null_hidden() -> SegHidden
    returns
        (SegHidden { base: 0, limit: 0, access: 0, big: false }),
{
    SegHidden { base: 0, limit: 0, access: 0, big: false }
}

/// Privilege level of a descriptor.
#[verifier::allow_in_spec]
pub fn dpl_of(access: u8) -> u8
    returns
        (access / 0x20 % 4) as u8,
{
    access / 0x20 % 4
}

/// The vector with which a load of a segment register by software fails, if it
/// does. SS takes writable data of exactly the current privilege. CS takes code of
/// that privilege, or conforming code of at most it. The others take data or
/// readable code that the privilege and the selector's own reach.
#[verifier::opaque]
pub open spec fn load_fault(idx: usize, sel: u16, access: u8, cpl: u8) -> Option<u8> {
    let s = access & 0x10 != 0;
    let code = access & 0x08 != 0;
    let bit1 = access & 0x02 != 0;
    let conforming = access & 0x04 != 0;
    let present = access & 0x80 != 0;
    let dpl = dpl_of(access);
    let rpl = (sel % 4) as u8;
    if idx == SS {
        if !(s && !code && bit1) || rpl != cpl || dpl != cpl {
            Some(13)
        } else if !present {
            Some(12)
        } else {
            None
        }
    } else if idx == CS {
        if !s || !code || !(if conforming { dpl <= cpl } else { rpl <= cpl && dpl == cpl }) {
            Some(13)
        } else if !present {
            Some(11)
        } else {
            None
        }
    } else {
        if !(s && (!code || bit1)) || (!(code && conforming) && (dpl < cpl || dpl < rpl)) {
            Some(13)
        } else if !present {
            Some(11)
        } else {
            None
        }
    }
}

fn load_fault_of(idx: usize, sel: u16, access: u8, cpl: u8) -> (r: Option<u8>)
    ensures
        r == load_fault(idx, sel, access, cpl),
{
    proof {
        reveal(load_fault);
    }
    let s = access & 0x10 != 0;
    let code = access & 0x08 != 0;
    let bit1 = access & 0x02 != 0;
    let conforming = access & 0x04 != 0;
    let present = access & 0x80 != 0;
    let dpl: u8 = dpl_of(access);
    let rpl: u8 = (sel % 4) as u8;
    if idx == SS {
        if !(s && !code && bit1) || rpl != cpl || dpl != cpl {
            Some(13)
        } else if !present {
            Some(12)
        } else {
            None
        }
    } else if idx == CS {
        let ok = if conforming {
            dpl <= cpl
        } else {
            rpl <= cpl && dpl == cpl
        };
        if !s || !code || !ok {
            Some(13)
        } else if !present {
            Some(11)
        } else {
            None
        }
    } else {
        if !(s && (!code || bit1)) || (!(code && conforming) && (dpl < cpl || dpl < rpl)) {
            Some(13)
        } else if !present {
            Some(11)
        } else {
            None
        }
    }
}

impl Cpu {
    /// Base and limit of the descriptor table that a selector names.
    #[verifier::allow_in_spec]
    pub fn descriptor_table(&self, sel: u16) -> (u32, u32)
        returns
            (if sel / 4 % 2 == 1 {
                (self.ldtr_base, self.ldtr_limit)
            } else {
                (self.gdtr_base, self.gdtr_limit as u32)
            }),
    {
        if sel / 4 % 2 == 1 {
            (self.ldtr_base, self.ldtr_limit)
        } else {
            (self.gdtr_base, self.gdtr_limit as u32)
        }
    }

    pub open spec fn with_segment(self, idx: usize, sel: u16, h: SegHidden) -> Cpu {
        self.with_sreg(idx, sel).with_hidden(idx, h)
    }

    /// Segments are sixteen bytes times the selector: real and virtual 8086 mode.
    #[verifier::allow_in_spec]
    pub fn real_segments(&self) -> bool
        returns
            !self.pe() || self.vm86(),
    {
        !self.pe() || self.vm86()
    }

    /// A data segment that code of the given ring cannot reach becomes null.
    pub open spec fn unreachable_nulled(self, r: usize, cpl: u8) -> Cpu {
        let access = self.hidden[r as int].access;
        if access & 0x80 != 0 && access & 0x1C != 0x1C && dpl_of(access) < cpl {
            if self.real_segments() {
                self.with_segment(r, 0, SegHidden::real_mode(0))
            } else {
                self.with_segment(r, 0, null_hidden())
            }
        } else {
            self
        }
    }

    #[verifier::opaque]
    pub open spec fn all_unreachable_nulled(self, cpl: u8) -> Cpu {
        self.unreachable_nulled(DS, cpl).unreachable_nulled(ES, cpl).unreachable_nulled(
            FS,
            cpl,
        ).unreachable_nulled(GS, cpl)
    }
}

impl State {
    /// Reads a descriptor, as supervisor.
    #[verifier::opaque]
    pub open spec fn read_descriptor(self, sel: u16) -> (State, u32, u32) {
        let a = self.cpu.descriptor_table(sel).0.wrapping_add((sel / 8 * 8) as u32);
        let s0 = State { sys_access: true, ..self };
        let (s1, lo) = s0.read32(a);
        let (s2, hi) = s1.read32(a.wrapping_add(4));
        (State { sys_access: self.sys_access, ..s2 }, lo, hi)
    }

    /// The descriptor of a selector lies within its table.
    pub open spec fn in_table(self, sel: u16) -> bool {
        sel / 8 * 8 + 7 <= self.cpu.descriptor_table(sel).1
    }

    /// Loads a segment register without a check of privilege, as the processor
    /// does on its own. There must be a present descriptor.
    #[verifier::opaque]
    pub open spec fn load_seg_raw(self, idx: usize, sel: u16) -> Option<State> {
        if self.cpu.real_segments() {
            Some(self.with_cpu(self.cpu.with_segment(idx, sel, SegHidden::real_mode(sel))))
        } else if sel < 4 {
            Some(self.with_cpu(self.cpu.with_segment(idx, sel, null_hidden())))
        } else if !self.in_table(sel) {
            None
        } else {
            let (s, lo, hi) = self.read_descriptor(sel);
            if hi / 0x8000 % 2 == 0 {
                None
            } else {
                Some(s.with_cpu(s.cpu.with_segment(idx, sel, hidden_of(lo, hi))))
            }
        }
    }

    /// A fault of a segment load: the instruction is taken back to its start, and
    /// the selector without its privilege bits is the error code.
    #[verifier::opaque]
    pub open spec fn seg_exc(self, vector: u8, sel: u16) -> Option<State> {
        let s = self.with_cpu(self.cpu.with_ip(self.trap_ip));
        s.first_faulted(vector).counted(vector).interrupt_protected(
            vector,
            Some((sel / 4 * 4) as u32),
        )
    }

    /// Loads a segment register as an instruction does: whether it was loaded, or
    /// a fault was taken instead.
    #[verifier::opaque]
    pub open spec fn load_seg(self, idx: usize, sel: u16) -> Option<(State, bool)> {
        if self.cpu.real_segments() {
            Some(
                (self.with_cpu(self.cpu.with_segment(idx, sel, SegHidden::real_mode(sel))), true),
            )
        } else if sel < 4 {
            if idx == SS {
                match self.seg_exc(13, 0) {
                    None => None,
                    Some(s) => Some((s, false)),
                }
            } else {
                Some((self.with_cpu(self.cpu.with_segment(idx, sel, null_hidden())), true))
            }
        } else if !self.in_table(sel) {
            match self.seg_exc(13, sel) {
                None => None,
                Some(s) => Some((s, false)),
            }
        } else {
            let cpl = self.cpu.cpl();
            let (s, lo, hi) = self.read_descriptor(sel);
            match load_fault(idx, sel, (hi / 0x100 % 0x100) as u8, cpl) {
                Some(v) => match s.seg_exc(v, sel) {
                    None => None,
                    Some(t) => Some((t, false)),
                },
                None => {
                    let held = if idx == CS { (sel / 4 * 4 + cpl) as u16 } else { sel };
                    Some((s.with_cpu(s.cpu.with_segment(idx, held, hidden_of(lo, hi))), true))
                },
            }
        }
    }

    /// Copies call parameters `i - 1` down to 0 from the old stack.
    pub open spec fn copy_parameters(self, from: u32, i: nat, wide: bool) -> State
        decreases i,
    {
        if i == 0 {
            self
        } else {
            let a = from.wrapping_add(((if wide { 4int } else { 2int }) * (i - 1)) as u32);
            let (s, v) = if wide {
                self.read32(a)
            } else {
                let (s, v) = self.read16(a);
                (s, v as u32)
            };
            s.push_w(v, wide).copy_parameters(from, (i - 1) as nat, wide)
        }
    }

    /// A far call through a call gate. Where the target is more privileged, the
    /// stack is the one of that ring in the task state segment, and the old stack
    /// pointer and the parameters are copied onto it.
    #[verifier::opaque]
    pub open spec fn gate_call(self, lo: u32, hi: u32, gate32: bool) -> Option<State> {
        let gate_sel = (lo / 0x1_0000) as u16;
        let gate_off = if gate32 {
            (lo % 0x1_0000 + hi / 0x1_0000 * 0x1_0000) as u32
        } else {
            (lo % 0x1_0000) as u32
        };
        let (s, tlo, thi) = self.read_descriptor(gate_sel);
        let dpl = (thi / 0x2000 % 4) as u8;
        let cpl = s.cpu.cpl();
        let ready = if dpl < cpl {
            let old_ss = s.cpu.sregs[SS as int];
            let old_esp = s.cpu.regs[SP as int];
            let from = s.cpu.seg_base(SS).wrapping_add(old_esp);
            let t = s.cpu.tr_base.wrapping_add((4 + 8 * dpl) as u32);
            let (s1, new_esp) = s.read32(t);
            let (s2, new_ss) = s1.read16(t.wrapping_add(4));
            match s2.load_seg_raw(SS, new_ss) {
                None => None,
                Some(s3) => Some(
                    s3.with_cpu(s3.cpu.with_reg(SP, new_esp)).push_w(old_ss as u32, gate32).push_w(
                        old_esp,
                        gate32,
                    ).copy_parameters(from, (hi % 0x20) as nat, gate32),
                ),
            }
        } else {
            Some(s)
        };
        match ready {
            None => None,
            Some(r) => {
                let r1 = r.push_w(r.cpu.sregs[CS as int] as u32, gate32);
                let r2 = r1.push_w(r1.cpu.ip, gate32);
                let level = if dpl < cpl { dpl } else { cpl };
                match r2.load_seg_raw(CS, (gate_sel / 4 * 4 + level) as u16) {
                    None => None,
                    Some(r3) => Some(r3.with_cpu(r3.cpu.with_ip(gate_off))),
                }
            },
        }
    }

    /// A far call: to a code segment, or through a call gate.
    #[verifier::opaque]
    pub open spec fn far_call(self, sel: u16, off: u32, wide: bool) -> Option<State> {
        if !self.cpu.pe() {
            let s1 = self.push_w(self.cpu.sregs[CS as int] as u32, wide);
            let s2 = s1.push_w(s1.cpu.ip, wide);
            match s2.load_seg(CS, sel) {
                None => None,
                Some((s3, _)) => Some(s3.with_cpu(s3.cpu.with_ip(off))),
            }
        } else {
            let (s, lo, hi) = self.read_descriptor(sel);
            let access = (hi / 0x100 % 0x100) as u8;
            if access & 0x10 != 0 {
                let old_cs = s.cpu.sregs[CS as int] as u32;
                let ret = s.cpu.ip;
                match s.load_seg(CS, sel) {
                    None => None,
                    Some((t, ok)) => if ok {
                        let u = t.push_w(old_cs, wide).push_w(ret, wide);
                        Some(u.with_cpu(u.cpu.with_ip(off)))
                    } else {
                        Some(t)
                    },
                }
            } else if access & 0x1F == 0x0C {
                s.gate_call(lo, hi, true)
            } else if access & 0x1F == 0x04 {
                s.gate_call(lo, hi, false)
            } else {
                None
            }
        }
    }

    /// The vector with which SS cannot hold a selector at a privilege level.
    #[verifier::opaque]
    pub open spec fn ss_load_fault(self, sel: u16, cpl: u8) -> (State, Option<u8>) {
        if sel < 4 || (sel % 4) as u8 != cpl || !self.in_table(sel) {
            (self, Some(13))
        } else {
            let (s, lo, hi) = self.read_descriptor(sel);
            let access = (hi / 0x100 % 0x100) as u8;
            if access & 0x1A != 0x12 || dpl_of(access) != cpl {
                (s, Some(13))
            } else if access & 0x80 == 0 {
                (s, Some(12))
            } else {
                (s, None)
            }
        }
    }

    /// The last part of a return to an outer ring: takes the stack of that ring and
    /// installs its segments.
    #[verifier::opaque]
    pub open spec fn far_ret_enter(
        self,
        ip: u32,
        sel: u16,
        h: SegHidden,
        wide: bool,
        extra: u32,
    ) -> Option<State> {
        let cpl = (sel % 4) as u8;
        let (s1, esp) = self.sp_up(extra).pop_w(wide);
        let (s2, ss32) = s1.pop_w(wide);
        let ss = ss32 as u16;
        let (s3, bad) = s2.ss_load_fault(ss, cpl);
        match bad {
            Some(v) => s3.seg_exc(v, ss),
            None => {
                let s4 = s3.with_cpu(
                    s3.cpu.with_segment(CS, sel, h).with_ip(ip),
                );
                match s4.load_seg_raw(SS, ss) {
                    None => None,
                    Some(s5) => Some(
                        s5.with_cpu(
                            s5.cpu.with_reg(
                                SP,
                                esp.wrapping_add(extra),
                            ).all_unreachable_nulled(cpl),
                        ),
                    ),
                }
            },
        }
    }

    /// A far return to a less privileged ring, after IP and CS were popped.
    #[verifier::opaque]
    pub open spec fn far_ret_outer(self, ip: u32, sel: u16, wide: bool, extra: u32) -> Option<
        State,
    > {
        let cpl = (sel % 4) as u8;
        if sel < 4 {
            self.seg_exc(13, 0)
        } else if !self.in_table(sel) {
            self.seg_exc(13, sel)
        } else {
            let (s, lo, hi) = self.read_descriptor(sel);
            let access = (hi / 0x100 % 0x100) as u8;
            if access & 0x18 != 0x18 || dpl_of(access) != cpl {
                s.seg_exc(13, sel)
            } else if access & 0x80 == 0 {
                s.seg_exc(11, sel)
            } else {
                s.far_ret_enter(ip, sel, hidden_of(lo, hi), wide, extra)
            }
        }
    }

    /// A far return that drops `extra` bytes of parameters.
    #[verifier::opaque]
    pub open spec fn far_ret(self, wide: bool, extra: u32) -> Option<State> {
        let (s1, ip) = self.pop_w(wide);
        let (s2, sel32) = s1.pop_w(wide);
        let sel = sel32 as u16;
        if s2.cpu.pe() && (sel % 4) as u8 > s2.cpu.cpl() {
            s2.far_ret_outer(ip, sel, wide, extra)
        } else {
            match s2.load_seg(CS, sel) {
                None => None,
                Some((s3, ok)) => if ok {
                    Some(s3.with_cpu(s3.cpu.with_ip(ip)).sp_up(extra))
                } else {
                    Some(s3)
                },
            }
        }
    }
}

/// Reads the two halves of a descriptor.
pub fn read_descriptor(m: &mut Machine, sel: u16) -> (r: (u32, u32))
    ensures
        (final(m)@, r.0, r.1) == old(m)@.read_descriptor(sel),
{
    proof {
        reveal(State::read_descriptor);
    }
    let a: u32 = m.cpu.descriptor_table(sel).0.wrapping_add((sel / 8 * 8) as u32);
    let prev = m.sys_access;
    m.sys_access = true;
    let lo: u32 = m.read32(a);
    let hi: u32 = m.read32(a.wrapping_add(4));
    m.sys_access = prev;
    (lo, hi)
}

fn install_seg(m: &mut Machine, idx: usize, sel: u16, h: SegHidden)
    requires
        idx < 6,
    ensures
        final(m)@ == old(m)@.with_cpu(old(m)@.cpu.with_segment(idx, sel, h)),
{
    m.cpu.sregs[idx] = sel;
    m.cpu.hidden[idx] = h;
}

/// Whether the descriptor of a selector lies within its table.
pub fn in_table(m: &Machine, sel: u16) -> (r: bool)
    ensures
        r == m@.in_table(sel),
{
    (sel / 8 * 8) as u32 + 7 <= m.cpu.descriptor_table(sel).1
}

/// Loads a segment register without a check of privilege.
pub fn load_seg_raw(m: &mut Machine, idx: usize, sel: u16)
    requires
        idx < 6,
        old(m)@.load_seg_raw(idx, sel) is Some,
    ensures
        Some(final(m)@) == old(m)@.load_seg_raw(idx, sel),
{
    proof {
        reveal(State::load_seg_raw);
    }
    if m.cpu.real_segments() {
        install_seg(m, idx, sel, SegHidden::real_mode(sel));
    } else if sel < 4 {
        install_seg(m, idx, sel, null_hidden());
    } else {
        let d = read_descriptor(m, sel);
        install_seg(m, idx, sel, hidden_of(d.0, d.1));
    }
}

/// Takes a fault of a segment load.
pub fn seg_exc(m: &mut Machine, vector: u8, sel: u16)
    requires
        old(m)@.seg_exc(vector, sel) is Some,
    ensures
        Some(final(m)@) == old(m)@.seg_exc(vector, sel),
{
    proof {
        reveal(State::seg_exc);
    }
    let ip: u32 = m.trap_ip;
    m.cpu.set_ip(ip);
    count_fault(m, vector);
    interrupt_protected_err(m, vector, Some((sel / 4 * 4) as u32));
}

/// Loads a segment register as an instruction does. Gives false when a fault was
/// taken: the rest of the instruction must then not happen.
#[must_use]
pub fn load_seg(m: &mut Machine, idx: usize, sel: u16) -> (ok: bool)
    requires
        idx < 6,
        old(m)@.load_seg(idx, sel) is Some,
    ensures
        Some((final(m)@, ok)) == old(m)@.load_seg(idx, sel),
{
    proof {
        reveal(State::load_seg);
    }
    if m.cpu.real_segments() {
        install_seg(m, idx, sel, SegHidden::real_mode(sel));
        return true;
    }
    if sel < 4 {
        if idx == SS {
            seg_exc(m, 13, 0);
            return false;
        }
        install_seg(m, idx, sel, null_hidden());
        return true;
    }
    if !in_table(m, sel) {
        seg_exc(m, 13, sel);
        return false;
    }
    let cpl: u8 = m.cpu.cpl();
    proof {
        lemma_cpl(m.cpu);
    }
    let d = read_descriptor(m, sel);
    match load_fault_of(idx, sel, (d.1 / 0x100 % 0x100) as u8, cpl) {
        Some(v) => {
            seg_exc(m, v, sel);
            false
        },
        None => {
            let held: u16 = if idx == CS {
                sel / 4 * 4 + cpl as u16
            } else {
                sel
            };
            install_seg(m, idx, held, hidden_of(d.0, d.1));
            true
        },
    }
}

/// The privilege level is 0 to 3.
pub proof fn lemma_cpl(c: Cpu)
    ensures
        c.cpl() <= 3,
        c.iopl() <= 3,
{
    lemma_two_bits(c.sregs[CS as int], c.flags);
}

proof fn lemma_two_bits(sel: u16, flags: u32)
    by (bit_vector)
    ensures
        (sel & 3) as u8 <= 3,
        ((flags >> 12) & 3) as u8 <= 3,
{
}

/// Loads a segment register; a fault that it takes is the caller's next
/// instruction.
pub fn load_seg_pub(m: &mut Machine, idx: usize, sel: u16)
    requires
        idx < 6,
        old(m)@.load_seg(idx, sel) is Some,
    ensures
        old(m)@.load_seg(idx, sel) matches Some((s, _)) && final(m)@ == s,
{
    let _ = load_seg(m, idx, sel);
}

fn copy_parameters(m: &mut Machine, from: u32, count: u32, wide: bool)
    requires
        count < 0x20,
    ensures
        final(m)@ == old(m)@.copy_parameters(from, count as nat, wide),
{
    let mut i: u32 = count;
    while i > 0
        invariant
            i <= count,
            count < 0x20,
            m@.copy_parameters(from, i as nat, wide) == old(m)@.copy_parameters(
                from,
                count as nat,
                wide,
            ),
        decreases i,
    {
        i = i - 1;
        let a: u32 = from.wrapping_add(if wide {
            4 * i
        } else {
            2 * i
        });
        let v: u32 = if wide {
            m.read32(a)
        } else {
            m.read16(a) as u32
        };
        push_w(m, v, wide);
    }
}

fn gate_call(m: &mut Machine, lo: u32, hi: u32, gate32: bool)
    requires
        old(m)@.gate_call(lo, hi, gate32) is Some,
    ensures
        Some(final(m)@) == old(m)@.gate_call(lo, hi, gate32),
{
    proof {
        reveal(State::gate_call);
    }
    let gate_sel: u16 = (lo / 0x1_0000) as u16;
    let gate_off: u32 = if gate32 {
        lo % 0x1_0000 + hi / 0x1_0000 * 0x1_0000
    } else {
        lo % 0x1_0000
    };
    let t = read_descriptor(m, gate_sel);
    let dpl: u8 = (t.1 / 0x2000 % 4) as u8;
    let cpl: u8 = m.cpu.cpl();
    proof {
        lemma_cpl(m.cpu);
    }
    if dpl < cpl {
        let old_ss: u16 = m.cpu.sregs[SS];
        let old_esp: u32 = m.cpu.regs[SP];
        let from: u32 = m.cpu.seg_base(SS).wrapping_add(old_esp);
        let a: u32 = m.cpu.tr_base.wrapping_add(4 + 8 * dpl as u32);
        let new_esp: u32 = m.read32(a);
        let new_ss: u16 = m.read16(a.wrapping_add(4));
        load_seg_raw(m, SS, new_ss);
        m.cpu.set_reg32(SP, new_esp);
        push_w(m, old_ss as u32, gate32);
        push_w(m, old_esp, gate32);
        copy_parameters(m, from, hi % 0x20, gate32);
    }
    let cs: u32 = m.cpu.sregs[CS] as u32;
    push_w(m, cs, gate32);
    let ip: u32 = m.cpu.ip;
    push_w(m, ip, gate32);
    let level: u8 = if dpl < cpl {
        dpl
    } else {
        cpl
    };
    load_seg_raw(m, CS, gate_sel / 4 * 4 + level as u16);
    m.cpu.set_ip(gate_off);
}

/// A far call.
pub fn far_call(m: &mut Machine, sel: u16, off: u32, wide: bool)
    requires
        old(m)@.far_call(sel, off, wide) is Some,
    ensures
        Some(final(m)@) == old(m)@.far_call(sel, off, wide),
{
    proof {
        reveal(State::far_call);
    }
    if !m.cpu.pe() {
        let cs: u32 = m.cpu.sregs[CS] as u32;
        push_w(m, cs, wide);
        let ip: u32 = m.cpu.ip;
        push_w(m, ip, wide);
        let _ = load_seg(m, CS, sel);
        m.cpu.set_ip(off);
        return;
    }
    let d = read_descriptor(m, sel);
    let access: u8 = (d.1 / 0x100 % 0x100) as u8;
    if access & 0x10 != 0 {
        let old_cs: u32 = m.cpu.sregs[CS] as u32;
        let ret: u32 = m.cpu.ip;
        if load_seg(m, CS, sel) {
            push_w(m, old_cs, wide);
            push_w(m, ret, wide);
            m.cpu.set_ip(off);
        }
        return;
    }
    gate_call(m, d.0, d.1, access & 0x1F == 0x0C);
}

fn ss_load_fault(m: &mut Machine, sel: u16, cpl: u8) -> (r: Option<u8>)
    ensures
        (final(m)@, r) == old(m)@.ss_load_fault(sel, cpl),
{
    proof {
        reveal(State::ss_load_fault);
    }
    if sel < 4 || (sel % 4) as u8 != cpl || !in_table(m, sel) {
        return Some(13);
    }
    let d = read_descriptor(m, sel);
    let access: u8 = (d.1 / 0x100 % 0x100) as u8;
    if access & 0x1A != 0x12 || dpl_of(access) != cpl {
        return Some(13);
    }
    if access & 0x80 == 0 {
        return Some(12);
    }
    None
}

fn null_if_unreachable(c: &mut Cpu, r: usize, cpl: u8)
    requires
        r < 6,
    ensures
        *final(c) == old(c).unreachable_nulled(r, cpl),
{
    let access: u8 = c.hidden[r].access;
    if access & 0x80 != 0 && access & 0x1C != 0x1C && dpl_of(access) < cpl {
        let h = if c.real_segments() {
            SegHidden::real_mode(0)
        } else {
            null_hidden()
        };
        c.sregs[r] = 0;
        c.hidden[r] = h;
    }
}

/// On the way to an outer ring, data segments that it cannot reach become null.
pub fn null_unreachable_data_segs(m: &mut Machine, new_cpl: u8)
    ensures
        final(m)@ == old(m)@.with_cpu(old(m)@.cpu.all_unreachable_nulled(new_cpl)),
{
    proof {
        reveal(Cpu::all_unreachable_nulled);
    }
    null_if_unreachable(&mut m.cpu, DS, new_cpl);
    null_if_unreachable(&mut m.cpu, ES, new_cpl);
    null_if_unreachable(&mut m.cpu, FS, new_cpl);
    null_if_unreachable(&mut m.cpu, GS, new_cpl);
}

fn far_ret_enter(m: &mut Machine, ip: u32, sel: u16, h: SegHidden, wide: bool, extra: u32)
    requires
        old(m)@.far_ret_enter(ip, sel, h, wide, extra) is Some,
    ensures
        Some(final(m)@) == old(m)@.far_ret_enter(ip, sel, h, wide, extra),
{
    proof {
        reveal(State::far_ret_enter);
    }
    let cpl: u8 = (sel % 4) as u8;
    sp_up(m, extra);
    let esp: u32 = pop_w(m, wide);
    let ss: u16 = pop_w(m, wide) as u16;
    if let Some(v) = ss_load_fault(m, ss, cpl) {
        seg_exc(m, v, ss);
        return;
    }
    install_seg(m, CS, sel, h);
    m.cpu.set_ip(ip);
    load_seg_raw(m, SS, ss);
    m.cpu.set_reg32(SP, esp.wrapping_add(extra));
    null_unreachable_data_segs(m, cpl);
}

fn far_ret_outer(m: &mut Machine, ip: u32, sel: u16, wide: bool, extra: u32)
    requires
        old(m)@.far_ret_outer(ip, sel, wide, extra) is Some,
    ensures
        Some(final(m)@) == old(m)@.far_ret_outer(ip, sel, wide, extra),
{
    proof {
        reveal(State::far_ret_outer);
    }
    let cpl: u8 = (sel % 4) as u8;
    if sel < 4 {
        seg_exc(m, 13, 0);
        return;
    }
    if !in_table(m, sel) {
        seg_exc(m, 13, sel);
        return;
    }
    let d = read_descriptor(m, sel);
    let access: u8 = (d.1 / 0x100 % 0x100) as u8;
    if access & 0x18 != 0x18 || dpl_of(access) != cpl {
        seg_exc(m, 13, sel);
        return;
    }
    if access & 0x80 == 0 {
        seg_exc(m, 11, sel);
        return;
    }
    far_ret_enter(m, ip, sel, hidden_of(d.0, d.1), wide, extra);
}

/// A far return that drops `extra_pop` bytes of parameters.
pub fn far_ret(m: &mut Machine, wide: bool, extra_pop: u32)
    requires
        old(m)@.far_ret(wide, extra_pop) is Some,
    ensures
        Some(final(m)@) == old(m)@.far_ret(wide, extra_pop),
{
    proof {
        reveal(State::far_ret);
    }
    let ip: u32 = pop_w(m, wide);
    let sel: u16 = pop_w(m, wide) as u16;
    if m.cpu.pe() && (sel % 4) as u8 > m.cpu.cpl() {
        far_ret_outer(m, ip, sel, wide, extra_pop);
    } else if load_seg(m, CS, sel) {
        m.cpu.set_ip(ip);
        sp_up(m, extra_pop);
    }
}

/// A segment load that is refused does nothing but take its fault, at the start of
/// the instruction: but for the marks of page walks the rest is as it was.
pub proof fn law_refused_load(s: State, idx: usize, sel: u16)
    requires
        s.load_seg(idx, sel) matches Some((t, ok)) && !ok,
    ensures
        exists|
            f: Option<crate::machine::Fault>,
            marks: Seq<crate::walk::Mark>,
            v: u8,
            e: u16,
        |
            11 <= v <= 13 && #[trigger] (State { pending_fault: f, marks, ..s }).seg_exc(v, e)
                == Some((s.load_seg(idx, sel)->0).0),
{
    reveal(State::load_seg);
    reveal(State::read_descriptor);
    let a = s.cpu.descriptor_table(sel).0.wrapping_add((sel / 8 * 8) as u32);
    let s0 = State { sys_access: true, ..s };
    crate::machine::lemma_read_keeps(s0, a);
    let s1 = s0.read32(a).0;
    crate::machine::lemma_read_keeps(s1, a.wrapping_add(4));
    let s2 = s.read_descriptor(sel).0;
    let f = s2.pending_fault;
    assert(s2 == State { pending_fault: f, marks: s2.marks, ..s });
    assert(s == State { pending_fault: s.pending_fault, marks: s.marks, ..s });
    let got = Some((s.load_seg(idx, sel)->0).0);
    if sel < 4 {
        assert((State { pending_fault: s.pending_fault, marks: s.marks, ..s }).seg_exc(13, 0) == got);
    } else if !s.in_table(sel) {
        assert((State { pending_fault: s.pending_fault, marks: s.marks, ..s }).seg_exc(13, sel) == got);
    } else {
        reveal(load_fault);
        let hi = s.read_descriptor(sel).2;
        let v = load_fault(idx, sel, (hi / 0x100 % 0x100) as u8, s.cpu.cpl())->0;
        assert((State { pending_fault: f, marks: s2.marks, ..s }).seg_exc(v, sel) == got);
    }
}

/// A far call to a code segment that cannot be loaded pushes nothing: it does no
/// more than the load that was refused.
pub proof fn law_refused_call(s: State, sel: u16, off: u32, wide: bool)
    requires
        s.cpu.pe(),
        (s.read_descriptor(sel).2 / 0x100 % 0x100) as u8 & 0x10 != 0,
        s.read_descriptor(sel).0.load_seg(CS, sel) matches Some((t, ok)) && !ok,
    ensures
        s.far_call(sel, off, wide) == Some((s.read_descriptor(sel).0.load_seg(CS, sel)->0).0),
{
    reveal(State::far_call);
}

} // verus!
