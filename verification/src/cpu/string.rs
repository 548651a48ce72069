//! String instructions and their repetition.
//!
//! A repeated instruction stops, with the registers at the element, when an access
//! faults. Fills and copies go page by page as far as they can; the rest goes one
//! element at a time.

use vstd::prelude::*;
use crate::cpu::alu::{alu16, alu32, alu8};
use crate::cpu::bulk::{bulk_movs, bulk_stos};
use crate::cpu::interrupt::{gp_fault, io_permitted};
use crate::cpu::operand::{segment_of, Decoder};
use crate::cpu::state::{Cpu, AX, CX, DF, DI, DS, DX, ES, SI, ZF};
use crate::machine::{Machine, State};

verus! {

/// Bytes per element.
#[verifier::allow_in_spec]
pub fn element_size(d: &Decoder, op: u8) -> u32
    returns
        (if op % 2 == 0 {
            1u32
        } else if d.opsize32 {
            4u32
        } else {
            2u32
        }),
{
    if op % 2 == 0 {
        1
    } else if d.opsize32 {
        4
    } else {
        2
    }
}

impl Cpu {
    /// An index register moved by one element, the way the direction flag says.
    #[verifier::opaque]
    pub open spec fn stepped(self, reg: usize, a32: bool, size: u32) -> Cpu {
        let cur = self.reg_w(reg, a32);
        self.with_reg_w(
            reg,
            if self.flag(DF) { cur.wrapping_sub(size) } else { cur.wrapping_add(size) },
            a32,
        )
    }

    /// The accumulator, as wide as an element.
    #[verifier::opaque]
    pub open spec fn element(self, size: u32) -> u32 {
        if size == 1 {
            self.reg8(0) as u32
        } else if size == 2 {
            self.reg16(AX) as u32
        } else {
            self.reg32(AX)
        }
    }

    #[verifier::opaque]
    pub open spec fn with_element(self, v: u32, size: u32) -> Cpu {
        if size == 1 {
            self.with_reg8(0, v as u8)
        } else if size == 2 {
            self.with_reg16(AX, v as u16)
        } else {
            self.with_reg(AX, v)
        }
    }

    /// The flags of comparing two elements.
    #[verifier::opaque]
    pub open spec fn after_compare(self, a: u32, b: u32, size: u32) -> Cpu {
        if size == 1 {
            self.after_alu(7, a as u8 as u32, b as u8 as u32, 0)
        } else if size == 2 {
            self.after_alu(7, a as u16 as u32, b as u16 as u32, 1)
        } else {
            self.after_alu(7, a, b, 2)
        }
    }
}

impl State {
    #[verifier::opaque]
    pub open spec fn read_element(self, lin: u32, size: u32) -> (State, u32) {
        if size == 1 {
            let (s, v) = self.read8(lin);
            (s, v as u32)
        } else if size == 2 {
            let (s, v) = self.read16(lin);
            (s, v as u32)
        } else {
            self.read32(lin)
        }
    }

    #[verifier::opaque]
    pub open spec fn write_element(self, lin: u32, v: u32, size: u32) -> State {
        if size == 1 {
            self.write8(lin, v as u8)
        } else if size == 2 {
            self.write16(lin, v as u16)
        } else {
            self.write32(lin, v)
        }
    }

    /// Address of the source element.
    pub open spec fn source(self, d: Decoder) -> u32 {
        self.cpu.lin(segment_of(&d, DS), self.cpu.reg_w(SI, d.addrsize32))
    }

    /// Address of the destination element.
    pub open spec fn destination(self, d: Decoder) -> u32 {
        self.cpu.lin(ES, self.cpu.reg_w(DI, d.addrsize32))
    }

    /// An element from a port to memory.
    #[verifier::opaque]
    pub open spec fn taken_in(self, port: u16, dst: u32, a32: bool, size: u32) -> (State, bool) {
        let (s2, v) = self.io_read(port, size as u8);
        let s3 = s2.write_element(dst, v, size);
        if s3.pending_fault is Some {
            (s3, true)
        } else {
            (s3.with_cpu(s3.cpu.stepped(DI, a32, size)), false)
        }
    }

    /// An element from memory to a port.
    #[verifier::opaque]
    pub open spec fn sent_out(self, port: u16, src: u32, a32: bool, size: u32) -> (State, bool) {
        let (s2, v) = self.read_element(src, size);
        if s2.pending_fault is Some {
            (s2, true)
        } else {
            let s3 = s2.io_write(port, size as u8, v);
            (s3.with_cpu(s3.cpu.stepped(SI, a32, size)), false)
        }
    }

    /// One element of INS or OUTS.
    #[verifier::opaque]
    pub open spec fn string_port(self, d: Decoder, op: u8) -> Option<(State, bool)> {
        let a32 = d.addrsize32;
        let size = element_size(&d, op);
        let src = self.source(d);
        let dst = self.destination(d);
        let port = self.cpu.reg16(DX);
        let (s1, allowed) = self.io_permitted(port, size as u8);
        if !allowed {
            match s1.gp_fault(s1.trap_ip, 0) {
                None => None,
                Some(s2) => Some((s2, true)),
            }
        } else if op == 0x6C || op == 0x6D {
            Some(s1.taken_in(port, dst, a32, size))
        } else {
            Some(s1.sent_out(port, src, a32, size))
        }
    }

    /// One element. The second part of the result says whether the instruction
    /// ends here, before the count goes down.
    #[verifier::opaque]
    pub open spec fn string_once(self, d: Decoder, op: u8) -> Option<(State, bool)> {
        let a32 = d.addrsize32;
        let size = element_size(&d, op);
        let src = self.source(d);
        let dst = self.destination(d);
        if op == 0xA4 || op == 0xA5 {
            let (s1, v) = self.read_element(src, size);
            if s1.pending_fault is Some {
                Some((s1, true))
            } else {
                let s2 = s1.write_element(dst, v, size);
                if s2.pending_fault is Some {
                    Some((s2, true))
                } else {
                    Some(
                        (s2.with_cpu(s2.cpu.stepped(SI, a32, size).stepped(DI, a32, size)), false),
                    )
                }
            }
        } else if op == 0xA6 || op == 0xA7 {
            let (s1, a) = self.read_element(src, size);
            let (s2, b) = s1.read_element(dst, size);
            if s2.pending_fault is Some {
                Some((s2, true))
            } else {
                let c = s2.cpu.after_compare(a, b, size);
                Some((s2.with_cpu(c.stepped(SI, a32, size).stepped(DI, a32, size)), false))
            }
        } else if op == 0xAA || op == 0xAB {
            let s1 = self.write_element(dst, self.cpu.element(size), size);
            if s1.pending_fault is Some {
                Some((s1, true))
            } else {
                Some((s1.with_cpu(s1.cpu.stepped(DI, a32, size)), false))
            }
        } else if op == 0xAC || op == 0xAD {
            let (s1, v) = self.read_element(src, size);
            if s1.pending_fault is Some {
                Some((s1, true))
            } else {
                Some((s1.with_cpu(s1.cpu.with_element(v, size).stepped(SI, a32, size)), false))
            }
        } else if op == 0xAE || op == 0xAF {
            let a = self.cpu.element(size);
            let (s1, b) = self.read_element(dst, size);
            if s1.pending_fault is Some {
                Some((s1, true))
            } else {
                Some((s1.with_cpu(s1.cpu.after_compare(a, b, size).stepped(DI, a32, size)), false))
            }
        } else {
            self.string_port(d, op)
        }
    }

    /// The instruction with its repetition: it ends when the count is used up, when
    /// an access faulted, and for a comparison when the zero flag is not the one
    /// that the prefix asks for.
    #[verifier::opaque]
    pub open spec fn string_exec(self, d: Decoder, op: u8) -> Option<State>
        decreases self.cpu.reg_w(CX, d.addrsize32),
    {
        let a32 = d.addrsize32;
        if self.pending_fault is Some || (d.rep is Some && self.cpu.reg_w(CX, a32) == 0) {
            Some(self)
        } else {
            match self.string_once(d, op) {
                None => None,
                Some((s1, ends)) => if ends || d.rep is None {
                    Some(s1)
                } else {
                    let cx = s1.cpu.reg_w(CX, a32).wrapping_sub(1);
                    let s2 = s1.with_cpu(s1.cpu.with_reg_w(CX, cx, a32));
                    let compares = op == 0xA6 || op == 0xA7 || op == 0xAE || op == 0xAF;
                    if (compares && s2.cpu.flag(ZF) != (d.rep == Some(0xF3u8)))
                        || s2.cpu.reg_w(CX, a32) == 0 {
                        Some(s2)
                    } else {
                        proof {
                            lemma_count_goes_down(self, d, op);
                        }
                        s2.string_exec(d, op)
                    }
                },
            }
        }
    }
}

/// One element leaves the count alone.
proof fn lemma_once_keeps_count(s: State, d: Decoder, op: u8)
    ensures
        s.string_once(d, op) matches Some((t, ends)) ==> (!ends ==> t.cpu.regs[CX as int]
            == s.cpu.regs[CX as int]),
{
    reveal(State::string_once);
    reveal(State::string_port);
    reveal(State::taken_in);
    reveal(State::sent_out);
    reveal(State::read_element);
    reveal(State::write_element);
    reveal(Cpu::stepped);
    reveal(Cpu::after_compare);
    reveal(Cpu::with_element);
    reveal(Cpu::after_alu);
    reveal(State::io_permitted);
    let size = element_size(&d, op);
    let src = s.source(d);
    let dst = s.destination(d);
    crate::machine::lemma_read_keeps(s, src);
    crate::machine::lemma_read_keeps(s, dst);
    let s1 = s.read_element(src, size).0;
    crate::machine::lemma_read_keeps(s1, dst);
    crate::machine::lemma_write_keeps(s1, dst, s.read_element(src, size).1);
    crate::machine::lemma_write_keeps(s, dst, s.cpu.element(size));
    let t0 = State { sys_access: true, ..s };
    crate::machine::lemma_read_keeps(t0, t0.cpu.tr_base.wrapping_add(0x66));
    let t1 = t0.read16(t0.cpu.tr_base.wrapping_add(0x66));
    let at = (t1.1 + s.cpu.reg16(DX) / 8) as u32;
    crate::machine::lemma_read_keeps(t1.0, t1.0.cpu.tr_base.wrapping_add(at));
    let p = s.io_permitted(s.cpu.reg16(DX), size as u8).0;
    crate::machine::lemma_read_keeps(p, src);
    let q = p.io_read(s.cpu.reg16(DX), size as u8);
    crate::machine::lemma_write_keeps(q.0, dst, q.1);
}

/// An element that does not end the instruction brings the count down.
pub proof fn lemma_count_goes_down(s: State, d: Decoder, op: u8)
    requires
        s.cpu.reg_w(CX, d.addrsize32) != 0,
    ensures
        s.string_once(d, op) matches Some((t, ends)) ==> (!ends ==> ({
            let cx = t.cpu.reg_w(CX, d.addrsize32).wrapping_sub(1);
            t.cpu.with_reg_w(CX, cx, d.addrsize32).reg_w(CX, d.addrsize32) < s.cpu.reg_w(
                CX,
                d.addrsize32,
            )
        })),
{
    lemma_once_keeps_count(s, d, op);
    if let Some((t, ends)) = s.string_once(d, op) {
        let cx = t.cpu.reg_w(CX, d.addrsize32).wrapping_sub(1);
        crate::cpu::state::law_register_read_back(t.cpu, CX, cx);
    }
}

fn read_w(m: &mut Machine, lin: u32, size: u32) -> (v: u32)
    ensures
        (final(m)@, v) == old(m)@.read_element(lin, size),
{
    proof {
        reveal(State::read_element);
    }
    if size == 1 {
        m.read8(lin) as u32
    } else if size == 2 {
        m.read16(lin) as u32
    } else {
        m.read32(lin)
    }
}

fn write_w(m: &mut Machine, lin: u32, v: u32, size: u32)
    ensures
        final(m)@ == old(m)@.write_element(lin, v, size),
{
    proof {
        reveal(State::write_element);
    }
    if size == 1 {
        m.write8(lin, v as u8)
    } else if size == 2 {
        m.write16(lin, v as u16)
    } else {
        m.write32(lin, v)
    }
}

fn compare_w(c: &mut Cpu, a: u32, b: u32, size: u32)
    ensures
        *final(c) == old(c).after_compare(a, b, size),
{
    proof {
        reveal(Cpu::after_compare);
    }
    if size == 1 {
        alu8(c, 7, a as u8, b as u8);
    } else if size == 2 {
        alu16(c, 7, a as u16, b as u16);
    } else {
        alu32(c, 7, a, b);
    }
}

fn advance(c: &mut Cpu, reg: usize, a32: bool, size: u32)
    requires
        reg < 8,
    ensures
        *final(c) == old(c).stepped(reg, a32, size),
{
    proof {
        reveal(Cpu::stepped);
    }
    let cur: u32 = c.reg_w(reg, a32);
    let next: u32 = if c.flag(DF) {
        cur.wrapping_sub(size)
    } else {
        cur.wrapping_add(size)
    };
    c.set_reg_w(reg, next, a32);
}

pub fn element(c: &Cpu, size: u32) -> (v: u32)
    ensures
        v == c.element(size),
{
    proof {
        reveal(Cpu::element);
    }
    if size == 1 {
        c.reg8(0) as u32
    } else if size == 2 {
        c.reg16(AX) as u32
    } else {
        c.reg32(AX)
    }
}

fn set_element(c: &mut Cpu, v: u32, size: u32)
    ensures
        *final(c) == old(c).with_element(v, size),
{
    proof {
        reveal(Cpu::with_element);
    }
    if size == 1 {
        c.set_reg8(0, v as u8);
    } else if size == 2 {
        c.set_reg16(AX, v as u16);
    } else {
        c.set_reg32(AX, v);
    }
}

/// Moves an index register on.
fn move_on(m: &mut Machine, r: usize, a32: bool, size: u32)
    requires
        r < 8,
    ensures
        final(m)@ == old(m)@.with_cpu(old(m)@.cpu.stepped(r, a32, size)),
{
    advance(&mut m.cpu, r, a32, size);
}

fn port_read(m: &mut Machine, port: u16, size: u32) -> (v: u32)
    requires
        size == 1 || size == 2 || size == 4,
    ensures
        (final(m)@, v) == old(m)@.io_read(port, size as u8),
{
    if size == 1 {
        m.io_read8(port) as u32
    } else if size == 2 {
        m.io_read16(port) as u32
    } else {
        m.io_read32(port)
    }
}

fn take_in(m: &mut Machine, port: u16, dst: u32, a32: bool, size: u32) -> (ends: bool)
    requires
        size == 1 || size == 2 || size == 4,
    ensures
        (final(m)@, ends) == old(m)@.taken_in(port, dst, a32, size),
{
    proof {
        reveal(State::taken_in);
    }
    let v: u32 = port_read(m, port, size);
    write_w(m, dst, v, size);
    if m.pending_fault.is_some() {
        return true;
    }
    move_on(m, DI, a32, size);
    false
}

fn send_out(m: &mut Machine, port: u16, src: u32, a32: bool, size: u32) -> (ends: bool)
    requires
        size == 1 || size == 2 || size == 4,
    ensures
        (final(m)@, ends) == old(m)@.sent_out(port, src, a32, size),
{
    proof {
        reveal(State::sent_out);
    }
    let v: u32 = read_w(m, src, size);
    if m.pending_fault.is_some() {
        return true;
    }
    m.io_write(port, size as u8, v);
    move_on(m, SI, a32, size);
    false
}

fn port_element(m: &mut Machine, d: &Decoder, op: u8) -> (ends: bool)
    requires
        d.wf(),
        old(m)@.string_port(*d, op) is Some,
    ensures
        Some((final(m)@, ends)) == old(m)@.string_port(*d, op),
{
    proof {
        reveal(State::string_port);
    }
    let a32 = d.addrsize32;
    let size: u32 = element_size(d, op);
    let src: u32 = m.cpu.lin(segment_of(d, DS), m.cpu.reg_w(SI, a32));
    let dst: u32 = m.cpu.lin(ES, m.cpu.reg_w(DI, a32));
    let port: u16 = m.cpu.reg16(DX);
    if !io_permitted(m, port, size as u8) {
        let ip: u32 = m.trap_ip;
        gp_fault(m, ip, 0);
        return true;
    }
    if op == 0x6C || op == 0x6D {
        take_in(m, port, dst, a32, size)
    } else {
        send_out(m, port, src, a32, size)
    }
}

fn move_once(m: &mut Machine, d: &Decoder, op: u8) -> (ends: bool)
    requires
        d.wf(),
        op == 0xA4 || op == 0xA5,
    ensures
        Some((final(m)@, ends)) == old(m)@.string_once(*d, op),
{
    proof {
        reveal(State::string_once);
    }
    let a32 = d.addrsize32;
    let size: u32 = element_size(d, op);
    let src: u32 = m.cpu.lin(segment_of(d, DS), m.cpu.reg_w(SI, a32));
    let dst: u32 = m.cpu.lin(ES, m.cpu.reg_w(DI, a32));
    let v: u32 = read_w(m, src, size);
    if m.pending_fault.is_some() {
        return true;
    }
    write_w(m, dst, v, size);
    if m.pending_fault.is_some() {
        return true;
    }
    move_on(m, SI, a32, size);
    move_on(m, DI, a32, size);
    false
}

fn compare_once(m: &mut Machine, d: &Decoder, op: u8) -> (ends: bool)
    requires
        d.wf(),
        op == 0xA6 || op == 0xA7 || op == 0xAE || op == 0xAF,
    ensures
        Some((final(m)@, ends)) == old(m)@.string_once(*d, op),
{
    proof {
        reveal(State::string_once);
    }
    let a32 = d.addrsize32;
    let size: u32 = element_size(d, op);
    let src: u32 = m.cpu.lin(segment_of(d, DS), m.cpu.reg_w(SI, a32));
    let dst: u32 = m.cpu.lin(ES, m.cpu.reg_w(DI, a32));
    let both = op == 0xA6 || op == 0xA7;
    let a: u32 = if both {
        read_w(m, src, size)
    } else {
        element(&m.cpu, size)
    };
    let b: u32 = read_w(m, dst, size);
    if m.pending_fault.is_some() {
        return true;
    }
    compare_w(&mut m.cpu, a, b, size);
    if both {
        move_on(m, SI, a32, size);
    }
    move_on(m, DI, a32, size);
    false
}

fn store_once(m: &mut Machine, d: &Decoder, op: u8) -> (ends: bool)
    requires
        d.wf(),
        op == 0xAA || op == 0xAB,
    ensures
        Some((final(m)@, ends)) == old(m)@.string_once(*d, op),
{
    proof {
        reveal(State::string_once);
    }
    let a32 = d.addrsize32;
    let size: u32 = element_size(d, op);
    let dst: u32 = m.cpu.lin(ES, m.cpu.reg_w(DI, a32));
    let v: u32 = element(&m.cpu, size);
    write_w(m, dst, v, size);
    if m.pending_fault.is_some() {
        return true;
    }
    move_on(m, DI, a32, size);
    false
}

fn load_once(m: &mut Machine, d: &Decoder, op: u8) -> (ends: bool)
    requires
        d.wf(),
        op == 0xAC || op == 0xAD,
    ensures
        Some((final(m)@, ends)) == old(m)@.string_once(*d, op),
{
    proof {
        reveal(State::string_once);
    }
    let a32 = d.addrsize32;
    let size: u32 = element_size(d, op);
    let src: u32 = m.cpu.lin(segment_of(d, DS), m.cpu.reg_w(SI, a32));
    let v: u32 = read_w(m, src, size);
    if m.pending_fault.is_some() {
        return true;
    }
    set_element(&mut m.cpu, v, size);
    move_on(m, SI, a32, size);
    false
}

fn once(m: &mut Machine, d: &Decoder, op: u8) -> (ends: bool)
    requires
        d.wf(),
        old(m)@.string_once(*d, op) is Some,
    ensures
        Some((final(m)@, ends)) == old(m)@.string_once(*d, op),
{
    if op == 0xA4 || op == 0xA5 {
        move_once(m, d, op)
    } else if op == 0xA6 || op == 0xA7 || op == 0xAE || op == 0xAF {
        compare_once(m, d, op)
    } else if op == 0xAA || op == 0xAB {
        store_once(m, d, op)
    } else if op == 0xAC || op == 0xAD {
        load_once(m, d, op)
    } else {
        proof {
            reveal(State::string_once);
        }
        port_element(m, d, op)
    }
}

/// A string instruction with its repetition.
pub fn exec(m: &mut Machine, d: &Decoder, op: u8)
    requires
        d.wf(),
        old(m)@.string_exec(*d, op) is Some,
    ensures
        Some(final(m)@) == old(m)@.string_exec(*d, op),
{
    let a32 = d.addrsize32;
    if a32 && d.rep.is_some() && !m.cpu.flag(DF) && m.pending_fault.is_none() {
        if op == 0xAA || op == 0xAB {
            bulk_stos(m, d, op);
        } else if op == 0xA4 || op == 0xA5 {
            bulk_movs(m, d, op);
        }
    }
    let compares = op == 0xA6 || op == 0xA7 || op == 0xAE || op == 0xAF;
    let mut go = true;
    while go
        invariant
            d.wf(),
            a32 == d.addrsize32,
            compares == (op == 0xA6 || op == 0xA7 || op == 0xAE || op == 0xAF),
            old(m)@.string_exec(*d, op) is Some,
            go ==> m@.string_exec(*d, op) == old(m)@.string_exec(*d, op),
            !go ==> Some(m@) == old(m)@.string_exec(*d, op),
        decreases (if go { 1int } else { 0int }), m@.cpu.reg_w(CX, a32),
    {
        proof {
            reveal_with_fuel(State::string_exec, 2);
            if m@.cpu.reg_w(CX, a32) != 0 {
                lemma_count_goes_down(m@, *d, op);
            }
        }
        if m.pending_fault.is_some() || (d.rep.is_some() && m.cpu.reg_w(CX, a32) == 0) {
            go = false;
        } else if once(m, d, op) {
            go = false;
        } else {
            match d.rep {
                None => {
                    go = false;
                },
                Some(prefix) => {
                    let cx: u32 = m.cpu.reg_w(CX, a32).wrapping_sub(1);
                    m.cpu.set_reg_w(CX, cx, a32);
                    if (compares && m.cpu.flag(ZF) != (prefix == 0xF3)) || m.cpu.reg_w(CX, a32)
                        == 0 {
                        go = false;
                    }
                },
            }
        }
    }
}

} // verus!
