//! Fetching instruction bytes, resolving ModRM operands, and the stack.

use vstd::prelude::*;
use crate::cpu::alu::narrow;
use crate::cpu::state::{Cpu, BP, BX, CS, DI, DS, SI, SP, SS};
use crate::machine::{le16, le32, Fault, Machine, State};

verus! {

/// What the prefixes of an instruction said.
#[derive(Clone, Copy, Debug, PartialEq, Eq, Structural)]
pub struct Decoder {
    pub seg_override: Option<usize>,
    /// The REP prefix byte.
    pub rep: Option<u8>,
    /// Operands are 32 bits wide: the width of the code segment, turned over by
    /// the operand size prefix.
    pub opsize32: bool,
    /// Addresses are 32 bits wide, in the same way.
    pub addrsize32: bool,
    /// The operand size prefix was there.
    pub p66: bool,
    /// The LOCK prefix was there.
    pub lock: bool,
}

impl Decoder {
    /// An override names a segment register.
    pub open spec fn wf(self) -> bool {
        self.seg_override matches Some(s) ==> s < 6
    }
}

/// An operand that a ModRM byte names.
#[derive(Clone, Copy, Debug, PartialEq, Eq, Structural)]
pub enum Operand {
    Reg(usize),
    /// `addr` is the linear address, `off` the offset in segment `seg`.
    Mem { addr: u32, off: u32, seg: usize },
}

impl Operand {
    pub open spec fn wf(self) -> bool {
        match self {
            Operand::Reg(r) => r < 8,
            Operand::Mem { seg, .. } => seg < 6,
        }
    }
}

/// Real-mode address of a segment and an offset, within 1 MB.
#[verifier::allow_in_spec]
pub fn linear(seg: u16, off: u16) -> u32
    returns
        ((16 * seg + off) % 0x10_0000) as u32,
{
    (16 * seg as u32 + off as u32) % 0x10_0000
}

/// Sign extension of a byte to 16 bits.
#[verifier::allow_in_spec]
pub fn sext8_16(v: u8) -> u16
    returns
        (if v < 0x80 {
            v as u16
        } else {
            (v + 0xFF00) as u16
        }),
{
    if v < 0x80 {
        v as u16
    } else {
        v as u16 + 0xFF00
    }
}

/// Sign extension of a byte to 32 bits.
#[verifier::allow_in_spec]
pub fn sext8_32(v: u8) -> u32
    returns
        (if v < 0x80 {
            v as u32
        } else {
            (v + 0xFFFF_FF00) as u32
        }),
{
    if v < 0x80 {
        v as u32
    } else {
        v as u32 + 0xFFFF_FF00
    }
}

/// Sign extension of a word to 32 bits.
#[verifier::allow_in_spec]
pub fn sext16_32(v: u16) -> u32
    returns
        (if v < 0x8000 {
            v as u32
        } else {
            (v + 0xFFFF_0000) as u32
        }),
{
    if v < 0x8000 {
        v as u32
    } else {
        v as u32 + 0xFFFF_0000
    }
}

/// The segment of an access: the override, or else the default.
#[verifier::allow_in_spec]
pub fn segment_of(d: &Decoder, default_seg: usize) -> usize
    returns
        (match d.seg_override {
            Some(s) => s,
            None => default_seg,
        }),
{
    match d.seg_override {
        Some(s) => s,
        None => default_seg,
    }
}

impl Cpu {
    /// Base and default segment of a 16-bit address form.
    pub open spec fn base16(self, md: u8, rm: usize) -> (u16, usize) {
        if rm == 0 {
            (self.reg16(BX).wrapping_add(self.reg16(SI)), DS)
        } else if rm == 1 {
            (self.reg16(BX).wrapping_add(self.reg16(DI)), DS)
        } else if rm == 2 {
            (self.reg16(BP).wrapping_add(self.reg16(SI)), SS)
        } else if rm == 3 {
            (self.reg16(BP).wrapping_add(self.reg16(DI)), SS)
        } else if rm == 4 {
            (self.reg16(SI), DS)
        } else if rm == 5 {
            (self.reg16(DI), DS)
        } else if rm == 6 {
            if md == 0 {
                (0, DS)
            } else {
                (self.reg16(BP), SS)
            }
        } else {
            (self.reg16(BX), DS)
        }
    }

    /// The stack pointer, as wide as the stack segment says.
    #[verifier::allow_in_spec]
    pub fn sp(&self) -> u32
        returns
            self.reg_w(SP, self.seg_is32(SS)),
    {
        self.reg_w(SP, self.seg_is32(SS))
    }

    pub open spec fn with_sp(self, v: u32) -> Cpu {
        self.with_reg_w(SP, v, self.seg_is32(SS))
    }
}

impl Cpu {
    /// Whether an access to data is allowed. Segments that are selectors times
    /// sixteen allow every access.
    #[verifier::allow_in_spec]
    pub fn data_allowed(&self, seg: usize, off: u32, size: u32, write: bool) -> bool
        requires
            seg < 6,
        returns
            self.real_segments() || self.hidden[seg as int].allows(off, size, write),
    {
        self.real_segments() || self.hidden[seg].allows(off, size, write)
    }
}

/// The fault of an access that its segment does not allow: the stack has an
/// exception of its own.
#[verifier::allow_in_spec]
pub fn segment_fault(seg: usize) -> Fault
    returns
        (Fault {
            vector: if seg == SS {
                12
            } else {
                13
            },
            addr: 0,
            code: 0,
        }),
{
    Fault {
        vector: if seg == SS {
            12
        } else {
            13
        },
        addr: 0,
        code: 0,
    }
}

impl State {
    #[verifier::opaque]
    pub open spec fn fetch8(self) -> (State, u8) {
        let (s, v) = self.read8(self.cpu.lin(CS, self.cpu.ip));
        (s.with_cpu(s.cpu.advanced(1)), v)
    }

    #[verifier::opaque]
    pub open spec fn fetch16(self) -> (State, u16) {
        let (s1, lo) = self.fetch8();
        let (s2, hi) = s1.fetch8();
        (s2, le16(lo, hi))
    }

    #[verifier::opaque]
    pub open spec fn fetch32(self) -> (State, u32) {
        let (s1, lo) = self.fetch16();
        let (s2, hi) = s1.fetch16();
        (s2, le32(lo, hi))
    }

    #[verifier::opaque]
    pub open spec fn fetch_w(self, wide: bool) -> (State, u32) {
        if wide {
            self.fetch32()
        } else {
            let (s, v) = self.fetch16();
            (s, v as u32)
        }
    }

    #[verifier::opaque]
    pub open spec fn fetch_rel(self, wide: bool) -> (State, u32) {
        if wide {
            self.fetch32()
        } else {
            let (s, v) = self.fetch16();
            (s, sext16_32(v))
        }
    }

    /// An operand in memory at an offset in the segment that the prefixes choose.
    pub open spec fn mem_operand(self, d: Decoder, default_seg: usize, off: u32) -> Operand {
        let seg = segment_of(&d, default_seg);
        Operand::Mem { addr: self.cpu.lin(seg, off), off, seg }
    }

    /// Reads a ModRM byte and what belongs to it: the register field and the
    /// operand.
    #[verifier::opaque]
    pub open spec fn modrm(self, d: Decoder) -> (State, usize, Operand) {
        let (s, b) = self.fetch8();
        let md = b / 64;
        let reg = (b / 8 % 8) as usize;
        let rm = (b % 8) as usize;
        if md == 3 {
            (s, reg, Operand::Reg(rm))
        } else if d.addrsize32 {
            let (t, o) = s.modrm32(d, md, rm);
            (t, reg, o)
        } else {
            let (base, seg) = s.cpu.base16(md, rm);
            let (t, disp) = if md == 0 && rm != 6 {
                (s, 0u16)
            } else if md == 1 {
                let (t, v) = s.fetch8();
                (t, sext8_16(v))
            } else {
                s.fetch16()
            };
            (t, reg, t.mem_operand(d, seg, base.wrapping_add(disp) as u32))
        }
    }

    /// The scaled index of a SIB byte; register 4 stands for none.
    pub open spec fn sib_index(self, sib: u8) -> u32 {
        let index = (sib / 8 % 8) as int;
        if index == 4 {
            0
        } else {
            self.cpu.regs[index] << (sib / 64) as u32
        }
    }

    /// The base of a 32-bit address form and its default segment: a register, or a
    /// SIB byte with base and scaled index, or a bare displacement.
    #[verifier::opaque]
    pub open spec fn modrm_base(self, md: u8, rm: usize) -> (State, u32, usize) {
        if rm == 4 {
            let (s, sib) = self.fetch8();
            let b = (sib % 8) as usize;
            let idx = s.sib_index(sib);
            if b == 5 && md == 0 {
                let (t, v) = s.fetch32();
                (t, v.wrapping_add(idx), DS)
            } else {
                (
                    s,
                    s.cpu.regs[b as int].wrapping_add(idx),
                    if b == SP || b == BP { SS } else { DS },
                )
            }
        } else if rm == 5 && md == 0 {
            let (t, v) = self.fetch32();
            (t, v, DS)
        } else {
            (self, self.cpu.regs[rm as int], if rm == BP { SS } else { DS })
        }
    }

    /// The displacement of a 32-bit address form.
    #[verifier::opaque]
    pub open spec fn modrm_disp(self, md: u8) -> (State, u32) {
        if md == 0 {
            (self, 0u32)
        } else if md == 1 {
            let (t, v) = self.fetch8();
            (t, sext8_32(v))
        } else {
            self.fetch32()
        }
    }

    /// A 32-bit address form.
    #[verifier::opaque]
    pub open spec fn modrm32(self, d: Decoder, md: u8, rm: usize) -> (State, Operand) {
        let (s, base, seg) = self.modrm_base(md, rm);
        let (t, disp) = s.modrm_disp(md);
        (t, t.mem_operand(d, seg, base.wrapping_add(disp)))
    }

    /// Reads a byte operand. An access that its segment does not allow notes the
    /// fault and gives zero.
    #[verifier::opaque]
    pub open spec fn read_op8(self, op: Operand) -> (State, u8) {
        match op {
            Operand::Reg(r) => (self, self.cpu.reg8(r)),
            Operand::Mem { addr, off, seg } => if self.cpu.data_allowed(seg, off, 1, false) {
                self.read8(addr)
            } else {
                (self.with_fault(segment_fault(seg)), 0)
            },
        }
    }

    /// Writes a byte operand. An access that its segment does not allow notes the
    /// fault and writes nothing.
    #[verifier::opaque]
    pub open spec fn write_op8(self, op: Operand, v: u8) -> State {
        match op {
            Operand::Reg(r) => self.with_cpu(self.cpu.with_reg8(r, v)),
            Operand::Mem { addr, off, seg } => if self.cpu.data_allowed(seg, off, 1, true) {
                self.write8(addr, v)
            } else {
                self.with_fault(segment_fault(seg))
            },
        }
    }

    #[verifier::opaque]
    pub open spec fn read_op16(self, op: Operand) -> (State, u16) {
        match op {
            Operand::Reg(r) => (self, self.cpu.reg16(r)),
            Operand::Mem { addr, off, seg } => if self.cpu.data_allowed(seg, off, 2, false) {
                self.read16(addr)
            } else {
                (self.with_fault(segment_fault(seg)), 0)
            },
        }
    }

    #[verifier::opaque]
    pub open spec fn write_op16(self, op: Operand, v: u16) -> State {
        match op {
            Operand::Reg(r) => self.with_cpu(self.cpu.with_reg16(r, v)),
            Operand::Mem { addr, off, seg } => if self.cpu.data_allowed(seg, off, 2, true) {
                self.write16(addr, v)
            } else {
                self.with_fault(segment_fault(seg))
            },
        }
    }

    #[verifier::opaque]
    pub open spec fn read_op32(self, op: Operand) -> (State, u32) {
        match op {
            Operand::Reg(r) => (self, self.cpu.reg32(r)),
            Operand::Mem { addr, off, seg } => if self.cpu.data_allowed(seg, off, 4, false) {
                self.read32(addr)
            } else {
                (self.with_fault(segment_fault(seg)), 0)
            },
        }
    }

    #[verifier::opaque]
    pub open spec fn write_op32(self, op: Operand, v: u32) -> State {
        match op {
            Operand::Reg(r) => self.with_cpu(self.cpu.with_reg(r, v)),
            Operand::Mem { addr, off, seg } => if self.cpu.data_allowed(seg, off, 4, true) {
                self.write32(addr, v)
            } else {
                self.with_fault(segment_fault(seg))
            },
        }
    }

    #[verifier::opaque]
    pub open spec fn read_op_w(self, op: Operand, wide: bool) -> (State, u32) {
        if wide {
            self.read_op32(op)
        } else {
            let (s, v) = self.read_op16(op);
            (s, v as u32)
        }
    }

    #[verifier::opaque]
    pub open spec fn write_op_w(self, op: Operand, v: u32, wide: bool) -> State {
        if wide {
            self.write_op32(op, v)
        } else {
            self.write_op16(op, v as u16)
        }
    }

    /// Reads a word operand at its address, whatever its segment allows: the vector
    /// instructions do.
    #[verifier::opaque]
    pub open spec fn direct16(self, op: Operand) -> (State, u16) {
        match op {
            Operand::Reg(r) => (self, self.cpu.reg16(r)),
            Operand::Mem { addr, .. } => self.read16(addr),
        }
    }

    /// The same of a doubleword.
    #[verifier::opaque]
    pub open spec fn direct32(self, op: Operand) -> (State, u32) {
        match op {
            Operand::Reg(r) => (self, self.cpu.reg32(r)),
            Operand::Mem { addr, .. } => self.read32(addr),
        }
    }

    /// Writes a doubleword operand at its address, whatever its segment allows.
    #[verifier::opaque]
    pub open spec fn with_direct32(self, op: Operand, v: u32) -> State {
        match op {
            Operand::Reg(r) => self.with_cpu(self.cpu.with_reg(r, v)),
            Operand::Mem { addr, .. } => self.write32(addr, v),
        }
    }

    /// Moves the stack pointer down by `n` bytes.
    #[verifier::opaque]
    pub open spec fn sp_down(self, n: u32) -> State {
        self.with_cpu(
            self.cpu.with_sp(narrow(self.cpu.sp().wrapping_sub(n), self.cpu.seg_is32(SS))),
        )
    }

    /// Moves the stack pointer up by `n` bytes.
    #[verifier::opaque]
    pub open spec fn sp_up(self, n: u32) -> State {
        self.with_cpu(
            self.cpu.with_sp(narrow(self.cpu.sp().wrapping_add(n), self.cpu.seg_is32(SS))),
        )
    }

    #[verifier::opaque]
    pub open spec fn push16(self, v: u16) -> State {
        let s = self.sp_down(2);
        s.write16(s.cpu.lin(SS, s.cpu.sp()), v)
    }

    #[verifier::opaque]
    pub open spec fn push32(self, v: u32) -> State {
        let s = self.sp_down(4);
        s.write32(s.cpu.lin(SS, s.cpu.sp()), v)
    }

    #[verifier::opaque]
    pub open spec fn push_w(self, v: u32, wide: bool) -> State {
        if wide {
            self.push32(v)
        } else {
            self.push16(v as u16)
        }
    }

    #[verifier::opaque]
    pub open spec fn pop16(self) -> (State, u16) {
        let (s, v) = self.read16(self.cpu.lin(SS, self.cpu.sp()));
        (s.sp_up(2), v)
    }

    #[verifier::opaque]
    pub open spec fn pop32(self) -> (State, u32) {
        let (s, v) = self.read32(self.cpu.lin(SS, self.cpu.sp()));
        (s.sp_up(4), v)
    }

    #[verifier::opaque]
    pub open spec fn pop_w(self, wide: bool) -> (State, u32) {
        if wide {
            self.pop32()
        } else {
            let (s, v) = self.pop16();
            (s, v as u32)
        }
    }
}

/// Reads the next instruction byte.
pub fn fetch8(m: &mut Machine) -> (v: u8)
    ensures
        (final(m)@, v) == old(m)@.fetch8(),
{
    proof {
        reveal(State::fetch8);
    }
    let a: u32 = m.cpu.lin(CS, m.cpu.ip);
    let v: u8 = m.read8(a);
    m.cpu.advance_ip(1);
    v
}

pub fn fetch16(m: &mut Machine) -> (v: u16)
    ensures
        (final(m)@, v) == old(m)@.fetch16(),
{
    proof {
        reveal(State::fetch16);
    }
    let lo: u8 = fetch8(m);
    let hi: u8 = fetch8(m);
    le16(lo, hi)
}

pub fn fetch32(m: &mut Machine) -> (v: u32)
    ensures
        (final(m)@, v) == old(m)@.fetch32(),
{
    proof {
        reveal(State::fetch32);
    }
    let lo: u16 = fetch16(m);
    let hi: u16 = fetch16(m);
    le32(lo, hi)
}

/// Reads an immediate, or an address, of 16 or 32 bits.
pub fn fetch_w(m: &mut Machine, wide: bool) -> (v: u32)
    ensures
        (final(m)@, v) == old(m)@.fetch_w(wide),
{
    proof {
        reveal(State::fetch_w);
    }
    if wide {
        fetch32(m)
    } else {
        fetch16(m) as u32
    }
}

/// Reads a branch displacement; a 16-bit one is sign-extended.
pub fn fetch_rel_w(m: &mut Machine, wide: bool) -> (v: u32)
    ensures
        (final(m)@, v) == old(m)@.fetch_rel(wide),
{
    proof {
        reveal(State::fetch_rel);
    }
    if wide {
        fetch32(m)
    } else {
        sext16_32(fetch16(m))
    }
}

fn base16(c: &Cpu, md: u8, rm: usize) -> (r: (u16, usize))
    requires
        rm < 8,
    ensures
        r == c.base16(md, rm),
        r.1 < 6,
{
    if rm == 0 {
        (c.reg16(BX).wrapping_add(c.reg16(SI)), DS)
    } else if rm == 1 {
        (c.reg16(BX).wrapping_add(c.reg16(DI)), DS)
    } else if rm == 2 {
        (c.reg16(BP).wrapping_add(c.reg16(SI)), SS)
    } else if rm == 3 {
        (c.reg16(BP).wrapping_add(c.reg16(DI)), SS)
    } else if rm == 4 {
        (c.reg16(SI), DS)
    } else if rm == 5 {
        (c.reg16(DI), DS)
    } else if rm == 6 {
        if md == 0 {
            (0, DS)
        } else {
            (c.reg16(BP), SS)
        }
    } else {
        (c.reg16(BX), DS)
    }
}

fn mem_operand(m: &Machine, d: &Decoder, default_seg: usize, off: u32) -> (r: Operand)
    requires
        d.wf(),
        default_seg < 6,
    ensures
        r == m@.mem_operand(*d, default_seg, off),
        r.wf(),
{
    let seg: usize = segment_of(d, default_seg);
    Operand::Mem { addr: m.cpu.lin(seg, off), off, seg }
}

/// Reads a ModRM byte and what belongs to it.
pub fn modrm(m: &mut Machine, d: &Decoder) -> (r: (usize, Operand))
    requires
        d.wf(),
    ensures
        (final(m)@, r.0, r.1) == old(m)@.modrm(*d),
        r.0 < 8,
        r.1.wf(),
{
    proof {
        reveal(State::modrm);
    }
    let b: u8 = fetch8(m);
    let md: u8 = b / 64;
    let reg: usize = (b / 8 % 8) as usize;
    let rm: usize = (b % 8) as usize;
    if md == 3 {
        return (reg, Operand::Reg(rm));
    }
    if d.addrsize32 {
        let o = modrm32(m, d, md, rm);
        return (reg, o);
    }
    let bs = base16(&m.cpu, md, rm);
    let disp: u16 = if md == 0 && rm != 6 {
        0
    } else if md == 1 {
        sext8_16(fetch8(m))
    } else {
        fetch16(m)
    };
    (reg, mem_operand(m, d, bs.1, bs.0.wrapping_add(disp) as u32))
}

fn modrm32(m: &mut Machine, d: &Decoder, md: u8, rm: usize) -> (r: Operand)
    requires
        d.wf(),
        rm < 8,
    ensures
        (final(m)@, r) == old(m)@.modrm32(*d, md, rm),
        r.wf(),
{
    proof {
        reveal(State::modrm32);
        reveal(State::modrm_base);
        reveal(State::modrm_disp);
    }
    let mut seg: usize = DS;
    let base: u32 = if rm == 4 {
        let sib: u8 = fetch8(m);
        let index: usize = (sib / 8 % 8) as usize;
        let b: usize = (sib % 8) as usize;
        let idx: u32 = if index == 4 {
            0
        } else {
            m.cpu.regs[index] << (sib / 64) as u32
        };
        let bv: u32 = if b == 5 && md == 0 {
            fetch32(m)
        } else {
            if b == SP || b == BP {
                seg = SS;
            }
            m.cpu.regs[b]
        };
        bv.wrapping_add(idx)
    } else if rm == 5 && md == 0 {
        fetch32(m)
    } else {
        if rm == BP {
            seg = SS;
        }
        m.cpu.regs[rm]
    };
    let disp: u32 = if md == 0 {
        0
    } else if md == 1 {
        sext8_32(fetch8(m))
    } else {
        fetch32(m)
    };
    mem_operand(m, d, seg, base.wrapping_add(disp))
}

pub fn read_op8(m: &mut Machine, op: &Operand) -> (v: u8)
    requires
        op.wf(),
    ensures
        (final(m)@, v) == old(m)@.read_op8(*op),
{
    proof {
        reveal(State::read_op8);
    }
    match *op {
        Operand::Reg(r) => m.cpu.reg8(r),
        Operand::Mem { addr, off, seg } => if m.cpu.data_allowed(seg, off, 1, false) {
            m.read8(addr)
        } else {
            m.note_fault(segment_fault(seg));
            0
        },
    }
}

pub fn write_op8(m: &mut Machine, op: &Operand, v: u8)
    requires
        op.wf(),
    ensures
        final(m)@ == old(m)@.write_op8(*op, v),
{
    proof {
        reveal(State::write_op8);
    }
    match *op {
        Operand::Reg(r) => m.cpu.set_reg8(r, v),
        Operand::Mem { addr, off, seg } => if m.cpu.data_allowed(seg, off, 1, true) {
            m.write8(addr, v)
        } else {
            m.note_fault(segment_fault(seg))
        },
    }
}

pub fn read_op16(m: &mut Machine, op: &Operand) -> (v: u16)
    requires
        op.wf(),
    ensures
        (final(m)@, v) == old(m)@.read_op16(*op),
{
    proof {
        reveal(State::read_op16);
    }
    match *op {
        Operand::Reg(r) => m.cpu.reg16(r),
        Operand::Mem { addr, off, seg } => if m.cpu.data_allowed(seg, off, 2, false) {
            m.read16(addr)
        } else {
            m.note_fault(segment_fault(seg));
            0
        },
    }
}

pub fn write_op16(m: &mut Machine, op: &Operand, v: u16)
    requires
        op.wf(),
    ensures
        final(m)@ == old(m)@.write_op16(*op, v),
{
    proof {
        reveal(State::write_op16);
    }
    match *op {
        Operand::Reg(r) => m.cpu.set_reg16(r, v),
        Operand::Mem { addr, off, seg } => if m.cpu.data_allowed(seg, off, 2, true) {
            m.write16(addr, v)
        } else {
            m.note_fault(segment_fault(seg))
        },
    }
}

pub fn read_op32(m: &mut Machine, op: &Operand) -> (v: u32)
    requires
        op.wf(),
    ensures
        (final(m)@, v) == old(m)@.read_op32(*op),
{
    proof {
        reveal(State::read_op32);
    }
    match *op {
        Operand::Reg(r) => m.cpu.reg32(r),
        Operand::Mem { addr, off, seg } => if m.cpu.data_allowed(seg, off, 4, false) {
            m.read32(addr)
        } else {
            m.note_fault(segment_fault(seg));
            0
        },
    }
}

pub fn write_op32(m: &mut Machine, op: &Operand, v: u32)
    requires
        op.wf(),
    ensures
        final(m)@ == old(m)@.write_op32(*op, v),
{
    proof {
        reveal(State::write_op32);
    }
    match *op {
        Operand::Reg(r) => m.cpu.set_reg32(r, v),
        Operand::Mem { addr, off, seg } => if m.cpu.data_allowed(seg, off, 4, true) {
            m.write32(addr, v)
        } else {
            m.note_fault(segment_fault(seg))
        },
    }
}

pub fn read_op_w(m: &mut Machine, op: &Operand, wide: bool) -> (v: u32)
    requires
        op.wf(),
    ensures
        (final(m)@, v) == old(m)@.read_op_w(*op, wide),
{
    proof {
        reveal(State::read_op_w);
    }
    if wide {
        read_op32(m, op)
    } else {
        read_op16(m, op) as u32
    }
}

pub fn write_op_w(m: &mut Machine, op: &Operand, v: u32, wide: bool)
    requires
        op.wf(),
    ensures
        final(m)@ == old(m)@.write_op_w(*op, v, wide),
{
    proof {
        reveal(State::write_op_w);
    }
    if wide {
        write_op32(m, op, v)
    } else {
        write_op16(m, op, v as u16)
    }
}

pub fn direct16(m: &mut Machine, op: &Operand) -> (v: u16)
    requires
        op.wf(),
    ensures
        (final(m)@, v) == old(m)@.direct16(*op),
{
    proof {
        reveal(State::direct16);
    }
    match *op {
        Operand::Reg(r) => m.cpu.reg16(r),
        Operand::Mem { addr, .. } => m.read16(addr),
    }
}

pub fn direct32(m: &mut Machine, op: &Operand) -> (v: u32)
    requires
        op.wf(),
    ensures
        (final(m)@, v) == old(m)@.direct32(*op),
{
    proof {
        reveal(State::direct32);
    }
    match *op {
        Operand::Reg(r) => m.cpu.reg32(r),
        Operand::Mem { addr, .. } => m.read32(addr),
    }
}

pub fn set_direct32(m: &mut Machine, op: &Operand, v: u32)
    requires
        op.wf(),
    ensures
        final(m)@ == old(m)@.with_direct32(*op, v),
{
    proof {
        reveal(State::with_direct32);
    }
    match *op {
        Operand::Reg(r) => m.cpu.set_reg32(r, v),
        Operand::Mem { addr, .. } => m.write32(addr, v),
    }
}

/// The stack pointer.
pub fn sp_read(m: &Machine) -> (v: u32)
    ensures
        v == m@.cpu.sp(),
{
    m.cpu.sp()
}

pub fn sp_write(m: &mut Machine, v: u32)
    ensures
        final(m)@ == old(m)@.with_cpu(old(m)@.cpu.with_sp(v)),
{
    let wide = m.cpu.seg_is32(SS);
    m.cpu.set_reg_w(SP, v, wide);
}

/// Moves the stack pointer down.
pub fn sp_down(m: &mut Machine, n: u32)
    ensures
        final(m)@ == old(m)@.sp_down(n),
{
    proof {
        reveal(State::sp_down);
    }
    let v: u32 = narrow(m.cpu.sp().wrapping_sub(n), m.cpu.seg_is32(SS));
    sp_write(m, v);
}

/// Moves the stack pointer up.
pub fn sp_up(m: &mut Machine, n: u32)
    ensures
        final(m)@ == old(m)@.sp_up(n),
{
    proof {
        reveal(State::sp_up);
    }
    let v: u32 = narrow(m.cpu.sp().wrapping_add(n), m.cpu.seg_is32(SS));
    sp_write(m, v);
}

pub fn push16(m: &mut Machine, v: u16)
    ensures
        final(m)@ == old(m)@.push16(v),
{
    proof {
        reveal(State::push16);
    }
    sp_down(m, 2);
    let a: u32 = m.cpu.lin(SS, m.cpu.sp());
    m.write16(a, v);
}

pub fn push32(m: &mut Machine, v: u32)
    ensures
        final(m)@ == old(m)@.push32(v),
{
    proof {
        reveal(State::push32);
    }
    sp_down(m, 4);
    let a: u32 = m.cpu.lin(SS, m.cpu.sp());
    m.write32(a, v);
}

pub fn push_w(m: &mut Machine, v: u32, wide: bool)
    ensures
        final(m)@ == old(m)@.push_w(v, wide),
{
    proof {
        reveal(State::push_w);
    }
    if wide {
        push32(m, v)
    } else {
        push16(m, v as u16)
    }
}

pub fn pop16(m: &mut Machine) -> (v: u16)
    ensures
        (final(m)@, v) == old(m)@.pop16(),
{
    proof {
        reveal(State::pop16);
    }
    let a: u32 = m.cpu.lin(SS, m.cpu.sp());
    let v: u16 = m.read16(a);
    sp_up(m, 2);
    v
}

pub fn pop32(m: &mut Machine) -> (v: u32)
    ensures
        (final(m)@, v) == old(m)@.pop32(),
{
    proof {
        reveal(State::pop32);
    }
    let a: u32 = m.cpu.lin(SS, m.cpu.sp());
    let v: u32 = m.read32(a);
    sp_up(m, 4);
    v
}

pub fn pop_w(m: &mut Machine, wide: bool) -> (v: u32)
    ensures
        (final(m)@, v) == old(m)@.pop_w(wide),
{
    proof {
        reveal(State::pop_w);
    }
    if wide {
        pop32(m)
    } else {
        pop16(m) as u32
    }
}

proof fn lemma_low_half(r: u32, n: u32)
    by (bit_vector)
    ensures
        ((r & 0xFFFF_0000) | (n as u16 as u32)) as u16 == n as u16,
        ((((r & 0xFFFF_0000) | (n as u16 as u32)) & 0xFFFF_0000) | (r as u16 as u32)) == r,
        (n as u16 as u32) as u16 == n as u16,
        n < 0x1_0000 ==> n as u16 as u32 == n,
        n as u16 as u32 == n % 0x1_0000,
{
}

/// What was pushed is popped again, and the stack pointer is back where it was,
/// wherever the pushed doubleword lies in memory, with or without paging.
pub proof fn law_push_pop(s: State, v: u32)
    requires
        s.sp_down(4).writable(s.sp_down(4).cpu.lin(SS, s.sp_down(4).cpu.sp()), 4),
    ensures
        s.push32(v).pop32().1 == v,
        s.push32(v).pop32().0.cpu == s.cpu,
{
    reveal(State::push32);
    reveal(State::pop32);
    reveal(State::sp_down);
    reveal(State::sp_up);
    let t = s.sp_down(4);
    let r = s.cpu.regs[SP as int];
    lemma_low_half(r, s.cpu.sp().wrapping_sub(4));
    lemma_low_half(r, r);
    lemma_low_half(r, narrow(s.cpu.sp().wrapping_sub(4), false));
    lemma_low_half(r, narrow(s.cpu.sp().wrapping_sub(4), false).wrapping_add(4));
    let a = t.cpu.lin(SS, t.cpu.sp());
    crate::machine::law_doubleword_read_back(t, a, v);
    let u = s.push32(v);
    crate::machine::lemma_write_keeps(t, a, v);
    crate::machine::lemma_read_keeps(u, a);
    assert(u.cpu == t.cpu);
    assert(u.pop32().0.cpu.regs =~= s.cpu.regs);
}

/// The same of a word.
pub proof fn law_push_pop_word(s: State, v: u16)
    requires
        s.sp_down(2).writable(s.sp_down(2).cpu.lin(SS, s.sp_down(2).cpu.sp()), 2),
    ensures
        s.push16(v).pop16().1 == v,
        s.push16(v).pop16().0.cpu == s.cpu,
{
    reveal(State::push16);
    reveal(State::pop16);
    reveal(State::sp_down);
    reveal(State::sp_up);
    let t = s.sp_down(2);
    let r = s.cpu.regs[SP as int];
    lemma_low_half(r, s.cpu.sp().wrapping_sub(2));
    lemma_low_half(r, r);
    lemma_low_half(r, narrow(s.cpu.sp().wrapping_sub(2), false));
    lemma_low_half(r, narrow(s.cpu.sp().wrapping_sub(2), false).wrapping_add(2));
    let a = t.cpu.lin(SS, t.cpu.sp());
    let u = s.push16(v);
    crate::machine::law_word_read_back(t, a, v);
    crate::machine::lemma_write_keeps(t, a, v as u32);
    crate::machine::lemma_read_keeps(u, a);
    assert(u.cpu == t.cpu);
    assert(u.pop16().0.cpu.regs =~= s.cpu.regs);
}

/// Through a flat segment in protected mode an offset is its own linear address, and
/// no access is refused.
pub proof fn law_flat_segment(c: Cpu, seg: usize, off: u32, size: u32, write: bool)
    requires
        seg < 6,
        c.pe(),
        c.hidden[seg as int].flat_rw(),
    ensures
        c.lin(seg, off) == off,
        c.data_allowed(seg, off, size, write),
{
}

/// An access that its segment does not allow is noted as a fault, and changes neither
/// memory nor the processor.
pub proof fn law_refused_access(s: State, addr: u32, off: u32, seg: usize, v: u32, wide: bool)
    requires
        s.pending_fault is None,
        !s.cpu.data_allowed(seg, off, if wide { 4 } else { 2 }, true),
    ensures
        ({
            let t = s.write_op_w(Operand::Mem { addr, off, seg }, v, wide);
            &&& t == State { pending_fault: t.pending_fault, ..s }
            &&& t.pending_fault == Some(segment_fault(seg))
        }),
        !s.cpu.data_allowed(seg, off, if wide { 4 } else { 2 }, false) ==> ({
            let (t, r) = s.read_op_w(Operand::Mem { addr, off, seg }, wide);
            &&& t == State { pending_fault: t.pending_fault, ..s }
            &&& t.pending_fault == Some(segment_fault(seg))
            &&& r == 0
        }),
{
    reveal(State::write_op_w);
    reveal(State::write_op16);
    reveal(State::write_op32);
    reveal(State::read_op_w);
    reveal(State::read_op16);
    reveal(State::read_op32);
}

/// A real-mode address stays within the first megabyte and is the address of its
/// segment and offset.
pub proof fn law_real_mode_address(c: Cpu, seg: usize, off: u16)
    requires
        seg < 6,
        !c.pe(),
    ensures
        c.lin(seg, off as u32) == linear(c.sregs[seg as int], off),
        c.lin(seg, off as u32) < 0x10_0000,
{
    let sel = c.sregs[seg as int] as u32;
    lemma_segment_shift(sel, (16 * sel + off) as u32);
}

proof fn lemma_segment_shift(sel: u32, a: u32)
    by (bit_vector)
    requires
        sel <= 0xFFFF,
    ensures
        sel << 4 == 16 * sel,
        a & 0xF_FFFF == a % 0x10_0000,
{
}

} // verus!
