//! The FPU: a stack of eight registers that hold doubles, as bit patterns.
//!
//! Loads, stores, comparisons, the stack and the status are done here; what needs
//! floating-point arithmetic is asked for (see [`crate::cpu::float`]). Exceptions
//! never happen, so their status bits stay clear.

use vstd::prelude::*;
use crate::cpu::float::{
    double_of_int, exponent_for_scale, f64_to_f80, f80_to_f64, int64_to_double, is_nan64,
    magnitude64, narrow_double, order64, round_integral, scale2, to_int, widen, Arith, FloatOp,
    FloatOrder, FloatRequest, FloatThen,
    INF64, SIGN64,
};
use crate::cpu::operand::Operand;
use crate::cpu::state::{Cpu, AX, CF, PF, ZF};
use crate::machine::{Machine, State, TrapReason};

verus! {

pub const C0: u16 = 0x0100;
pub const C1: u16 = 0x0200;
pub const C2: u16 = 0x0400;
pub const C3: u16 = 0x4000;

#[derive(Clone, Copy)]
pub struct Fpu {
    /// The physical registers.
    pub regs: [u64; 8],
    /// A bit for each physical register that is empty.
    pub empty: u8,
    /// The physical register on top of the stack.
    pub top: u8,
    /// The condition codes, where the status word has them.
    pub cond: u16,
    /// Significands that MMX instructions wrote.
    pub wide: [u64; 8],
    /// Which physical registers hold such a significand, with an exponent of all
    /// ones.
    pub is_wide: [bool; 8],
}

/// The double of an extended number with a negative sign and an exponent of all
/// ones.
#[verifier::allow_in_spec]
pub fn wide_double(significand: u64) -> u64
    returns
        (if significand % 0x8000_0000_0000_0000 == 0 {
            0xFFF0_0000_0000_0000u64
        } else {
            0x7FF8_0000_0000_0000u64
        }),
{
    if significand % 0x8000_0000_0000_0000 == 0 {
        0xFFF0_0000_0000_0000
    } else {
        0x7FF8_0000_0000_0000
    }
}

/// The condition codes after a comparison.
#[verifier::allow_in_spec]
pub fn compared(cond: u16, order: FloatOrder) -> u16
    returns
        (match order {
            FloatOrder::Unordered => (cond & !0x4500u16) | 0x4500,
            FloatOrder::Less => (cond & !0x4500u16) | C0,
            FloatOrder::Equal => (cond & !0x4500u16) | C3,
            FloatOrder::Greater => cond & !0x4500u16,
        }),
{
    match order {
        FloatOrder::Unordered => (cond & !0x4500u16) | 0x4500,
        FloatOrder::Less => (cond & !0x4500u16) | C0,
        FloatOrder::Equal => (cond & !0x4500u16) | C3,
        FloatOrder::Greater => cond & !0x4500u16,
    }
}

impl Fpu {
    pub open spec fn initial() -> Fpu {
        Fpu {
            regs: [0u64, 0u64, 0u64, 0u64, 0u64, 0u64, 0u64, 0u64],
            empty: 0xFF,
            top: 0,
            cond: 0,
            wide: [0u64, 0u64, 0u64, 0u64, 0u64, 0u64, 0u64, 0u64],
            is_wide: [false, false, false, false, false, false, false, false],
        }
    }

    pub fn new() -> (r: Fpu)
        ensures
            r == Fpu::initial(),
    {
        Fpu {
            regs: [0u64, 0u64, 0u64, 0u64, 0u64, 0u64, 0u64, 0u64],
            empty: 0xFF,
            top: 0,
            cond: 0,
            wide: [0u64, 0u64, 0u64, 0u64, 0u64, 0u64, 0u64, 0u64],
            is_wide: [false, false, false, false, false, false, false, false],
        }
    }

    pub fn reset(&mut self)
        ensures
            *final(self) == Fpu::initial(),
    {
        *self = Fpu::new();
    }

    /// The status word.
    #[verifier::allow_in_spec]
    pub fn status(&self) -> u16
        returns
            self.cond | ((self.top as u16) << 11),
    {
        self.cond | ((self.top as u16) << 11)
    }

    /// The physical register of stack register `i`.
    #[verifier::allow_in_spec]
    pub fn phys(&self, i: usize) -> (r: usize)
        requires
            i < 8,
        ensures
            r < 8,
        returns
            ((self.top % 8 + i) % 8) as usize,
    {
        ((self.top % 8) as usize + i) % 8
    }

    /// Stack register `i`.
    #[verifier::allow_in_spec]
    pub fn st(&self, i: usize) -> u64
        requires
            i < 8,
        returns
            self.regs[self.phys(i) as int],
    {
        self.regs[self.phys(i)]
    }

    /// A physical register set to a double.
    pub open spec fn with_phys(self, p: usize, v: u64) -> Fpu {
        Fpu {
            regs: vstd::array::spec_array_update(self.regs, p as int, v),
            is_wide: vstd::array::spec_array_update(self.is_wide, p as int, false),
            ..self
        }
    }

    fn set_phys(&mut self, p: usize, v: u64)
        requires
            p < 8,
        ensures
            *final(self) == old(self).with_phys(p, v),
    {
        self.regs[p] = v;
        self.is_wide[p] = false;
    }

    /// A physical register as an extended number.
    pub open spec fn extended(self, p: usize) -> (u64, u16) {
        if self.is_wide[p as int] {
            (self.wide[p as int], 0xFFFF)
        } else {
            crate::cpu::float::extended_of(self.regs[p as int])
        }
    }

    /// A physical register set to an extended number. An exponent of all ones under a
    /// negative sign is what MMX instructions leave.
    pub open spec fn with_extended(self, p: usize, m: u64, se: u16) -> Fpu {
        if se == 0xFFFF {
            self.with_mm(p, m)
        } else {
            self.with_phys(p, crate::cpu::float::double_of_extended(m, se))
        }
    }

    fn to_extended(&self, p: usize) -> (r: (u64, u16))
        requires
            p < 8,
        ensures
            r == self.extended(p),
    {
        if self.is_wide[p] {
            (self.wide[p], 0xFFFF)
        } else {
            f64_to_f80(self.regs[p])
        }
    }

    /// Marks a physical register as full or empty.
    pub open spec fn marked(self, p: usize, full: bool) -> Fpu {
        Fpu {
            empty: if full { self.empty & !(1u8 << p as u8) } else { self.empty | (1u8 << p as u8) },
            ..self
        }
    }

    pub open spec fn with_st(self, i: usize, v: u64) -> Fpu {
        self.with_phys(self.phys(i), v).marked(self.phys(i), true)
    }

    pub open spec fn pushed(self, v: u64) -> Fpu {
        let t = ((self.top % 8 + 7) % 8) as u8;
        (Fpu { top: t, ..self }).with_phys(t as usize, v).marked(t as usize, true)
    }

    pub open spec fn popped(self) -> Fpu {
        let f = self.marked((self.top % 8) as usize, false);
        Fpu { top: ((self.top % 8 + 1) % 8) as u8, ..f }
    }

    fn mark(&mut self, p: usize, full: bool)
        requires
            p < 8,
        ensures
            *final(self) == old(self).marked(p, full),
    {
        if full {
            self.empty = self.empty & !(1u8 << p as u8);
        } else {
            self.empty = self.empty | (1u8 << p as u8);
        }
    }

    pub fn set_st(&mut self, i: usize, v: u64)
        requires
            i < 8,
        ensures
            *final(self) == old(self).with_st(i, v),
    {
        let p: usize = self.phys(i);
        self.set_phys(p, v);
        self.mark(p, true);
    }

    pub fn push(&mut self, v: u64)
        ensures
            *final(self) == old(self).pushed(v),
    {
        let t: u8 = (self.top % 8 + 7) % 8;
        self.top = t;
        self.set_phys(t as usize, v);
        self.mark(t as usize, true);
    }

    pub fn pop(&mut self)
        ensures
            *final(self) == old(self).popped(),
    {
        let t: u8 = self.top % 8;
        self.mark(t as usize, false);
        self.top = (t + 1) % 8;
    }

    /// Whether stack register `i` is empty.
    #[verifier::allow_in_spec]
    pub fn st_empty(&self, i: usize) -> bool
        requires
            i < 8,
        returns
            self.empty & (1u8 << self.phys(i) as u8) != 0,
    {
        self.empty & (1u8 << self.phys(i) as u8) != 0
    }

    /// Stack register `i`, even when it is empty.
    #[verifier::allow_in_spec]
    pub fn st_raw(&self, i: usize) -> u64
        requires
            i < 8,
        returns
            self.st(i),
    {
        self.st(i)
    }

    /// Sets stack register `i` and whether it is in use.
    pub fn set_st_raw(&mut self, i: usize, v: u64, valid: bool)
        requires
            i < 8,
        ensures
            *final(self) == old(self).with_phys(old(self).phys(i), v).marked(
                old(self).phys(i),
                valid,
            ),
    {
        let p: usize = self.phys(i);
        self.set_phys(p, v);
        self.mark(p, valid);
    }

    /// The tag of a physical register: 3 empty, 1 zero, 2 infinite or NaN, 0 any
    /// other number.
    #[verifier::allow_in_spec]
    pub fn tag(&self, p: usize) -> u16
        requires
            p < 8,
        returns
            (if self.empty & (1u8 << p as u8) != 0 {
                3u16
            } else if magnitude64(self.regs[p as int]) == 0 {
                1u16
            } else if magnitude64(self.regs[p as int]) >= INF64 {
                2u16
            } else {
                0u16
            }),
    {
        if self.empty & (1u8 << p as u8) != 0 {
            3
        } else if magnitude64(self.regs[p]) == 0 {
            1
        } else if magnitude64(self.regs[p]) >= INF64 {
            2
        } else {
            0
        }
    }

    /// The tags of the first `k` physical registers, two bits each.
    pub open spec fn tags_upto(self, k: nat) -> u16
        decreases k,
    {
        if k == 0 {
            0
        } else {
            self.tags_upto((k - 1) as nat) | (self.tag((k - 1) as usize) << ((2 * (k - 1)) as u16))
        }
    }

    /// The tag word.
    pub fn tag_word(&self) -> (r: u16)
        ensures
            r == self.tags_upto(8),
    {
        let mut w: u16 = 0;
        let mut k: usize = 0;
        while k < 8
            invariant
                k <= 8,
                w == self.tags_upto(k as nat),
            decreases 8 - k,
        {
            w = w | (self.tag(k) << (2 * k as u16));
            k = k + 1;
        }
        w
    }

    /// The registers that a tag word says are empty, among the first `k`.
    pub open spec fn empty_upto(w: u16, k: nat) -> u8
        decreases k,
    {
        if k == 0 {
            0
        } else {
            let e = Fpu::empty_upto(w, (k - 1) as nat);
            if (w >> ((2 * (k - 1)) as u16)) & 3 == 3 {
                e | (1u8 << ((k - 1) as u8))
            } else {
                e
            }
        }
    }

    pub fn load_tag_word(&mut self, w: u16)
        ensures
            *final(self) == (Fpu { empty: Fpu::empty_upto(w, 8), ..*old(self) }),
    {
        let mut e: u8 = 0;
        let mut k: u8 = 0;
        while k < 8
            invariant
                k <= 8,
                e == Fpu::empty_upto(w, k as nat),
            decreases 8 - k,
        {
            if (w >> (2 * k as u16)) & 3 == 3 {
                e = e | (1u8 << k);
            }
            k = k + 1;
        }
        self.empty = e;
    }

    /// What FXAM says of the top of the stack.
    pub open spec fn examined(self) -> u16 {
        let v = self.st(0);
        let base = (self.cond & !0x4700u16) | (if v >= SIGN64 { C1 } else { 0u16 });
        if self.st_empty(0) {
            base | 0x4100
        } else if is_nan64(v) {
            base | C0
        } else if magnitude64(v) == INF64 {
            base | 0x0500
        } else if magnitude64(v) == 0 {
            base | C3
        } else if magnitude64(v) < 0x10_0000_0000_0000 {
            base | 0x4400
        } else {
            base | C2
        }
    }

    fn examine(&mut self)
        ensures
            *final(self) == (Fpu { cond: old(self).examined(), ..*old(self) }),
    {
        let v: u64 = self.st(0);
        let base: u16 = (self.cond & !0x4700u16) | (if v >= SIGN64 {
            C1
        } else {
            0
        });
        self.cond =
        if self.st_empty(0) {
            base | 0x4100
        } else if is_nan64(v) {
            base | C0
        } else if magnitude64(v) == INF64 {
            base | 0x0500
        } else if magnitude64(v) == 0 {
            base | C3
        } else if magnitude64(v) < 0x10_0000_0000_0000 {
            base | 0x4400
        } else {
            base | C2
        };
    }

    /// An MMX register: the significand of the physical register of that number.
    pub open spec fn mm_value(self, r: usize) -> u64 {
        self.extended(r).0
    }

    pub fn mm(&self, r: usize) -> (v: u64)
        requires
            r < 8,
        ensures
            v == self.mm_value(r),
    {
        self.to_extended(r).0
    }

    /// The exponent becomes all ones: as a double it is a NaN, or infinite.
    pub open spec fn with_mm(self, r: usize, v: u64) -> Fpu {
        Fpu {
            regs: vstd::array::spec_array_update(self.regs, r as int, wide_double(v)),
            wide: vstd::array::spec_array_update(self.wide, r as int, v),
            is_wide: vstd::array::spec_array_update(self.is_wide, r as int, true),
            ..self
        }
    }

    pub fn set_mm(&mut self, r: usize, v: u64)
        requires
            r < 8,
        ensures
            *final(self) == old(self).with_mm(r, v),
    {
        self.regs[r] = wide_double(v);
        self.wide[r] = v;
        self.is_wide[r] = true;
    }

    pub open spec fn mmx_touched(self) -> Fpu {
        Fpu { top: 0, empty: 0, ..self }
    }

    /// An MMX instruction puts the stack at its start with all registers in use.
    pub fn mmx_touch(&mut self)
        ensures
            *final(self) == old(self).mmx_touched(),
    {
        self.top = 0;
        self.empty = 0;
    }

    /// EMMS: all registers are free again.
    pub fn emms(&mut self)
        ensures
            *final(self) == (Fpu { empty: 0xFF, ..*old(self) }),
    {
        self.empty = 0xFF;
    }
}

/// What was pushed is on top of the stack, and popping it gives the stack pointer
/// back; the other seven registers are one further down meanwhile.
pub proof fn law_fpu_stack(f: Fpu, v: u64, i: usize)
    requires
        f.top < 8,
        i < 7,
    ensures
        f.pushed(v).st(0) == v,
        f.pushed(v).popped().top == f.top,
        f.pushed(v).st((i + 1) as usize) == f.st(i),
{
}

/// An MMX register reads back what was written, and writing one leaves the others
/// alone.
pub proof fn law_mm_read_back(f: Fpu, r: usize, q: usize, v: u64)
    requires
        r < 8,
        q < 8,
    ensures
        f.with_mm(r, v).mm_value(r) == v,
        q != r ==> f.with_mm(r, v).mm_value(q) == f.mm_value(q),
        f.with_mm(r, v).extended(r).1 == 0xFFFF,
{
}

/// The number of a constant that FLD loads: 1, log2 10, log2 e, pi, log10 2, ln 2
/// and 0.
#[verifier::allow_in_spec]
pub fn constant(i: usize) -> u64
    returns
        (if i == 0 {
            0x3FF0_0000_0000_0000u64
        } else if i == 1 {
            0x400A_934F_0979_A371u64
        } else if i == 2 {
            0x3FF7_1547_652B_82FEu64
        } else if i == 3 {
            0x4009_21FB_5444_2D18u64
        } else if i == 4 {
            0x3FD3_4413_509F_79FFu64
        } else if i == 5 {
            0x3FE6_2E42_FEFA_39EFu64
        } else {
            0u64
        }),
{
    if i == 0 {
        0x3FF0_0000_0000_0000
    } else if i == 1 {
        0x400A_934F_0979_A371
    } else if i == 2 {
        0x3FF7_1547_652B_82FE
    } else if i == 3 {
        0x4009_21FB_5444_2D18
    } else if i == 4 {
        0x3FD3_4413_509F_79FF
    } else if i == 5 {
        0x3FE6_2E42_FEFA_39EF
    } else {
        0
    }
}

/// Operation and operands of an arithmetic instruction with the top of the stack
/// `a` and the other operand `b`; `other_first` where the result goes to the other
/// operand. Slots 2 and 3 are comparisons.
#[verifier::allow_in_spec]
pub fn arith_of(slot: usize, a: u64, b: u64, other_first: bool) -> (Arith, u64, u64)
    returns
        (if slot == 0 {
            if other_first {
                (Arith::Add, b, a)
            } else {
                (Arith::Add, a, b)
            }
        } else if slot == 1 {
            if other_first {
                (Arith::Mul, b, a)
            } else {
                (Arith::Mul, a, b)
            }
        } else if slot == 4 {
            (Arith::Sub, a, b)
        } else if slot == 5 {
            (Arith::Sub, b, a)
        } else if slot == 6 {
            (Arith::Div, a, b)
        } else {
            (Arith::Div, b, a)
        }),
{
    if slot == 0 {
        if other_first {
            (Arith::Add, b, a)
        } else {
            (Arith::Add, a, b)
        }
    } else if slot == 1 {
        if other_first {
            (Arith::Mul, b, a)
        } else {
            (Arith::Mul, a, b)
        }
    } else if slot == 4 {
        (Arith::Sub, a, b)
    } else if slot == 5 {
        (Arith::Sub, b, a)
    } else if slot == 6 {
        (Arith::Div, a, b)
    } else {
        (Arith::Div, b, a)
    }
}

impl Cpu {
    /// The flags after FCOMI, FUCOMI and the comparisons of SSE: zero, parity and
    /// carry tell equal, unordered and less.
    pub open spec fn order_flags(self, order: FloatOrder) -> u32 {
        let f = self.eflags() & !0x45u32;
        match order {
            FloatOrder::Unordered => f | 0x45,
            FloatOrder::Less => f | CF,
            FloatOrder::Equal => f | ZF,
            FloatOrder::Greater => f,
        }
    }

    pub open spec fn with_fpu(self, fpu: Fpu) -> Cpu {
        Cpu { fpu, ..self }
    }
}

fn set_order_flags(c: &mut Cpu, order: FloatOrder)
    ensures
        *final(c) == old(c).with_eflags(old(c).order_flags(order)),
{
    let f: u32 = c.eflags() & !0x45u32;
    let g: u32 = match order {
        FloatOrder::Unordered => f | 0x45,
        FloatOrder::Less => f | CF,
        FloatOrder::Equal => f | ZF,
        FloatOrder::Greater => f,
    };
    c.set_eflags(g);
}

impl State {
    pub open spec fn with_fpu(self, fpu: Fpu) -> State {
        self.with_cpu(self.cpu.with_fpu(fpu))
    }

    pub open spec fn float_asked(self, op: FloatOp, a: u128, b: u128, target: FloatThen) -> State {
        State { float_request: Some(FloatRequest { op, a, b, target }), ..self }
    }

    #[verifier::opaque]
    pub open spec fn read64(self, a: u32) -> (State, u64) {
        let (s1, lo) = self.read32(a);
        let (s2, hi) = s1.read32(a.wrapping_add(4));
        (s2, (lo + 0x1_0000_0000 * hi) as u64)
    }

    #[verifier::opaque]
    pub open spec fn write64(self, a: u32, v: u64) -> State {
        self.write32(a, (v % 0x1_0000_0000) as u32).write32(
            a.wrapping_add(4),
            (v / 0x1_0000_0000) as u32,
        )
    }

    /// Writes stack register `i` as an extended number of ten bytes.
    #[verifier::opaque]
    pub open spec fn write_extended(self, a: u32, i: usize) -> State {
        let (m, se) = self.cpu.fpu.extended(self.cpu.fpu.phys(i));
        self.write64(a, m).write16(a.wrapping_add(8), se)
    }

    /// An extended number in memory: significand, and sign and exponent.
    #[verifier::opaque]
    pub open spec fn read_extended(self, a: u32) -> (State, u64, u16) {
        let (s1, m) = self.read64(a);
        let (s2, se) = s1.read16(a.wrapping_add(8));
        (s2, m, se)
    }

    /// Writes the environment: control, status and tags, each in a doubleword, then
    /// four doublewords of zero.
    #[verifier::opaque]
    pub open spec fn store_env(self, a: u32) -> State {
        let f = self.cpu.fpu;
        self.write32(a, self.cpu.fpu_cw as u32).write32(
            a.wrapping_add(4),
            f.status() as u32,
        ).write32(a.wrapping_add(8), f.tags_upto(8) as u32).write32(
            a.wrapping_add(12),
            0,
        ).write32(a.wrapping_add(16), 0).write32(a.wrapping_add(20), 0).write32(
            a.wrapping_add(24),
            0,
        )
    }

    /// Loads the environment.
    #[verifier::opaque]
    pub open spec fn load_env(self, a: u32) -> State {
        let (s1, cw) = self.read32(a);
        let (s2, sw32) = s1.read32(a.wrapping_add(4));
        let (s3, tag) = s2.read32(a.wrapping_add(8));
        let sw = sw32 as u16;
        s3.with_cpu(
            Cpu {
                fpu_cw: cw as u16,
                fpu: Fpu {
                    top: ((sw >> 11) & 7) as u8,
                    cond: sw & 0x4700,
                    empty: Fpu::empty_upto(tag as u16, 8),
                    ..s3.cpu.fpu
                },
                ..s3.cpu
            },
        )
    }

    /// Writes stack registers `k` to 7 as extended numbers, `step` bytes apart.
    #[verifier::opaque]
    pub open spec fn save_from(self, a: u32, step: u32, k: nat) -> State
        decreases 8 - k,
    {
        if k >= 8 {
            self
        } else {
            self.write_extended(a.wrapping_add((step * k) as u32), k as usize).save_from(
                a,
                step,
                k + 1,
            )
        }
    }

    /// Stack registers `k` to 7 from extended numbers, `step` bytes apart.
    #[verifier::opaque]
    pub open spec fn restored_from(self, a: u32, step: u32, k: nat) -> State
        decreases 8 - k,
    {
        if k >= 8 {
            self
        } else {
            let (s, m, se) = self.read_extended(a.wrapping_add((step * k) as u32));
            let f = s.cpu.fpu;
            s.with_fpu(f.with_extended(f.phys(k as usize), m, se)).restored_from(a, step, k + 1)
        }
    }

    /// A comparison with the top of the stack, and a pop if so.
    pub open spec fn fpu_compare(self, b: u64, pops: nat) -> State {
        let f = self.cpu.fpu;
        let g = Fpu {
            cond: compared(f.cond, crate::cpu::float::order_of64(f.st(0), b)),
            ..f
        };
        self.with_fpu(
            if pops == 0 {
                g
            } else if pops == 1 {
                g.popped()
            } else {
                g.popped().popped()
            },
        )
    }

    /// One of the eight arithmetic slots on the top of the stack and `b`.
    #[verifier::opaque]
    pub open spec fn fpu_arith(self, slot: usize, b: u64) -> State {
        if slot == 2 || slot == 3 {
            self.fpu_compare(b, if slot == 3 { 1 } else { 0 })
        } else {
            let (op, x, y) = arith_of(slot, self.cpu.fpu.st(0), b, false);
            self.float_asked(
                FloatOp::Double(op),
                x as u128,
                y as u128,
                FloatThen::SetSt { i: 0, pop: false },
            )
        }
    }

    /// The arithmetic whose result goes to stack register `i`.
    #[verifier::opaque]
    pub open spec fn fpu_arith_to(self, slot: usize, i: usize, pop: bool) -> State {
        let (op, x, y) = arith_of(slot, self.cpu.fpu.st(0), self.cpu.fpu.st(i), true);
        self.float_asked(
            FloatOp::Double(op),
            x as u128,
            y as u128,
            FloatThen::SetSt { i, pop },
        )
    }

    /// The memory operand of an arithmetic instruction, as a double.
    #[verifier::opaque]
    pub open spec fn fpu_source(self, op: u8, a: u32) -> (State, u64) {
        if op == 0xD8 {
            let (s, v) = self.read32(a);
            (s, crate::cpu::float::widened(v))
        } else if op == 0xDA {
            let (s, v) = self.read32(a);
            (s, crate::cpu::float::double_of(crate::bits::signed32(v) as int))
        } else if op == 0xDC {
            self.read64(a)
        } else {
            let (s, v) = self.read16(a);
            (s, crate::cpu::float::double_of(crate::bits::signed16(v) as int))
        }
    }

    /// Stores the top of the stack as an integer of two, four or eight bytes.
    #[verifier::opaque]
    pub open spec fn store_integer(self, a: u32, rounding: u8, bytes: u8, pop: bool) -> State {
        let v = crate::cpu::float::integer_of(self.cpu.fpu.st(0), rounding, bytes);
        let w = (v % 0x1_0000_0000_0000_0000) as u64;
        let s = if bytes == 2 {
            self.write16(a, (w % 0x1_0000) as u16)
        } else if bytes == 4 {
            self.write32(a, (w % 0x1_0000_0000) as u32)
        } else {
            self.write64(a, w)
        };
        if pop {
            s.with_fpu(s.cpu.fpu.popped())
        } else {
            s
        }
    }

    /// Loads and stores of numbers.
    #[verifier::opaque]
    pub open spec fn fpu_transfer(self, op: u8, reg: usize, a: u32) -> State {
        let f = self.cpu.fpu;
        let rc = (self.cpu.fpu_cw / 0x400 % 4) as u8;
        if op == 0xD9 && reg == 0 {
            let (s, v) = self.read32(a);
            s.with_fpu(s.cpu.fpu.pushed(crate::cpu::float::widened(v)))
        } else if op == 0xDD && reg == 0 {
            let (s, v) = self.read64(a);
            s.with_fpu(s.cpu.fpu.pushed(v))
        } else if op == 0xDB && reg == 5 {
            let (s, m, se) = self.read_extended(a);
            s.with_fpu(s.cpu.fpu.pushed(crate::cpu::float::double_of_extended(m, se)))
        } else if op == 0xD9 {
            let s = self.write32(a, crate::cpu::float::single_of(f.st(0)));
            if reg == 3 {
                s.with_fpu(s.cpu.fpu.popped())
            } else {
                s
            }
        } else if op == 0xDD && (reg == 2 || reg == 3) {
            let s = self.write64(a, f.st(0));
            if reg == 3 {
                s.with_fpu(s.cpu.fpu.popped())
            } else {
                s
            }
        } else if op == 0xDB && reg == 7 {
            let s = self.write_extended(a, 0);
            s.with_fpu(s.cpu.fpu.popped())
        } else if op == 0xDF && reg == 0 {
            let (s, v) = self.read16(a);
            s.with_fpu(
                s.cpu.fpu.pushed(
                    crate::cpu::float::double_of(crate::bits::signed16(v) as int),
                ),
            )
        } else if op == 0xDB && reg == 0 {
            let (s, v) = self.read32(a);
            s.with_fpu(
                s.cpu.fpu.pushed(
                    crate::cpu::float::double_of(crate::bits::signed32(v) as int),
                ),
            )
        } else if op == 0xDF && reg == 5 {
            let (s, v) = self.read64(a);
            s.with_fpu(
                s.cpu.fpu.pushed(
                    crate::cpu::float::double_of_int64(
                        if v >= SIGN64 {
                            v - 0x1_0000_0000_0000_0000
                        } else {
                            v as int
                        },
                    ),
                ),
            )
        } else if op == 0xDF && reg == 7 {
            self.store_integer(a, rc, 8, true)
        } else if op == 0xDD {
            self.store_integer(a, 3, 8, true)
        } else {
            self.store_integer(
                a,
                if reg == 1 { 3 } else { rc },
                if op == 0xDF { 2 } else { 4 },
                reg != 2,
            )
        }
    }

    /// An instruction with an operand in memory.
    #[verifier::opaque]
    pub open spec fn fpu_mem(self, op: u8, reg: usize, a: u32) -> State {
        if op == 0xD8 || op == 0xDA || op == 0xDC || op == 0xDE {
            let (s, b) = self.fpu_source(op, a);
            s.fpu_arith(reg, b)
        } else if (op == 0xD9 && (reg == 0 || reg == 2 || reg == 3)) || (op == 0xDD && reg <= 3)
            || (op == 0xDB && (reg <= 3 || reg == 5 || reg == 7)) || (op == 0xDF && (reg <= 3 || reg
            == 5 || reg == 7)) {
            self.fpu_transfer(op, reg, a)
        } else if op == 0xD9 && reg == 4 {
            self.load_env(a)
        } else if op == 0xD9 && reg == 5 {
            let (s, v) = self.read16(a);
            s.with_cpu(Cpu { fpu_cw: v, ..s.cpu })
        } else if op == 0xD9 && reg == 6 {
            let s = self.store_env(a);
            s.with_cpu(Cpu { fpu_cw: s.cpu.fpu_cw | 0x3F, ..s.cpu })
        } else if op == 0xD9 && reg == 7 {
            self.write16(a, self.cpu.fpu_cw)
        } else if op == 0xDD && reg == 4 {
            self.load_env(a).restored_from(a.wrapping_add(28), 10, 0)
        } else if op == 0xDD && reg == 6 {
            let s = self.store_env(a).save_from(a.wrapping_add(28), 10, 0);
            s.with_cpu(Cpu { fpu_cw: 0x037F, fpu: Fpu::initial(), ..s.cpu })
        } else if op == 0xDD && reg == 7 {
            self.write16(a, self.cpu.fpu.status())
        } else {
            self.trapped(TrapReason::Fpu { op, modrm: (8 * reg) as u8 })
        }
    }

    /// The instructions of `D9 E0` and above, on the top of the stack.
    #[verifier::opaque]
    pub open spec fn fpu_unary(self, reg: usize, i: usize) -> State {
        let f = self.cpu.fpu;
        let a = f.st(0);
        let b = f.st(1);
        let rc = (self.cpu.fpu_cw / 0x400 % 4) as u8;
        let here = FloatThen::SetSt { i: 0, pop: false };
        let below = FloatThen::SetSt { i: 1, pop: true };
        if reg == 4 {
            if i == 0 {
                self.with_fpu(
                    f.with_st(0, (if a >= SIGN64 { a - SIGN64 } else { a + SIGN64 }) as u64),
                )
            } else if i == 1 {
                self.with_fpu(f.with_st(0, magnitude64(a)))
            } else if i == 4 {
                self.fpu_compare(0, 0)
            } else if i == 5 {
                self.with_fpu(Fpu { cond: f.examined(), ..f })
            } else {
                self.trapped(TrapReason::Fpu { op: 0xD9, modrm: (0xE0 + i) as u8 })
            }
        } else if reg == 5 {
            if i == 7 {
                self.trapped(TrapReason::Fpu { op: 0xD9, modrm: 0xEF })
            } else {
                self.with_fpu(f.pushed(constant(i)))
            }
        } else if reg == 6 {
            if i == 0 {
                self.float_asked(FloatOp::PowerOfTwoLess1, a as u128, 0, here)
            } else if i == 1 {
                self.float_asked(FloatOp::TimesLog2, a as u128, b as u128, below)
            } else if i == 2 {
                self.float_asked(FloatOp::Tangent, a as u128, 0, FloatThen::SetPushOne)
            } else if i == 3 {
                self.float_asked(FloatOp::ArcTangent, a as u128, b as u128, below)
            } else if i == 4 {
                self.float_asked(
                    FloatOp::Extract,
                    a as u128,
                    0,
                    FloatThen::SetPush { clears_c2: false },
                )
            } else if i == 5 {
                self.float_asked(
                    FloatOp::NearestRemainder,
                    a as u128,
                    b as u128,
                    FloatThen::SetClearC2,
                )
            } else {
                self.with_fpu(
                    Fpu {
                        top: ((f.top % 8 + (if i == 6 { 7int } else { 1int })) % 8) as u8,
                        ..f
                    },
                )
            }
        } else {
            if i == 0 {
                self.float_asked(
                    FloatOp::Remainder,
                    a as u128,
                    b as u128,
                    FloatThen::SetQuotient,
                )
            } else if i == 1 {
                self.float_asked(FloatOp::TimesLog2Plus1, a as u128, b as u128, below)
            } else if i == 2 {
                self.float_asked(FloatOp::Double(Arith::Sqrt), a as u128, a as u128, here)
            } else if i == 3 {
                self.float_asked(
                    FloatOp::SineCosine,
                    a as u128,
                    0,
                    FloatThen::SetPush { clears_c2: true },
                )
            } else if i == 4 {
                self.with_fpu(f.with_st(0, crate::cpu::float::integral(a, rc)))
            } else if i == 5 {
                self.with_fpu(
                    f.with_st(
                        0,
                        crate::cpu::float::scaled(a, crate::cpu::float::scale_exponent(b)),
                    ),
                )
            } else {
                self.float_asked(
                    if i == 6 { FloatOp::Sine } else { FloatOp::Cosine },
                    a as u128,
                    0,
                    FloatThen::SetClearC2,
                )
            }
        }
    }

    /// Condition of the conditional moves: below, equal, below or equal, unordered.
    pub open spec fn fcmov_condition(self, reg: usize) -> bool {
        if reg == 0 {
            self.cpu.flag(CF)
        } else if reg == 1 {
            self.cpu.flag(ZF)
        } else if reg == 2 {
            self.cpu.flag(CF) || self.cpu.flag(ZF)
        } else {
            self.cpu.flag(PF)
        }
    }

    /// A comparison with stack register `i` into the processor flags.
    pub open spec fn fpu_compare_flags(self, i: usize, pop: bool) -> State {
        let f = self.cpu.fpu;
        let s = self.with_cpu(
            self.cpu.with_eflags(
                self.cpu.order_flags(crate::cpu::float::order_of64(f.st(0), f.st(i))),
            ),
        );
        if pop {
            s.with_fpu(f.popped())
        } else {
            s
        }
    }

    /// An instruction on stack registers.
    #[verifier::opaque]
    pub open spec fn fpu_reg(self, op: u8, reg: usize, i: usize) -> State {
        let f = self.cpu.fpu;
        let a = f.st(0);
        let b = f.st(i);
        if op == 0xD8 {
            self.fpu_arith(reg, b)
        } else if op == 0xD9 && reg == 0 {
            self.with_fpu(f.pushed(b))
        } else if (op == 0xD9 || op == 0xDD) && reg == 1 {
            self.with_fpu(f.with_st(0, b).with_st(i, a))
        } else if op == 0xD9 && reg == 2 && i == 0 {
            self
        } else if (op == 0xD9 || op == 0xDD) && reg == 3 {
            self.with_fpu(f.with_st(i, a).popped())
        } else if op == 0xD9 && reg >= 4 {
            self.fpu_unary(reg, i)
        } else if op == 0xDA && reg <= 3 {
            if self.fcmov_condition(reg) {
                self.with_fpu(f.with_st(0, b))
            } else {
                self
            }
        } else if op == 0xDB && reg <= 3 {
            if !self.fcmov_condition(reg) {
                self.with_fpu(f.with_st(0, b))
            } else {
                self
            }
        } else if (op == 0xDA && reg == 5 && i == 1) || (op == 0xDE && reg == 3 && i == 1) {
            self.fpu_compare(b, 2)
        } else if op == 0xDB && reg == 4 && i <= 4 {
            if i == 3 {
                self.with_cpu(Cpu { fpu_cw: 0x037F, fpu: Fpu::initial(), ..self.cpu })
            } else {
                self
            }
        } else if (op == 0xDB || op == 0xDF) && (reg == 5 || reg == 6) {
            self.fpu_compare_flags(i, op == 0xDF)
        } else if op == 0xDC {
            if reg == 2 || reg == 3 {
                self.fpu_compare(b, if reg == 3 { 1 } else { 0 })
            } else {
                self.fpu_arith_to(reg, i, false)
            }
        } else if op == 0xDE {
            if reg == 2 {
                self.fpu_compare(b, 1)
            } else {
                self.fpu_arith_to(reg, i, true)
            }
        } else if op == 0xDD && reg == 0 {
            self.with_fpu(f.marked(f.phys(i), false))
        } else if op == 0xDD && reg == 2 {
            self.with_fpu(f.with_st(i, a))
        } else if op == 0xDD && (reg == 4 || reg == 5) {
            self.fpu_compare(b, if reg == 5 { 1 } else { 0 })
        } else if op == 0xDF && reg == 4 && i == 0 {
            self.with_cpu(self.cpu.with_reg16(AX, f.status()))
        } else if op == 0xDF && reg == 0 {
            self.with_fpu(f.marked(f.phys(i), false).popped())
        } else {
            self.trapped(TrapReason::Fpu { op, modrm: (0xC0 + 8 * reg + i) as u8 })
        }
    }

    /// An FPU instruction, its operand resolved.
    #[verifier::opaque]
    pub open spec fn fpu_exec(self, op: u8, reg: usize, rm: Operand) -> State {
        match rm {
            Operand::Mem { addr, .. } => self.fpu_mem(op, reg, addr),
            Operand::Reg(i) => self.fpu_reg(op, reg, i),
        }
    }

    /// The conditions that tell three bits of a quotient.
    pub open spec fn quotient_conditions(cond: u16, q: u64) -> u16 {
        let c1 = (cond & !0x4700u16) | (if q % 2 == 1 { C1 } else { 0u16 });
        let c3 = c1 | (if q / 2 % 2 == 1 { C3 } else { 0u16 });
        c3 | (if q / 4 % 2 == 1 { C0 } else { 0u16 })
    }

    /// The machine after the floating-point unit gave its results.
    #[verifier::opaque]
    pub open spec fn float_completed(self, r: u128, second: u64) -> State {
        let f = self.cpu.fpu;
        let low = (r % 0x1_0000_0000_0000_0000) as u64;
        match self.float_request {
            None => self,
            Some(q) => {
                let s = State { float_request: None, ..self };
                match q.target {
                    FloatThen::SetSt { i, pop } => {
                        let g = f.with_st((i % 8) as usize, low);
                        s.with_fpu(if pop { g.popped() } else { g })
                    },
                    FloatThen::SetPush { clears_c2 } => {
                        let g = f.with_st(0, low).pushed(second);
                        s.with_fpu(if clears_c2 { Fpu { cond: g.cond & !C2, ..g } } else { g })
                    },
                    FloatThen::SetPushOne => {
                        let g = f.with_st(0, low).pushed(constant(0));
                        s.with_fpu(Fpu { cond: g.cond & !C2, ..g })
                    },
                    FloatThen::SetClearC2 => {
                        let g = f.with_st(0, low);
                        s.with_fpu(Fpu { cond: g.cond & !C2, ..g })
                    },
                    FloatThen::SetQuotient => {
                        let g = f.with_st(0, low);
                        s.with_fpu(Fpu { cond: State::quotient_conditions(g.cond, second), ..g })
                    },
                    FloatThen::Xmm { reg } => s.with_cpu(s.cpu.with_xmm((reg % 8) as usize, r)),
                    FloatThen::XmmLow32 { reg } => s.with_cpu(
                        s.cpu.with_xmm_low32((reg % 8) as usize, low as u32),
                    ),
                    FloatThen::XmmLow64 { reg } => s.with_cpu(
                        s.cpu.with_xmm_low64((reg % 8) as usize, low),
                    ),
                }
            },
        }
    }
}

impl Cpu {
    pub open spec fn with_xmm(self, r: usize, v: u128) -> Cpu {
        Cpu { xmm: vstd::array::spec_array_update(self.xmm, r as int, v), ..self }
    }

    /// The low doubleword replaced.
    pub open spec fn with_xmm_low32(self, r: usize, v: u32) -> Cpu {
        self.with_xmm(
            r,
            (self.xmm[r as int] / 0x1_0000_0000 * 0x1_0000_0000 + v) as u128,
        )
    }

    /// The low half replaced.
    pub open spec fn with_xmm_low64(self, r: usize, v: u64) -> Cpu {
        self.with_xmm(
            r,
            (self.xmm[r as int] / 0x1_0000_0000_0000_0000 * 0x1_0000_0000_0000_0000 + v) as u128,
        )
    }

    pub fn set_xmm_low32(&mut self, r: usize, v: u32)
        requires
            r < 8,
        ensures
            *final(self) == old(self).with_xmm_low32(r, v),
    {
        self.xmm[r] = self.xmm[r] / 0x1_0000_0000 * 0x1_0000_0000 + v as u128;
    }

    pub fn set_xmm_low64(&mut self, r: usize, v: u64)
        requires
            r < 8,
        ensures
            *final(self) == old(self).with_xmm_low64(r, v),
    {
        self.xmm[r] = self.xmm[r] / 0x1_0000_0000_0000_0000 * 0x1_0000_0000_0000_0000 + v as u128;
    }
}

/// Leaves a request for the floating-point unit.
pub fn ask(m: &mut Machine, op: FloatOp, a: u128, b: u128, target: FloatThen)
    ensures
        final(m)@ == old(m)@.float_asked(op, a, b, target),
{
    m.float_request = Some(FloatRequest { op, a, b, target });
}

pub fn read64(m: &mut Machine, a: u32) -> (v: u64)
    ensures
        (final(m)@, v) == old(m)@.read64(a),
{
    proof {
        reveal(State::read64);
    }
    let lo: u32 = m.read32(a);
    let hi: u32 = m.read32(a.wrapping_add(4));
    lo as u64 + 0x1_0000_0000 * hi as u64
}

pub fn write64(m: &mut Machine, a: u32, v: u64)
    ensures
        final(m)@ == old(m)@.write64(a, v),
{
    proof {
        reveal(State::write64);
    }
    m.write32(a, (v % 0x1_0000_0000) as u32);
    m.write32(a.wrapping_add(4), (v / 0x1_0000_0000) as u32);
}

fn write_extended(m: &mut Machine, a: u32, i: usize)
    requires
        i < 8,
    ensures
        final(m)@ == old(m)@.write_extended(a, i),
{
    proof {
        reveal(State::write_extended);
    }
    let p = m.cpu.fpu.to_extended(m.cpu.fpu.phys(i));
    write64(m, a, p.0);
    m.write16(a.wrapping_add(8), p.1);
}

fn read_extended(m: &mut Machine, a: u32) -> (r: (u64, u16))
    ensures
        (final(m)@, r.0, r.1) == old(m)@.read_extended(a),
{
    proof {
        reveal(State::read_extended);
    }
    let mant: u64 = read64(m, a);
    let se: u16 = m.read16(a.wrapping_add(8));
    (mant, se)
}

fn store_env(m: &mut Machine, a: u32)
    ensures
        final(m)@ == old(m)@.store_env(a),
{
    proof {
        reveal(State::store_env);
    }
    let cw: u32 = m.cpu.fpu_cw as u32;
    let sw: u32 = m.cpu.fpu.status() as u32;
    let tag: u32 = m.cpu.fpu.tag_word() as u32;
    m.write32(a, cw);
    m.write32(a.wrapping_add(4), sw);
    m.write32(a.wrapping_add(8), tag);
    m.write32(a.wrapping_add(12), 0);
    m.write32(a.wrapping_add(16), 0);
    m.write32(a.wrapping_add(20), 0);
    m.write32(a.wrapping_add(24), 0);
}

fn load_env(m: &mut Machine, a: u32)
    ensures
        final(m)@ == old(m)@.load_env(a),
{
    proof {
        reveal(State::load_env);
    }
    let cw: u32 = m.read32(a);
    let sw: u16 = m.read32(a.wrapping_add(4)) as u16;
    let tag: u16 = m.read32(a.wrapping_add(8)) as u16;
    m.cpu.fpu_cw = cw as u16;
    m.cpu.fpu.top = ((sw >> 11) & 7) as u8;
    m.cpu.fpu.cond = sw & 0x4700;
    m.cpu.fpu.load_tag_word(tag);
}

/// Writes all stack registers, `step` bytes apart.
pub fn save_all(m: &mut Machine, a: u32, step: u32)
    requires
        step <= 16,
    ensures
        final(m)@ == old(m)@.save_from(a, step, 0),
{
    let mut k: usize = 0;
    while k < 8
        invariant
            k <= 8,
            step <= 16,
            m@.save_from(a, step, k as nat) == old(m)@.save_from(a, step, 0),
        decreases 8 - k,
    {
        proof {
            reveal_with_fuel(State::save_from, 2);
        }
        assert(0 <= step * k <= 128) by (nonlinear_arith)
            requires
                step <= 16,
                k <= 8,
        ;
        write_extended(m, a.wrapping_add(step * k as u32), k);
        k = k + 1;
    }
    proof {
        reveal_with_fuel(State::save_from, 2);
    }
}

/// Loads all stack registers, `step` bytes apart.
pub fn restore_all(m: &mut Machine, a: u32, step: u32)
    requires
        step <= 16,
    ensures
        final(m)@ == old(m)@.restored_from(a, step, 0),
{
    let mut k: usize = 0;
    while k < 8
        invariant
            k <= 8,
            step <= 16,
            m@.restored_from(a, step, k as nat) == old(m)@.restored_from(a, step, 0),
        decreases 8 - k,
    {
        proof {
            reveal_with_fuel(State::restored_from, 2);
        }
        assert(0 <= step * k <= 128) by (nonlinear_arith)
            requires
                step <= 16,
                k <= 8,
        ;
        let r = read_extended(m, a.wrapping_add(step * k as u32));
        let p: usize = m.cpu.fpu.phys(k);
        if r.1 == 0xFFFF {
            m.cpu.fpu.set_mm(p, r.0);
        } else {
            m.cpu.fpu.set_phys(p, f80_to_f64(r.0, r.1));
        }
        k = k + 1;
    }
    proof {
        reveal_with_fuel(State::restored_from, 2);
    }
}

fn fpu_compare(m: &mut Machine, b: u64, pops: u8)
    ensures
        final(m)@ == old(m)@.fpu_compare(b, pops as nat),
{
    let order = order64(m.cpu.fpu.st(0), b);
    m.cpu.fpu.cond = compared(m.cpu.fpu.cond, order);
    if pops > 0 {
        m.cpu.fpu.pop();
    }
    if pops > 1 {
        m.cpu.fpu.pop();
    }
}

fn fpu_arith(m: &mut Machine, slot: usize, b: u64)
    ensures
        final(m)@ == old(m)@.fpu_arith(slot, b),
{
    proof {
        reveal(State::fpu_arith);
    }
    if slot == 2 || slot == 3 {
        fpu_compare(
            m,
            b,
            if slot == 3 {
                1
            } else {
                0
            },
        );
    } else {
        let p = arith_of(slot, m.cpu.fpu.st(0), b, false);
        ask(
            m,
            FloatOp::Double(p.0),
            p.1 as u128,
            p.2 as u128,
            FloatThen::SetSt { i: 0, pop: false },
        );
    }
}

fn fpu_arith_to(m: &mut Machine, slot: usize, i: usize, pop: bool)
    requires
        i < 8,
    ensures
        final(m)@ == old(m)@.fpu_arith_to(slot, i, pop),
{
    proof {
        reveal(State::fpu_arith_to);
    }
    let p = arith_of(slot, m.cpu.fpu.st(0), m.cpu.fpu.st(i), true);
    ask(m, FloatOp::Double(p.0), p.1 as u128, p.2 as u128, FloatThen::SetSt { i, pop });
}

fn fpu_source(m: &mut Machine, op: u8, a: u32) -> (v: u64)
    ensures
        (final(m)@, v) == old(m)@.fpu_source(op, a),
{
    proof {
        reveal(State::fpu_source);
    }
    if op == 0xD8 {
        widen(m.read32(a))
    } else if op == 0xDA {
        double_of_int(crate::bits::signed32(m.read32(a)))
    } else if op == 0xDC {
        read64(m, a)
    } else {
        double_of_int(crate::bits::signed16(m.read16(a)))
    }
}

fn store_integer(m: &mut Machine, a: u32, rounding: u8, bytes: u8, pop: bool)
    ensures
        final(m)@ == old(m)@.store_integer(a, rounding, bytes, pop),
{
    proof {
        reveal(State::store_integer);
    }
    let v: i128 = to_int(m.cpu.fpu.st(0), rounding, bytes);
    let w: u64 = if v < 0 {
        (v + 0x1_0000_0000_0000_0000) as u64
    } else {
        v as u64
    };
    if bytes == 2 {
        m.write16(a, (w % 0x1_0000) as u16);
    } else if bytes == 4 {
        m.write32(a, (w % 0x1_0000_0000) as u32);
    } else {
        write64(m, a, w);
    }
    if pop {
        m.cpu.fpu.pop();
    }
}

fn fpu_transfer(m: &mut Machine, op: u8, reg: usize, a: u32)
    ensures
        final(m)@ == old(m)@.fpu_transfer(op, reg, a),
{
    proof {
        reveal(State::fpu_transfer);
    }
    let rc: u8 = (m.cpu.fpu_cw / 0x400 % 4) as u8;
    if op == 0xD9 && reg == 0 {
        let v: u64 = widen(m.read32(a));
        m.cpu.fpu.push(v);
    } else if op == 0xDD && reg == 0 {
        let v: u64 = read64(m, a);
        m.cpu.fpu.push(v);
    } else if op == 0xDB && reg == 5 {
        let r = read_extended(m, a);
        m.cpu.fpu.push(f80_to_f64(r.0, r.1));
    } else if op == 0xD9 {
        let v: u32 = narrow_double(m.cpu.fpu.st(0));
        m.write32(a, v);
        if reg == 3 {
            m.cpu.fpu.pop();
        }
    } else if op == 0xDD && (reg == 2 || reg == 3) {
        let v: u64 = m.cpu.fpu.st(0);
        write64(m, a, v);
        if reg == 3 {
            m.cpu.fpu.pop();
        }
    } else if op == 0xDB && reg == 7 {
        write_extended(m, a, 0);
        m.cpu.fpu.pop();
    } else if op == 0xDF && reg == 0 {
        let v: u64 = double_of_int(crate::bits::signed16(m.read16(a)));
        m.cpu.fpu.push(v);
    } else if op == 0xDB && reg == 0 {
        let v: u64 = double_of_int(crate::bits::signed32(m.read32(a)));
        m.cpu.fpu.push(v);
    } else if op == 0xDF && reg == 5 {
        let v: u64 = read64(m, a);
        let i: i64 = if v >= SIGN64 {
            (v as i128 - 0x1_0000_0000_0000_0000) as i64
        } else {
            v as i64
        };
        m.cpu.fpu.push(int64_to_double(i));
    } else if op == 0xDF && reg == 7 {
        store_integer(m, a, rc, 8, true);
    } else if op == 0xDD {
        store_integer(m, a, 3, 8, true);
    } else {
        let rounding: u8 = if reg == 1 {
            3
        } else {
            rc
        };
        let bytes: u8 = if op == 0xDF {
            2
        } else {
            4
        };
        store_integer(m, a, rounding, bytes, reg != 2);
    }
}

fn exec_mem(m: &mut Machine, op: u8, reg: usize, a: u32)
    requires
        reg < 8,
    ensures
        final(m)@ == old(m)@.fpu_mem(op, reg, a),
{
    proof {
        reveal(State::fpu_mem);
    }
    if op == 0xD8 || op == 0xDA || op == 0xDC || op == 0xDE {
        let b: u64 = fpu_source(m, op, a);
        fpu_arith(m, reg, b);
    } else if (op == 0xD9 && (reg == 0 || reg == 2 || reg == 3)) || (op == 0xDD && reg <= 3) || (op
        == 0xDB && (reg <= 3 || reg == 5 || reg == 7)) || (op == 0xDF && (reg <= 3 || reg == 5
        || reg == 7)) {
        fpu_transfer(m, op, reg, a);
    } else if op == 0xD9 && reg == 4 {
        load_env(m, a);
    } else if op == 0xD9 && reg == 5 {
        let v: u16 = m.read16(a);
        m.cpu.fpu_cw = v;
    } else if op == 0xD9 && reg == 6 {
        store_env(m, a);
        m.cpu.fpu_cw = m.cpu.fpu_cw | 0x3F;
    } else if op == 0xD9 && reg == 7 {
        let v: u16 = m.cpu.fpu_cw;
        m.write16(a, v);
    } else if op == 0xDD && reg == 4 {
        load_env(m, a);
        restore_all(m, a.wrapping_add(28), 10);
    } else if op == 0xDD && reg == 6 {
        store_env(m, a);
        save_all(m, a.wrapping_add(28), 10);
        m.cpu.fpu.reset();
        m.cpu.fpu_cw = 0x037F;
    } else if op == 0xDD && reg == 7 {
        let v: u16 = m.cpu.fpu.status();
        m.write16(a, v);
    } else {
        m.trap(TrapReason::Fpu { op, modrm: (8 * reg) as u8 });
    }
}

fn exec_unary(m: &mut Machine, reg: usize, i: usize)
    requires
        4 <= reg < 8,
        i < 8,
    ensures
        final(m)@ == old(m)@.fpu_unary(reg, i),
{
    proof {
        reveal(State::fpu_unary);
    }
    let a: u64 = m.cpu.fpu.st(0);
    let b: u64 = m.cpu.fpu.st(1);
    let rc: u8 = (m.cpu.fpu_cw / 0x400 % 4) as u8;
    let here = FloatThen::SetSt { i: 0, pop: false };
    let below = FloatThen::SetSt { i: 1, pop: true };
    if reg == 4 {
        if i == 0 {
            let v: u64 = if a >= SIGN64 {
                a - SIGN64
            } else {
                a + SIGN64
            };
            m.cpu.fpu.set_st(0, v);
        } else if i == 1 {
            m.cpu.fpu.set_st(0, magnitude64(a));
        } else if i == 4 {
            fpu_compare(m, 0, 0);
        } else if i == 5 {
            m.cpu.fpu.examine();
        } else {
            m.trap(TrapReason::Fpu { op: 0xD9, modrm: (0xE0 + i) as u8 });
        }
    } else if reg == 5 {
        if i == 7 {
            m.trap(TrapReason::Fpu { op: 0xD9, modrm: 0xEF });
        } else {
            m.cpu.fpu.push(constant(i));
        }
    } else if reg == 6 {
        if i == 0 {
            ask(m, FloatOp::PowerOfTwoLess1, a as u128, 0, here);
        } else if i == 1 {
            ask(m, FloatOp::TimesLog2, a as u128, b as u128, below);
        } else if i == 2 {
            ask(m, FloatOp::Tangent, a as u128, 0, FloatThen::SetPushOne);
        } else if i == 3 {
            ask(m, FloatOp::ArcTangent, a as u128, b as u128, below);
        } else if i == 4 {
            ask(m, FloatOp::Extract, a as u128, 0, FloatThen::SetPush { clears_c2: false });
        } else if i == 5 {
            ask(m, FloatOp::NearestRemainder, a as u128, b as u128, FloatThen::SetClearC2);
        } else {
            let d: u8 = if i == 6 {
                7
            } else {
                1
            };
            m.cpu.fpu.top = (m.cpu.fpu.top % 8 + d) % 8;
        }
    } else {
        if i == 0 {
            ask(m, FloatOp::Remainder, a as u128, b as u128, FloatThen::SetQuotient);
        } else if i == 1 {
            ask(m, FloatOp::TimesLog2Plus1, a as u128, b as u128, below);
        } else if i == 2 {
            ask(m, FloatOp::Double(Arith::Sqrt), a as u128, a as u128, here);
        } else if i == 3 {
            ask(m, FloatOp::SineCosine, a as u128, 0, FloatThen::SetPush { clears_c2: true });
        } else if i == 4 {
            m.cpu.fpu.set_st(0, round_integral(a, rc));
        } else if i == 5 {
            m.cpu.fpu.set_st(0, scale2(a, exponent_for_scale(b)));
        } else {
            let op = if i == 6 {
                FloatOp::Sine
            } else {
                FloatOp::Cosine
            };
            ask(m, op, a as u128, 0, FloatThen::SetClearC2);
        }
    }
}

fn fcmov_condition(m: &Machine, reg: usize) -> (r: bool)
    ensures
        r == m@.fcmov_condition(reg),
{
    if reg == 0 {
        m.cpu.flag(CF)
    } else if reg == 1 {
        m.cpu.flag(ZF)
    } else if reg == 2 {
        m.cpu.flag(CF) || m.cpu.flag(ZF)
    } else {
        m.cpu.flag(PF)
    }
}

fn fpu_compare_flags(m: &mut Machine, i: usize, pop: bool)
    requires
        i < 8,
    ensures
        final(m)@ == old(m)@.fpu_compare_flags(i, pop),
{
    let order = order64(m.cpu.fpu.st(0), m.cpu.fpu.st(i));
    set_order_flags(&mut m.cpu, order);
    if pop {
        m.cpu.fpu.pop();
    }
}

fn exec_reg(m: &mut Machine, op: u8, reg: usize, i: usize)
    requires
        reg < 8,
        i < 8,
    ensures
        final(m)@ == old(m)@.fpu_reg(op, reg, i),
{
    proof {
        reveal(State::fpu_reg);
    }
    let a: u64 = m.cpu.fpu.st(0);
    let b: u64 = m.cpu.fpu.st(i);
    if op == 0xD8 {
        fpu_arith(m, reg, b);
    } else if op == 0xD9 && reg == 0 {
        m.cpu.fpu.push(b);
    } else if (op == 0xD9 || op == 0xDD) && reg == 1 {
        m.cpu.fpu.set_st(0, b);
        m.cpu.fpu.set_st(i, a);
    } else if op == 0xD9 && reg == 2 && i == 0 {
    } else if (op == 0xD9 || op == 0xDD) && reg == 3 {
        m.cpu.fpu.set_st(i, a);
        m.cpu.fpu.pop();
    } else if op == 0xD9 && reg >= 4 {
        exec_unary(m, reg, i);
    } else if op == 0xDA && reg <= 3 {
        if fcmov_condition(m, reg) {
            m.cpu.fpu.set_st(0, b);
        }
    } else if op == 0xDB && reg <= 3 {
        if !fcmov_condition(m, reg) {
            m.cpu.fpu.set_st(0, b);
        }
    } else if (op == 0xDA && reg == 5 && i == 1) || (op == 0xDE && reg == 3 && i == 1) {
        fpu_compare(m, b, 2);
    } else if op == 0xDB && reg == 4 && i <= 4 {
        if i == 3 {
            m.cpu.fpu.reset();
            m.cpu.fpu_cw = 0x037F;
        }
    } else if (op == 0xDB || op == 0xDF) && (reg == 5 || reg == 6) {
        fpu_compare_flags(m, i, op == 0xDF);
    } else if op == 0xDC {
        if reg == 2 || reg == 3 {
            fpu_compare(
                m,
                b,
                if reg == 3 {
                    1
                } else {
                    0
                },
            );
        } else {
            fpu_arith_to(m, reg, i, false);
        }
    } else if op == 0xDE {
        if reg == 2 {
            fpu_compare(m, b, 1);
        } else {
            fpu_arith_to(m, reg, i, true);
        }
    } else if op == 0xDD && reg == 0 {
        let p: usize = m.cpu.fpu.phys(i);
        m.cpu.fpu.mark(p, false);
    } else if op == 0xDD && reg == 2 {
        m.cpu.fpu.set_st(i, a);
    } else if op == 0xDD && (reg == 4 || reg == 5) {
        fpu_compare(
            m,
            b,
            if reg == 5 {
                1
            } else {
                0
            },
        );
    } else if op == 0xDF && reg == 4 && i == 0 {
        let sw: u16 = m.cpu.fpu.status();
        m.cpu.set_reg16(AX, sw);
    } else if op == 0xDF && reg == 0 {
        let p: usize = m.cpu.fpu.phys(i);
        m.cpu.fpu.mark(p, false);
        m.cpu.fpu.pop();
    } else {
        m.trap(TrapReason::Fpu { op, modrm: (0xC0 + 8 * reg + i) as u8 });
    }
}

/// Executes an FPU instruction whose ModRM byte has been read.
pub fn exec(m: &mut Machine, op: u8, reg: usize, rm: &Operand)
    requires
        reg < 8,
        rm.wf(),
    ensures
        final(m)@ == old(m)@.fpu_exec(op, reg, *rm),
{
    proof {
        reveal(State::fpu_exec);
    }
    match *rm {
        Operand::Mem { addr, .. } => exec_mem(m, op, reg, addr),
        Operand::Reg(i) => exec_reg(m, op, reg, i),
    }
}

fn quotient_conditions(cond: u16, q: u64) -> (r: u16)
    ensures
        r == State::quotient_conditions(cond, q),
{
    let c1: u16 = (cond & !0x4700u16) | (if q % 2 == 1 {
        C1
    } else {
        0
    });
    let c3: u16 = c1 | (if q / 2 % 2 == 1 {
        C3
    } else {
        0
    });
    c3 | (if q / 4 % 2 == 1 {
        C0
    } else {
        0
    })
}

/// Takes the results of the floating-point unit for the request that the last
/// instruction left, and finishes the instruction.
pub fn complete_float(m: &mut Machine, r: u128, second: u64)
    ensures
        final(m)@ == old(m)@.float_completed(r, second),
{
    proof {
        reveal(State::float_completed);
    }
    let low: u64 = (r % 0x1_0000_0000_0000_0000) as u64;
    let q = match m.float_request {
        None => {
            return;
        },
        Some(q) => q,
    };
    m.float_request = None;
    match q.target {
        FloatThen::SetSt { i, pop } => {
            m.cpu.fpu.set_st(i % 8, low);
            if pop {
                m.cpu.fpu.pop();
            }
        },
        FloatThen::SetPush { clears_c2 } => {
            m.cpu.fpu.set_st(0, low);
            m.cpu.fpu.push(second);
            if clears_c2 {
                m.cpu.fpu.cond = m.cpu.fpu.cond & !C2;
            }
        },
        FloatThen::SetPushOne => {
            m.cpu.fpu.set_st(0, low);
            m.cpu.fpu.push(constant(0));
            m.cpu.fpu.cond = m.cpu.fpu.cond & !C2;
        },
        FloatThen::SetClearC2 => {
            m.cpu.fpu.set_st(0, low);
            m.cpu.fpu.cond = m.cpu.fpu.cond & !C2;
        },
        FloatThen::SetQuotient => {
            m.cpu.fpu.set_st(0, low);
            m.cpu.fpu.cond = quotient_conditions(m.cpu.fpu.cond, second);
        },
        FloatThen::Xmm { reg } => {
            m.cpu.xmm[reg % 8] = r;
        },
        FloatThen::XmmLow32 { reg } => m.cpu.set_xmm_low32(reg % 8, low as u32),
        FloatThen::XmmLow64 { reg } => m.cpu.set_xmm_low64(reg % 8, low),
    }
}

} // verus!
