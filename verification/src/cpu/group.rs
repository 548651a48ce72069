//! Opcodes whose ModRM register field chooses the operation.

use vstd::prelude::*;
use crate::bits::{high_w, low16, low8, low_w, magnitude, signed16, signed8, signed_w};
use crate::cpu::alu::{alu8, alu_w, inc_dec8, inc_dec_w, narrow, width};
use crate::cpu::interrupt::divide_error;
use crate::cpu::operand::{
    fetch8, fetch_w, modrm, push_w, read_op8, read_op_w, write_op8, write_op_w, Decoder, Operand,
};
use crate::cpu::segment::{far_call, load_seg};
use crate::cpu::shift::shift_rot;
use crate::cpu::state::{Cpu, AX, CF, CS, DX, OF};
use crate::machine::{Machine, State, TrapReason};

verus! {

impl Cpu {
    /// Carry and overflow together, as multiplications write them.
    pub open spec fn with_cf_of(self, on: bool) -> Cpu {
        self.with_flag(CF, on).with_flag(OF, on)
    }

    /// MUL and IMUL of bytes: the product in AX, and whether AH is needed.
    #[verifier::opaque]
    pub open spec fn after_mul8(self, a: u8, signed: bool) -> Cpu {
        if signed {
            let p = signed8(self.reg8(0)) * signed8(a);
            self.with_reg16(AX, low16(p as i64)).with_cf_of(!(-0x80 <= p < 0x80))
        } else {
            let p = self.reg8(0) * a;
            self.with_reg16(AX, p as u16).with_cf_of(p >= 0x100)
        }
    }

    /// MUL and IMUL of words: the product in DX and AX, and whether DX is needed.
    #[verifier::opaque]
    pub open spec fn after_mul_w(self, a: u32, signed: bool, wide: bool) -> Cpu {
        let top: int = if wide { 0x1_0000_0000 } else { 0x1_0000 };
        if signed {
            let p = signed_w(self.reg_w(AX, wide), wide) * signed_w(a, wide);
            self.with_reg_w(AX, low_w(p as i64, wide), wide).with_reg_w(
                DX,
                high_w(p as i64, wide),
                wide,
            ).with_cf_of(!(-top <= 2 * p < top))
        } else {
            let p = self.reg_w(AX, wide) * a;
            self.with_reg_w(AX, (p % top) as u32, wide).with_reg_w(
                DX,
                (p / top) as u32,
                wide,
            ).with_cf_of(p >= top)
        }
    }

    /// DIV and IDIV of AX by a byte: quotient in AL and remainder in AH. None when
    /// the divisor is zero or the quotient does not fit.
    #[verifier::opaque]
    pub open spec fn after_div8(self, a: u8, signed: bool) -> Option<Cpu> {
        if signed {
            let n = signed16(self.reg16(AX)) as int;
            let b = signed8(a) as int;
            let q = crate::bits::quotient(n, b);
            if b == 0 || !(-0x80 <= q < 0x80) {
                None
            } else {
                Some(
                    self.with_reg8(0, low8(q as i64)).with_reg8(
                        4,
                        low8(crate::bits::remainder(n, b) as i64),
                    ),
                )
            }
        } else {
            let n = self.reg16(AX) as int;
            if a == 0 || n / (a as int) > 0xFF {
                None
            } else {
                Some(
                    self.with_reg8(0, (n / (a as int)) as u8).with_reg8(4, (n % (a as int)) as u8),
                )
            }
        }
    }

    /// The number in DX and AX.
    pub open spec fn double_ax(self, wide: bool) -> int {
        if wide {
            self.reg32(DX) * 0x1_0000_0000 + self.reg32(AX)
        } else {
            self.reg16(DX) * 0x1_0000 + self.reg16(AX)
        }
    }

    /// The signed number in DX and AX.
    pub open spec fn signed_double_ax(self, wide: bool) -> int {
        let n = self.double_ax(wide);
        let top: int = if wide { 0x1_0000_0000_0000_0000 } else { 0x1_0000_0000 };
        if 2 * n >= top {
            n - top
        } else {
            n
        }
    }

    /// DIV and IDIV of DX and AX: quotient in AX and remainder in DX.
    #[verifier::opaque]
    pub open spec fn after_div_w(self, a: u32, signed: bool, wide: bool) -> Option<Cpu> {
        let top: int = if wide { 0x1_0000_0000 } else { 0x1_0000 };
        if signed {
            let n = self.signed_double_ax(wide);
            let b = signed_w(a, wide) as int;
            let q = crate::bits::quotient(n, b);
            if b == 0 || !(-top <= 2 * q < top) {
                None
            } else {
                Some(
                    self.with_reg_w(AX, low_w(q as i64, wide), wide).with_reg_w(
                        DX,
                        low_w(crate::bits::remainder(n, b) as i64, wide),
                        wide,
                    ),
                )
            }
        } else {
            let n = self.double_ax(wide);
            if a == 0 || n / (a as int) >= top {
                None
            } else {
                Some(
                    self.with_reg_w(AX, (n / (a as int)) as u32, wide).with_reg_w(
                        DX,
                        (n % (a as int)) as u32,
                        wide,
                    ),
                )
            }
        }
    }
}

impl State {
    /// Shifts and rotates by an immediate, by one or by CL.
    #[verifier::opaque]
    pub open spec fn grp2(self, d: Decoder, op: u8) -> State {
        let (s1, kind, rm) = self.modrm(d);
        let (s2, count) = if op == 0xC0 || op == 0xC1 {
            s1.fetch8()
        } else if op == 0xD0 || op == 0xD1 {
            (s1, 1u8)
        } else {
            (s1, s1.cpu.reg8(1))
        };
        if op % 2 == 0 {
            let (s3, a) = s2.read_op8(rm);
            let r = crate::cpu::shift::shift_value(s3.cpu, kind as u8, a as u32, count, 8);
            s3.with_cpu(s3.cpu.after_shift(kind as u8, a as u32, count, 8)).write_op8(rm, r as u8)
        } else {
            let w: u32 = if d.opsize32 { 32 } else { 16 };
            let (s3, a) = s2.read_op_w(rm, d.opsize32);
            let r = crate::cpu::shift::shift_value(s3.cpu, kind as u8, a, count, w);
            s3.with_cpu(s3.cpu.after_shift(kind as u8, a, count, w)).write_op_w(
                rm,
                r as u32,
                d.opsize32,
            )
        }
    }

    /// TEST, NOT, NEG, MUL, IMUL, DIV and IDIV of a byte.
    #[verifier::opaque]
    pub open spec fn grp3_byte(self, d: Decoder, start_ip: u32) -> Option<State> {
        let (s1, kind, rm) = self.modrm(d);
        let (s2, a) = s1.read_op8(rm);
        if kind == 0 || kind == 1 {
            let (s3, b) = s2.fetch8();
            Some(s3.with_cpu(s3.cpu.after_alu(4, a as u32, b as u32, 0)))
        } else if kind == 2 {
            Some(s2.write_op8(rm, !a))
        } else if kind == 3 {
            let r = crate::cpu::alu::alu_value(s2.cpu, 5, 0, a as u32, 0);
            Some(
                s2.with_cpu(s2.cpu.after_alu(5, 0, a as u32, 0).with_flag(CF, a != 0)).write_op8(
                    rm,
                    r as u8,
                ),
            )
        } else if kind == 4 || kind == 5 {
            Some(s2.with_cpu(s2.cpu.after_mul8(a, kind == 5)))
        } else {
            match s2.cpu.after_div8(a, kind != 6) {
                None => s2.divide_error(start_ip),
                Some(c) => Some(s2.with_cpu(c)),
            }
        }
    }

    /// The same for words and doublewords.
    #[verifier::opaque]
    pub open spec fn grp3_word(self, d: Decoder, start_ip: u32) -> Option<State> {
        let w = d.opsize32;
        let (s1, kind, rm) = self.modrm(d);
        let (s2, a) = s1.read_op_w(rm, w);
        if kind == 0 || kind == 1 {
            let (s3, b) = s2.fetch_w(w);
            Some(s3.with_cpu(s3.cpu.after_alu(4, narrow(a, w), narrow(b, w), width(w))))
        } else if kind == 2 {
            Some(s2.write_op_w(rm, !a, w))
        } else if kind == 3 {
            let r = crate::cpu::alu::alu_value(s2.cpu, 5, 0, narrow(a, w), width(w));
            Some(
                s2.with_cpu(
                    s2.cpu.after_alu(5, 0, narrow(a, w), width(w)).with_flag(CF, a != 0),
                ).write_op_w(rm, r, w),
            )
        } else if kind == 4 || kind == 5 {
            Some(s2.with_cpu(s2.cpu.after_mul_w(narrow(a, w), kind == 5, w)))
        } else {
            match s2.cpu.after_div_w(narrow(a, w), kind != 6, w) {
                None => s2.divide_error(start_ip),
                Some(c) => Some(s2.with_cpu(c)),
            }
        }
    }

    /// INC and DEC of a byte.
    #[verifier::opaque]
    pub open spec fn grp4(self, d: Decoder) -> State {
        let (s1, kind, rm) = self.modrm(d);
        let (s2, a) = s1.read_op8(rm);
        s2.with_cpu(s2.cpu.after_inc_dec(a as u32, kind != 0, 0)).write_op8(
            rm,
            crate::cpu::alu::inc_dec_value(a as u32, kind != 0, 0) as u8,
        )
    }

    /// Reads a far pointer: the offset, then the selector.
    #[verifier::opaque]
    pub open spec fn read_far(self, addr: u32, wide: bool) -> (State, u32, u16) {
        if wide {
            let (s1, off) = self.read32(addr);
            let (s2, sel) = s1.read16(addr.wrapping_add(4));
            (s2, off, sel)
        } else {
            let (s1, off) = self.read16(addr);
            let (s2, sel) = s1.read16(addr.wrapping_add(2));
            (s2, off as u32, sel)
        }
    }

    /// INC, DEC, the indirect calls and jumps, and PUSH.
    #[verifier::opaque]
    pub open spec fn grp5(self, d: Decoder) -> Option<State> {
        let w = d.opsize32;
        let (s1, kind, rm) = self.modrm(d);
        if kind == 0 || kind == 1 {
            let (s2, a) = s1.read_op_w(rm, w);
            Some(
                s2.with_cpu(s2.cpu.after_inc_dec(narrow(a, w), kind != 0, width(w))).write_op_w(
                    rm,
                    crate::cpu::alu::inc_dec_value(narrow(a, w), kind != 0, width(w)),
                    w,
                ),
            )
        } else if kind == 2 {
            let (s2, t) = s1.read_op_w(rm, w);
            let s3 = s2.push_w(s2.cpu.ip, w);
            Some(s3.with_cpu(s3.cpu.with_ip(t)))
        } else if kind == 4 {
            let (s2, t) = s1.read_op_w(rm, w);
            Some(s2.with_cpu(s2.cpu.with_ip(t)))
        } else if kind == 6 {
            let (s2, v) = s1.read_op_w(rm, w);
            Some(s2.push_w(v, w))
        } else if kind == 3 || kind == 5 {
            match rm {
                Operand::Reg(_) => Some(s1.trapped(TrapReason::RegisterOperand { op: 0xFF })),
                Operand::Mem { addr, .. } => {
                    let (s2, off, sel) = s1.read_far(addr, w);
                    if kind == 3 {
                        s2.far_call(sel, off, w)
                    } else {
                        s2.far_jump(sel, off)
                    }
                },
            }
        } else {
            Some(s1.trapped(TrapReason::Group { op: 0xFF, slot: kind as u8 }))
        }
    }

    /// A far jump: where the code segment was loaded, execution goes on there.
    #[verifier::opaque]
    pub open spec fn far_jump(self, sel: u16, off: u32) -> Option<State> {
        match self.load_seg(CS, sel) {
            None => None,
            Some((s, ok)) => if ok {
                Some(s.with_cpu(s.cpu.with_ip(off)))
            } else {
                Some(s)
            },
        }
    }
}

pub fn set_cf_of(c: &mut Cpu, on: bool)
    ensures
        *final(c) == old(c).with_cf_of(on),
{
    c.set_flag(CF, on);
    c.set_flag(OF, on);
}

/// Shifts and rotates.
pub fn grp2(m: &mut Machine, d: &Decoder, op: u8)
    requires
        d.wf(),
    ensures
        final(m)@ == old(m)@.grp2(*d, op),
{
    proof {
        reveal(State::grp2);
    }
    let (kind, rm) = modrm(m, d);
    let count: u8 = if op == 0xC0 || op == 0xC1 {
        fetch8(m)
    } else if op == 0xD0 || op == 0xD1 {
        1
    } else {
        m.cpu.reg8(1)
    };
    if op % 2 == 0 {
        let a: u8 = read_op8(m, &rm);
        let r: u32 = shift_rot(&mut m.cpu, kind as u8, a as u32, count, 8);
        write_op8(m, &rm, r as u8);
    } else {
        let a: u32 = read_op_w(m, &rm, d.opsize32);
        let w: u32 = if d.opsize32 {
            32
        } else {
            16
        };
        let r: u32 = shift_rot(&mut m.cpu, kind as u8, a, count, w);
        write_op_w(m, &rm, r, d.opsize32);
    }
}

fn mul8(c: &mut Cpu, a: u8, signed: bool)
    ensures
        *final(c) == old(c).after_mul8(a, signed),
{
    proof {
        reveal(Cpu::after_mul8);
    }
    if signed {
        let x: i64 = signed8(c.reg8(0));
        let y: i64 = signed8(a);
        assert(-0x4000 <= x * y <= 0x4000) by (nonlinear_arith)
            requires
                -0x80 <= x < 0x80,
                -0x80 <= y < 0x80,
        ;
        let p: i64 = x * y;
        c.set_reg16(AX, low16(p));
        set_cf_of(c, !(-0x80 <= p && p < 0x80));
    } else {
        let x: u8 = c.reg8(0);
        assert(0 <= x * a <= 0xFE01) by (nonlinear_arith)
            requires
                0 <= x <= 0xFF,
                0 <= a <= 0xFF,
        ;
        let p: u16 = x as u16 * a as u16;
        c.set_reg16(AX, p);
        set_cf_of(c, p >= 0x100);
    }
}

fn mul_w(c: &mut Cpu, a: u32, signed: bool, wide: bool)
    requires
        wide || a <= 0xFFFF,
    ensures
        *final(c) == old(c).after_mul_w(a, signed, wide),
{
    proof {
        reveal(Cpu::after_mul_w);
    }
    let half: i64 = if wide {
        0x8000_0000
    } else {
        0x8000
    };
    if signed {
        let x: i64 = signed_w(c.reg_w(AX, wide), wide);
        let y: i64 = signed_w(a, wide);
        assert(-0x4000_0000_0000_0000 <= x * y <= 0x4000_0000_0000_0000) by (nonlinear_arith)
            requires
                -0x8000_0000 <= x < 0x8000_0000,
                -0x8000_0000 <= y < 0x8000_0000,
        ;
        let p: i64 = x * y;
        c.set_reg_w(AX, low_w(p, wide), wide);
        c.set_reg_w(DX, high_w(p, wide), wide);
        set_cf_of(c, !(-half <= p && p < half));
    } else {
        let x: u32 = c.reg_w(AX, wide);
        assert(0 <= x * a <= 0xFFFF_FFFE_0000_0001) by (nonlinear_arith)
            requires
                0 <= x <= 0xFFFF_FFFF,
                0 <= a <= 0xFFFF_FFFF,
        ;
        let p: u64 = x as u64 * a as u64;
        let top: u64 = if wide {
            0x1_0000_0000
        } else {
            0x1_0000
        };
        c.set_reg_w(AX, (p % top) as u32, wide);
        c.set_reg_w(DX, (p / top) as u32, wide);
        set_cf_of(c, p >= top);
    }
}

/// Quotient and remainder of numbers whose quotient fits the given half range.
fn divide(n: i64, b: i64, half: u64) -> (r: Option<(i64, i64)>)
    requires
        0 < half <= 0x8000_0000,
        -0x8000_0000 <= b < 0x8000_0000,
    ensures
        match r {
            None => b == 0 || !(-half <= crate::bits::quotient(n as int, b as int) < half),
            Some((q, e)) => b != 0 && -half <= crate::bits::quotient(n as int, b as int) < half && q
                == crate::bits::quotient(n as int, b as int) && e == crate::bits::remainder(
                n as int,
                b as int,
            ),
        },
{
    if b == 0 {
        return None;
    }
    let x: u64 = magnitude(n);
    let y: u64 = magnitude(b);
    let q: u64 = x / y;
    let e: u64 = x % y;
    proof {
        vstd::arithmetic::div_mod::lemma_mod_bound(x as int, y as int);
        assert(q == crate::bits::abs(n as int) / crate::bits::abs(b as int));
        assert(e == crate::bits::abs(n as int) % crate::bits::abs(b as int));
    }
    let negative = (n < 0) != (b < 0);
    if q > half || (q == half && !negative) {
        return None;
    }
    let sq: i64 = if negative {
        -(q as i64)
    } else {
        q as i64
    };
    let se: i64 = if n < 0 {
        -(e as i64)
    } else {
        e as i64
    };
    Some((sq, se))
}

fn div8(c: &mut Cpu, a: u8, signed: bool) -> (ok: bool)
    ensures
        match old(c).after_div8(a, signed) {
            None => !ok && *final(c) == *old(c),
            Some(r) => ok && *final(c) == r,
        },
{
    proof {
        reveal(Cpu::after_div8);
    }
    if signed {
        match divide(signed16(c.reg16(AX)), signed8(a), 0x80) {
            None => false,
            Some((q, e)) => {
                c.set_reg8(0, low8(q));
                c.set_reg8(4, low8(e));
                true
            },
        }
    } else {
        let ax: u16 = c.reg16(AX);
        if a == 0 || ax / a as u16 > 0xFF {
            return false;
        }
        c.set_reg8(0, (ax / a as u16) as u8);
        c.set_reg8(4, (ax % a as u16) as u8);
        true
    }
}

fn div_w(c: &mut Cpu, a: u32, signed: bool, wide: bool) -> (ok: bool)
    requires
        wide || a <= 0xFFFF,
    ensures
        match old(c).after_div_w(a, signed, wide) {
            None => !ok && *final(c) == *old(c),
            Some(r) => ok && *final(c) == r,
        },
{
    proof {
        reveal(Cpu::after_div_w);
    }
    let n: u64 = if wide {
        c.reg32(DX) as u64 * 0x1_0000_0000 + c.reg32(AX) as u64
    } else {
        c.reg16(DX) as u64 * 0x1_0000 + c.reg16(AX) as u64
    };
    assert(n == c.double_ax(wide));
    if signed {
        let s: i64 = if wide {
            if n >= 0x8000_0000_0000_0000 {
                (n as i128 - 0x1_0000_0000_0000_0000) as i64
            } else {
                n as i64
            }
        } else {
            if n >= 0x8000_0000 {
                n as i64 - 0x1_0000_0000
            } else {
                n as i64
            }
        };
        assert(s == c.signed_double_ax(wide));
        let half: u64 = if wide {
            0x8000_0000
        } else {
            0x8000
        };
        match divide(s, signed_w(a, wide), half) {
            None => false,
            Some((q, e)) => {
                c.set_reg_w(AX, low_w(q, wide), wide);
                c.set_reg_w(DX, low_w(e, wide), wide);
                true
            },
        }
    } else {
        let top: u64 = if wide {
            0x1_0000_0000
        } else {
            0x1_0000
        };
        if a == 0 || n / a as u64 >= top {
            return false;
        }
        c.set_reg_w(AX, (n / a as u64) as u32, wide);
        c.set_reg_w(DX, (n % a as u64) as u32, wide);
        true
    }
}

/// TEST, NOT, NEG, MUL, IMUL, DIV and IDIV of a byte.
pub fn grp3_byte(m: &mut Machine, d: &Decoder, start_ip: u32)
    requires
        d.wf(),
        old(m)@.grp3_byte(*d, start_ip) is Some,
    ensures
        Some(final(m)@) == old(m)@.grp3_byte(*d, start_ip),
{
    proof {
        reveal(State::grp3_byte);
    }
    let (kind, rm) = modrm(m, d);
    let a: u8 = read_op8(m, &rm);
    if kind == 0 || kind == 1 {
        let b: u8 = fetch8(m);
        alu8(&mut m.cpu, 4, a, b);
    } else if kind == 2 {
        write_op8(m, &rm, !a);
    } else if kind == 3 {
        let r: u8 = alu8(&mut m.cpu, 5, 0, a);
        m.cpu.set_flag(CF, a != 0);
        write_op8(m, &rm, r);
    } else if kind == 4 || kind == 5 {
        mul8(&mut m.cpu, a, kind == 5);
    } else {
        if !div8(&mut m.cpu, a, kind != 6) {
            divide_error(m, start_ip);
        }
    }
}

/// TEST, NOT, NEG, MUL, IMUL, DIV and IDIV of a word or doubleword.
pub fn grp3_word(m: &mut Machine, d: &Decoder, start_ip: u32)
    requires
        d.wf(),
        old(m)@.grp3_word(*d, start_ip) is Some,
    ensures
        Some(final(m)@) == old(m)@.grp3_word(*d, start_ip),
{
    proof {
        reveal(State::grp3_word);
    }
    let w = d.opsize32;
    let (kind, rm) = modrm(m, d);
    let a: u32 = read_op_w(m, &rm, w);
    if kind == 0 || kind == 1 {
        let b: u32 = fetch_w(m, w);
        alu_w(&mut m.cpu, 4, a, b, w);
    } else if kind == 2 {
        write_op_w(m, &rm, !a, w);
    } else if kind == 3 {
        let r: u32 = alu_w(&mut m.cpu, 5, 0, a, w);
        m.cpu.set_flag(CF, a != 0);
        write_op_w(m, &rm, r, w);
    } else if kind == 4 || kind == 5 {
        mul_w(&mut m.cpu, narrow(a, w), kind == 5, w);
    } else {
        if !div_w(&mut m.cpu, narrow(a, w), kind != 6, w) {
            divide_error(m, start_ip);
        }
    }
}

/// INC and DEC of a byte.
pub fn grp4(m: &mut Machine, d: &Decoder)
    requires
        d.wf(),
    ensures
        final(m)@ == old(m)@.grp4(*d),
{
    proof {
        reveal(State::grp4);
    }
    let (kind, rm) = modrm(m, d);
    let a: u8 = read_op8(m, &rm);
    let r: u8 = inc_dec8(&mut m.cpu, a, kind != 0);
    write_op8(m, &rm, r);
}

/// Reads a far pointer from memory.
pub fn read_far(m: &mut Machine, addr: u32, wide: bool) -> (r: (u32, u16))
    ensures
        (final(m)@, r.0, r.1) == old(m)@.read_far(addr, wide),
{
    proof {
        reveal(State::read_far);
    }
    if wide {
        let off: u32 = m.read32(addr);
        let sel: u16 = m.read16(addr.wrapping_add(4));
        (off, sel)
    } else {
        let off: u16 = m.read16(addr);
        let sel: u16 = m.read16(addr.wrapping_add(2));
        (off as u32, sel)
    }
}

/// A far jump.
pub fn far_jump(m: &mut Machine, sel: u16, off: u32)
    requires
        old(m)@.far_jump(sel, off) is Some,
    ensures
        Some(final(m)@) == old(m)@.far_jump(sel, off),
{
    proof {
        reveal(State::far_jump);
    }
    if load_seg(m, CS, sel) {
        m.cpu.set_ip(off);
    }
}

/// INC, DEC, the indirect calls and jumps, and PUSH.
pub fn grp5(m: &mut Machine, d: &Decoder)
    requires
        d.wf(),
        old(m)@.grp5(*d) is Some,
    ensures
        Some(final(m)@) == old(m)@.grp5(*d),
{
    proof {
        reveal(State::grp5);
    }
    let (kind, rm) = modrm(m, d);
    let w = d.opsize32;
    if kind == 0 || kind == 1 {
        let a: u32 = read_op_w(m, &rm, w);
        let r: u32 = inc_dec_w(&mut m.cpu, a, kind != 0, w);
        write_op_w(m, &rm, r, w);
    } else if kind == 2 {
        let t: u32 = read_op_w(m, &rm, w);
        let ret: u32 = m.cpu.ip;
        push_w(m, ret, w);
        m.cpu.set_ip(t);
    } else if kind == 4 {
        let t: u32 = read_op_w(m, &rm, w);
        m.cpu.set_ip(t);
    } else if kind == 6 {
        let v: u32 = read_op_w(m, &rm, w);
        push_w(m, v, w);
    } else if kind == 3 || kind == 5 {
        match rm {
            Operand::Reg(_) => m.trap(TrapReason::RegisterOperand { op: 0xFF }),
            Operand::Mem { addr, .. } => {
                let p = read_far(m, addr, w);
                if kind == 3 {
                    far_call(m, p.1, p.0, w);
                } else {
                    far_jump(m, p.1, p.0);
                }
            },
        }
    } else {
        m.trap(TrapReason::Group { op: 0xFF, slot: kind as u8 });
    }
}

} // verus!
