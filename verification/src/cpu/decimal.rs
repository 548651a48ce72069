//! Decimal adjustment.

use vstd::prelude::*;
use crate::cpu::alu::set_szp8;
use crate::cpu::operand::fetch8;
use crate::cpu::state::{Cpu, AF, AX, CF};
use crate::machine::{Machine, State};

verus! {

/// DAA and DAS: AL after the addition or subtraction of packed decimals, and the
/// carry. A low digit above nine, or a carry out of it, moves AL by six; a value
/// above 99, or a carry, moves it by sixty.
pub open spec fn adjusted(al: u8, cf: bool, af: bool, subtract: bool) -> (u8, bool) {
    let six = al % 16 > 9 || af;
    let a1 = if !six {
        al
    } else if subtract {
        al.wrapping_sub(6)
    } else {
        al.wrapping_add(6)
    };
    let c1 = six && (cf || if subtract { al < 6 } else { al > 0xF9 });
    if al > 0x99 || cf {
        (if subtract { a1.wrapping_sub(0x60) } else { a1.wrapping_add(0x60) }, true)
    } else {
        (a1, c1)
    }
}

impl Cpu {
    #[verifier::opaque]
    pub open spec fn after_daa_das(self, op: u8) -> Cpu {
        let (al, cf) = adjusted(self.reg8(0), self.flag(CF), self.flag(AF), op == 0x2F);
        let six = self.reg8(0) % 16 > 9 || self.flag(AF);
        self.with_flag(AF, six).with_reg8(0, al).with_flag(CF, cf).with_szp(al as u32, 0)
    }

    /// AAA and AAS: one decimal digit in AL, the rest into AH.
    #[verifier::opaque]
    pub open spec fn after_aaa_aas(self, op: u8) -> Cpu {
        let subtract = op == 0x3F;
        let adjust = self.reg8(0) % 16 > 9 || self.flag(AF);
        let c = if adjust {
            let a = self.with_reg16(
                AX,
                if subtract {
                    self.reg16(AX).wrapping_sub(6)
                } else {
                    self.reg16(AX).wrapping_add(6)
                },
            );
            a.with_reg8(
                4,
                if subtract { a.reg8(4).wrapping_sub(1) } else { a.reg8(4).wrapping_add(1) },
            )
        } else {
            self
        };
        let f = c.with_flag(AF, adjust).with_flag(CF, adjust);
        f.with_reg8(0, (f.reg8(0) % 16) as u8)
    }

    /// AAM: the digits of AL in some base, the high one in AH.
    #[verifier::opaque]
    pub open spec fn after_aam(self, base: u8) -> Cpu {
        let al = self.reg8(0);
        self.with_reg8(4, (al / base) as u8).with_reg8(0, (al % base) as u8).with_szp(
            (al % base) as u32,
            0,
        )
    }

    /// AAD: the number with the digits AH and AL in some base.
    #[verifier::opaque]
    pub open spec fn after_aad(self, base: u8) -> Cpu {
        let r = self.reg8(0).wrapping_add(self.reg8(4).wrapping_mul(base));
        self.with_reg8(0, r).with_reg8(4, 0).with_szp(r as u32, 0)
    }
}

impl State {
    /// AAM by its immediate. There is no result for base zero.
    #[verifier::opaque]
    pub open spec fn aam(self) -> Option<State> {
        let (s, base) = self.fetch8();
        if base == 0 {
            None
        } else {
            Some(s.with_cpu(s.cpu.after_aam(base)))
        }
    }

    #[verifier::opaque]
    pub open spec fn aad(self) -> State {
        let (s, base) = self.fetch8();
        s.with_cpu(s.cpu.after_aad(base))
    }
}

/// DAA (opcode 27) and DAS (opcode 2F).
pub fn daa_das(m: &mut Machine, op: u8)
    ensures
        final(m)@ == old(m)@.with_cpu(old(m)@.cpu.after_daa_das(op)),
{
    proof {
        reveal(Cpu::after_daa_das);
    }
    let old_al: u8 = m.cpu.reg8(0);
    let old_cf = m.cpu.flag(CF);
    let sub = op == 0x2F;
    let mut al: u8 = old_al;
    let mut cf = false;
    if al % 16 > 9 || m.cpu.flag(AF) {
        al = if sub {
            al.wrapping_sub(6)
        } else {
            al.wrapping_add(6)
        };
        cf = old_cf || if sub {
            old_al < 6
        } else {
            old_al > 0xF9
        };
        m.cpu.set_flag(AF, true);
    } else {
        m.cpu.set_flag(AF, false);
    }
    if old_al > 0x99 || old_cf {
        al = if sub {
            al.wrapping_sub(0x60)
        } else {
            al.wrapping_add(0x60)
        };
        cf = true;
    }
    m.cpu.set_reg8(0, al);
    m.cpu.set_flag(CF, cf);
    set_szp8(&mut m.cpu, al);
}

/// AAA (opcode 37) and AAS (opcode 3F).
pub fn aaa_aas(m: &mut Machine, op: u8)
    ensures
        final(m)@ == old(m)@.with_cpu(old(m)@.cpu.after_aaa_aas(op)),
{
    proof {
        reveal(Cpu::after_aaa_aas);
    }
    let sub = op == 0x3F;
    if m.cpu.reg8(0) % 16 > 9 || m.cpu.flag(AF) {
        let ax: u16 = m.cpu.reg16(AX);
        m.cpu.set_reg16(
            AX,
            if sub {
                ax.wrapping_sub(6)
            } else {
                ax.wrapping_add(6)
            },
        );
        let ah: u8 = m.cpu.reg8(4);
        m.cpu.set_reg8(
            4,
            if sub {
                ah.wrapping_sub(1)
            } else {
                ah.wrapping_add(1)
            },
        );
        m.cpu.set_flag(AF, true);
        m.cpu.set_flag(CF, true);
    } else {
        m.cpu.set_flag(AF, false);
        m.cpu.set_flag(CF, false);
    }
    let al: u8 = m.cpu.reg8(0) % 16;
    m.cpu.set_reg8(0, al);
}

/// AAM.
pub fn aam(m: &mut Machine)
    requires
        old(m)@.aam() is Some,
    ensures
        Some(final(m)@) == old(m)@.aam(),
{
    proof {
        reveal(State::aam);
        reveal(Cpu::after_aam);
    }
    let base: u8 = fetch8(m);
    let al: u8 = m.cpu.reg8(0);
    m.cpu.set_reg8(4, al / base);
    let r: u8 = al % base;
    m.cpu.set_reg8(0, r);
    set_szp8(&mut m.cpu, r);
}

/// AAD.
pub fn aad(m: &mut Machine)
    ensures
        final(m)@ == old(m)@.aad(),
{
    proof {
        reveal(State::aad);
        reveal(Cpu::after_aad);
    }
    let base: u8 = fetch8(m);
    let r: u8 = m.cpu.reg8(0).wrapping_add(m.cpu.reg8(4).wrapping_mul(base));
    m.cpu.set_reg8(0, r);
    m.cpu.set_reg8(4, 0);
    set_szp8(&mut m.cpu, r);
}

/// Adding the packed decimals of the digits `a b` and `p q` and adjusting gives
/// the packed decimal of their sum, with a carry above 99.
#[verifier::spinoff_prover]
#[verifier::rlimit(60)]
pub proof fn law_daa_adds_decimals(a: u8, b: u8, p: u8, q: u8)
    requires
        a < 10,
        b < 10,
        p < 10,
        q < 10,
    ensures
        ({
            let sum = 16 * (a + p) + b + q;
            let n = 10 * (a + p) + b + q;
            let (al, cf) = adjusted((sum % 256) as u8, sum >= 256, b + q >= 16, false);
            &&& cf == (n >= 100)
            &&& al == 16 * (n % 100 / 10) + n % 10
        }),
{
    let h = a + p;
    let l = b + q;
    let al = (if 16 * h + l >= 256 { 16 * h + l - 256 } else { 16 * h + l }) as u8;
    assert(al == (16 * h + l) % 256);
    let t: int = if l >= 16 { h + 1 } else { h };
    let u: int = if l >= 16 { l - 16 } else { l };
    let k: int = if t >= 16 { t - 16 } else { t };
    assert(al == 16 * k + u);
    assert(al % 16 == u);
    let d: int = if l >= 10 { l - 10 } else { l };
    let e: int = if l >= 10 { h + 1 } else { h };
    let f: int = if e >= 10 { e - 10 } else { e };
    assert(10 * h + l == 10 * e + d);
    assert((10 * e + d) % 10 == d);
    assert((10 * e + d) % 100 == 10 * f + d);
    assert((10 * f + d) / 10 == f);
}

proof fn lemma_flags_keep_registers(c: Cpu, v: u32)
    ensures
        c.with_szp(v, 0).regs == c.regs,
{
    reveal(Cpu::with_szp);
    reveal(Cpu::with_flag);
}

/// AAD undoes AAM: the digits of AL in a base, put together, are AL again.
pub proof fn law_digits_put_together(c: Cpu, base: u8)
    requires
        base > 0,
    ensures
        c.after_aam(base).after_aad(base).reg8(0) == c.reg8(0),
{
    reveal(Cpu::after_aam);
    reveal(Cpu::after_aad);
    let al = c.reg8(0);
    let high = (al / base) as u8;
    let low = (al % base) as u8;
    let b = c.with_reg8(4, high);
    let d = b.with_reg8(0, low);
    lemma_flags_keep_registers(d, low as u32);
    crate::cpu::state::law_register_read_back(c, 4, high as u32);
    crate::cpu::state::law_register_read_back(b, 0, low as u32);
    assert(b.reg8(4) == high);
    assert(b.with_reg8(0, low as u32 as u8).reg8(4) == b.reg8(4));
    assert(d.reg8(0) == low && d.reg8(4) == high);
    vstd::arithmetic::div_mod::lemma_fundamental_div_mod(al as int, base as int);
    assert(0 <= high * base <= al && high * base + low == al) by (nonlinear_arith)
        requires
            al == base * (al as int / base as int) + al as int % base as int,
            high == al as int / base as int,
            low == al as int % base as int,
            base > 0,
    ;
    let e = c.after_aam(base);
    let r = e.reg8(0).wrapping_add(e.reg8(4).wrapping_mul(base));
    assert(r == al);
    let f = e.with_reg8(0, r);
    crate::cpu::state::law_register_read_back(e, 0, r as u32);
    crate::cpu::state::law_register_read_back(f, 4, 0);
    assert(f.with_reg8(4, 0u32 as u8).reg8(0) == f.reg8(0));
    lemma_flags_keep_registers(f.with_reg8(4, 0), r as u32);
}

} // verus!
