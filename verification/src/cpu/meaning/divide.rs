//! Multiplication and division.

use vstd::prelude::*;
use crate::bits::signed_w;
use crate::cpu::operand::Decoder;
use crate::cpu::state::{Cpu, AX, CF, DX, OF};
use crate::machine::State;

verus! {

/// The number of values of a word or doubleword.
pub open spec fn turn(wide: bool) -> int {
    if wide {
        0x1_0000_0000
    } else {
        0x1_0000
    }
}

/// Two states that differ in AX, DX and the instruction pointer, and in what is noted of
/// flags and accesses; with narrow operands the upper halves stay.
pub open spec fn but_accumulators(s: State, u: State, wide: bool) -> bool {
    &&& u == (State {
        cpu: Cpu {
            ip: u.cpu.ip,
            regs: u.cpu.regs,
            flags: u.cpu.flags,
            cc_op: u.cpu.cc_op,
            ..s.cpu
        },
        marks: u.marks,
        pending_fault: u.pending_fault,
        log: u.log,
        ..s
    })
    &&& forall|r: int|
        0 <= r < 8 && r != 0 && r != 2 ==> #[trigger] u.cpu.regs[r] == s.cpu.regs[r]
    &&& !wide ==> u.cpu.regs[0] / 0x1_0000 == s.cpu.regs[0] / 0x1_0000 && u.cpu.regs[2] / 0x1_0000
        == s.cpu.regs[2] / 0x1_0000
}

/// A word register after a write.
pub proof fn lemma_reg_w(c: Cpu, r: usize, v: u32, wide: bool)
    requires
        r < 8,
    ensures
        ({
            let e = c.with_reg_w(r, v, wide);
            &&& e == (Cpu { regs: e.regs, ..c })
            &&& e.regs[r as int] == if wide {
                v as int
            } else {
                c.regs[r as int] as int / 0x1_0000 * 0x1_0000 + v % 0x1_0000
            }
            &&& forall|q: int| 0 <= q < 8 && q != r ==> #[trigger] e.regs[q] == c.regs[q]
            &&& e.reg_w(r, wide) == if wide {
                v as int
            } else {
                v as int % 0x1_0000
            }
        }),
{
    crate::cpu::meaning::lemma_parts(c.regs[r as int], v);
    crate::cpu::meaning::lemma_parts(c.with_reg_w(r, v, wide).regs[r as int], v);
    crate::cpu::meaning::lemma_parts(v, v);
}

/// The number in DX and AX, divided.
proof fn lemma_div_word(c: Cpu, a: u32, wide: bool)
    requires
        a < turn(wide),
        c.reg_w(DX, wide) < a,
    ensures
        c.after_div_w(a, false, wide) matches Some(e) && {
            &&& e.reg_w(AX, wide) * a + e.reg_w(DX, wide) == c.reg_w(DX, wide) * turn(wide)
                + c.reg_w(AX, wide)
            &&& e.reg_w(DX, wide) < a
            &&& accumulators(c, e, wide)
        },
{
    reveal(Cpu::after_div_w);
    let n = c.double_ax(wide);
    let (hi, lo, m) = (c.reg_w(DX, wide) as int, c.reg_w(AX, wide) as int, turn(wide));
    let (q, r) = (n / (a as int), n % (a as int));
    assert(n == hi * m + lo);
    vstd::arithmetic::div_mod::lemma_fundamental_div_mod(n, a as int);
    assert(0 <= q < m && q * a == a * q) by (nonlinear_arith)
        requires
            q == n / (a as int),
            n == hi * m + lo,
            0 <= hi < a,
            0 <= lo < m,
            m > 0,
    ;
    lemma_accumulators(c, q as u32, r as u32, wide);
}

/// Two processors that differ in AX and DX; with narrow operands the upper halves stay.
pub open spec fn accumulators(c: Cpu, e: Cpu, wide: bool) -> bool {
    &&& e == (Cpu { regs: e.regs, ..c })
    &&& forall|r: int| 0 <= r < 8 && r != 0 && r != 2 ==> #[trigger] e.regs[r] == c.regs[r]
    &&& !wide ==> e.regs[0] / 0x1_0000 == c.regs[0] / 0x1_0000 && e.regs[2] / 0x1_0000 == c.regs[2]
        / 0x1_0000
}

proof fn lemma_accumulators(c: Cpu, lo: u32, hi: u32, wide: bool)
    ensures
        ({
            let e = c.with_reg_w(AX, lo, wide).with_reg_w(DX, hi, wide);
            &&& accumulators(c, e, wide)
            &&& e.reg_w(AX, wide) == if wide {
                lo as int
            } else {
                lo as int % 0x1_0000
            }
            &&& e.reg_w(DX, wide) == if wide {
                hi as int
            } else {
                hi as int % 0x1_0000
            }
        }),
{
    lemma_reg_w(c, AX, lo, wide);
    lemma_reg_w(c.with_reg_w(AX, lo, wide), DX, hi, wide);
}

/// The instruction, its operand read.
proof fn lemma_grp3_word(s: State, t: State, d: Decoder)
    requires
        s.instruction() == Some((t, d, 0xF7u8)),
        t.field() >= 4,
    ensures
        ({
            let (x, _, rm) = t.modrm(d);
            let (y, a) = x.read_op_w(rm, d.opsize32);
            &&& crate::cpu::meaning::begun(s, y)
            &&& a == t.value_w(d)
            &&& a < turn(d.opsize32)
            &&& crate::cpu::alu::narrow(a, d.opsize32) == a
            &&& s.step() == if t.field() < 6 {
                Some(y.with_cpu(y.cpu.after_mul_w(a, t.field() == 5, d.opsize32)))
            } else {
                match y.cpu.after_div_w(a, t.field() == 7, d.opsize32) {
                    None => y.divide_error(s.cpu.ip),
                    Some(c) => Some(y.with_cpu(c)),
                }
            }
        }),
{
    crate::cpu::meaning::lemma_step(s, t, d, 0xF7);
    crate::cpu::meaning::lemma_modrm(t, d);
    reveal(State::onebyte);
    reveal(State::grp3_word);
    let (x, _, rm) = t.modrm(d);
    crate::cpu::meaning::lemma_read_op(x, rm, d.opsize32);
    crate::cpu::meaning::lemma_parts(x.read_op_w(rm, d.opsize32).1, 0);
}

/// DIV of a word or doubleword (F7 /6): with the number in DX and AX divided by the
/// operand, quotient times divisor plus remainder is the number again, and the remainder
/// is less than the divisor. Nothing but AX and DX changes.
pub proof fn law_div_word(s: State, t: State, d: Decoder)
    requires
        s.instruction() == Some((t, d, 0xF7u8)),
        t.field() == 6,
        s.cpu.reg_w(DX, d.opsize32) < t.value_w(d),
    ensures
        ({
            let w = d.opsize32;
            let b = t.value_w(d) as int;
            &&& s.step() matches Some(u)
            &&& u.cpu.reg_w(AX, w) * b + u.cpu.reg_w(DX, w) == s.cpu.reg_w(DX, w) * turn(w)
                + s.cpu.reg_w(AX, w)
            &&& u.cpu.reg_w(DX, w) < b
            &&& but_accumulators(s, u, w)
            &&& u.cpu.flags == s.cpu.flags && u.cpu.cc_op == s.cpu.cc_op
        }),
{
    lemma_grp3_word(s, t, d);
    let (x, _, rm) = t.modrm(d);
    let (y, a) = x.read_op_w(rm, d.opsize32);
    lemma_div_word(y.cpu, a, d.opsize32);
}

} // verus!
