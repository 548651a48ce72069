//! Sums, differences, logic, shifts and comparisons.

use vstd::prelude::*;
use crate::cpu::alu::{condition, narrow, width};
use crate::cpu::operand::{Decoder, Operand};
use crate::cpu::state::{Cpu, AF, AX, CF, OF, PF, SF, ZF};
use crate::machine::State;

verus! {

/// What the eight operations give, as numbers of so many values and as bits: 0 ADD, 1 OR,
/// 2 ADC, 3 SBB, 4 AND, 5 SUB, 6 XOR, 7 CMP.
#[verifier::opaque]
pub open spec fn combined(kind: int, a: u32, b: u32, carry: bool, r: u32, values: int) -> bool {
    let c: int = if carry { 1 } else { 0 };
    &&& kind == 0 ==> r == (a + b) % values
    &&& kind == 1 ==> r == a | b
    &&& kind == 2 ==> r == (a + b + c) % values
    &&& kind == 3 ==> r == (a - b - c) % values
    &&& kind == 4 ==> r == a & b
    &&& kind == 5 ==> r == (a - b) % values
    &&& kind == 6 ==> r == a ^ b
    &&& kind == 7 ==> r == (a - b) % values
}

/// The flags of an operation with a result: carry and overflow of sums and differences as
/// numbers define them, none for logic; zero, sign and parity of the result.
#[verifier::opaque]
pub open spec fn flagged(
    e: Cpu,
    kind: int,
    a: u32,
    b: u32,
    carry: bool,
    r: u32,
    values: int,
) -> bool {
    let c: int = if carry && (kind == 2 || kind == 3) { 1 } else { 0 };
    let sum = kind == 0 || kind == 2;
    let difference = kind == 3 || kind == 5 || kind == 7;
    let half = values / 2;
    let sa = if a >= half { a - values } else { a as int };
    let sb = if b >= half { b - values } else { b as int };
    &&& e.flag(CF) == (sum && a + b + c >= values || difference && a < b + c)
    &&& e.flag(OF) == (sum && !(-half <= sa + sb + c < half) || difference && !(-half <= sa - sb - c
        < half))
    &&& e.flag(AF) == (sum && a % 16 + b % 16 + c >= 16 || difference && a % 16 < b % 16 + c)
    &&& e.flag(ZF) == (r == 0)
    &&& e.flag(SF) == (r >= half)
    &&& e.flag(PF) == (crate::bits::ones((r % 0x100) as u8) % 2 == 0)
}

/// A processor whose arithmetic flags alone are new.
pub open spec fn but_flags(c: Cpu, e: Cpu) -> bool {
    e == (Cpu {
        flags: e.flags,
        cc_op: e.cc_op,
        cc_w: e.cc_w,
        cc_a: e.cc_a,
        cc_b: e.cc_b,
        cc_cin: e.cc_cin,
        cc_r: e.cc_r,
        ..c
    })
}

/// The eight operations, their results and their flags.
pub proof fn law_operation(c: Cpu, kind: u8, a: u32, b: u32, w: u8)
    requires
        kind <= 7,
        w <= 2,
        a < crate::bits::modulus(w),
        b < crate::bits::modulus(w),
    ensures
        ({
            let e = c.after_alu(kind, a, b, w);
            let v = crate::cpu::alu::alu_value(c, kind, a, b, w);
            let m = crate::bits::modulus(w);
            &&& but_flags(c, e)
            &&& v < m
            &&& kind == 7 ==> v == a
            &&& exists|r: u32|
                combined(kind as int, a, b, c.flag(CF), r, m) && (kind != 7 ==> v == r)
                    && #[trigger] flagged(e, kind as int, a, b, c.flag(CF), r, m)
        }),
{
    crate::cpu::alu::law_alu_flags(c, kind, a, b, w);
    let e = c.after_alu(kind, a, b, w);
    let m = crate::bits::modulus(w);
    let cin = crate::cpu::alu::carry_in(c, kind);
    let r = crate::cpu::alu::alu_result(kind, a, b, cin, w);
    assert(but_flags(c, e)) by {
        reveal(Cpu::after_alu);
    }
    assert(crate::cpu::alu::alu_value(c, kind, a, b, w) == if kind == 7 {
        a
    } else {
        r
    }) by {
        reveal(crate::cpu::alu::alu_value);
    }
    assert(combined(kind as int, a, b, c.flag(CF), r, m)) by {
        reveal(combined);
        reveal(crate::cpu::alu::alu_result);
    }
    assert(flagged(e, kind as int, a, b, c.flag(CF), r, m)) by {
        reveal(flagged);
        crate::cpu::meaning::lemma_low(r);
        lemma_signed_range(kind, a as int, b as int, cin as int, w);
    }
}

/// Carry, the carry of four bits and overflow, as numbers.
proof fn lemma_signed_range(kind: u8, a: int, b: int, c: int, w: u8)
    requires
        kind <= 7,
        w <= 2,
        0 <= a < crate::bits::modulus(w),
        0 <= b < crate::bits::modulus(w),
        0 <= c <= 1,
    ensures
        ({
            let m = crate::bits::modulus(w);
            let half = m / 2;
            let sum = kind == 0 || kind == 2;
            let difference = kind == 3 || kind == 5 || kind == 7;
            let sa = if a >= half { a - m } else { a };
            let sb = if b >= half { b - m } else { b };
            &&& crate::cpu::alu::alu_carry(kind, a, b, c, w) == (sum && a + b + c >= m || difference
                && a < b + c)
            &&& crate::cpu::alu::alu_adjust(kind, a, b, c) == (sum && a % 16 + b % 16 + c >= 16
                || difference && a % 16 < b % 16 + c)
            &&& crate::cpu::alu::alu_overflow(kind, a, b, c, w) == (sum && !(-half <= sa + sb + c
                < half) || difference && !(-half <= sa - sb - c < half))
        }),
{
}

/// The state with the operands of an instruction read: it differs from the one before in
/// the instruction pointer and in what is noted alone.
pub proof fn lemma_operand_w(s: State, t: State, d: Decoder)
    requires
        crate::cpu::meaning::begun(s, t),
        d.wf(),
    ensures
        ({
            let (x, reg, rm) = t.modrm(d);
            let (y, a) = x.read_op_w(rm, d.opsize32);
            let (z, b) = x.read_op8(rm);
            &&& crate::cpu::meaning::begun(s, x) && crate::cpu::meaning::begun(s, y) && crate::cpu::meaning::begun(s, z)
            &&& x.cpu == y.cpu && x.cpu == z.cpu
            &&& reg == t.field()
            &&& reg < 8
            &&& rm == t.named(d)
            &&& rm.wf()
            &&& a == t.value_w(d)
            &&& b == t.value8(d)
            &&& narrow(a, d.opsize32) == a
            &&& a < crate::bits::modulus(width(d.opsize32))
            &&& forall|r: usize|
                r < 8 ==> #[trigger] x.cpu.reg_w(r, d.opsize32) == s.cpu.reg_w(r, d.opsize32)
            &&& forall|r: usize| r < 8 ==> #[trigger] x.cpu.reg8(r) == s.cpu.reg8(r)
            &&& forall|m: u32| #[trigger] x.cpu.flag(m) == s.cpu.flag(m)
        }),
{
    crate::cpu::meaning::lemma_modrm(t, d);
    let (x, reg, rm) = t.modrm(d);
    crate::cpu::meaning::lemma_read_op(x, rm, d.opsize32);
    crate::cpu::meaning::lemma_low(x.read_op_w(rm, d.opsize32).1);
    lemma_flags_stay(s.cpu, x.cpu);
}

pub proof fn lemma_flags_stay(c: Cpu, e: Cpu)
    requires
        e == (Cpu { ip: e.ip, ..c }),
    ensures
        e.eflags() == c.eflags(),
        forall|m: u32| #[trigger] e.flag(m) == c.flag(m),
        forall|k: u8| #[trigger] condition(&e, k) == condition(&c, k),
{
    reveal(Cpu::flags_now);
}

pub proof fn lemma_reg_small(c: Cpu, r: usize, wide: bool)
    requires
        r < 8,
    ensures
        narrow(c.reg_w(r, wide), wide) == c.reg_w(r, wide),
        c.reg_w(r, wide) < crate::bits::modulus(width(wide)),
{
    crate::cpu::meaning::lemma_low(c.regs[r as int]);
    crate::cpu::meaning::lemma_low(c.reg_w(r, wide));
}

/// An operation of bytes was done: `u` is what is left, with the result in its place.
pub open spec fn operated8(s: State, u: State, kind: u8, to: Operand, a: u8, b: u8) -> bool {
    exists|y: State, r: u32|
        {
            &&& begun_but_flags(s, y)
            &&& combined(kind as int, a as u32, b as u32, s.cpu.flag(CF), r, 0x100)
            &&& flagged(y.cpu, kind as int, a as u32, b as u32, s.cpu.flag(CF), r, 0x100)
            &&& u == if kind == 7 {
                y
            } else {
                #[trigger] y.write_op8(to, r as u8)
            }
        }
}

/// The same of words or doublewords.
pub open spec fn operated_w(
    s: State,
    u: State,
    kind: u8,
    to: Operand,
    a: u32,
    b: u32,
    wide: bool,
) -> bool {
    let m = crate::bits::modulus(width(wide));
    exists|y: State, r: u32|
        {
            &&& begun_but_flags(s, y)
            &&& combined(kind as int, a, b, s.cpu.flag(CF), r, m)
            &&& flagged(y.cpu, kind as int, a, b, s.cpu.flag(CF), r, m)
            &&& u == if kind == 7 {
                y
            } else {
                #[trigger] y.write_op_w(to, r, wide)
            }
        }
}

/// Two states that differ in the arithmetic flags, the instruction pointer and in what is
/// noted alone.
pub open spec fn begun_but_flags(s: State, t: State) -> bool {
    &&& but_flags(Cpu { ip: t.cpu.ip, ..s.cpu }, t.cpu)
    &&& t == (State {
        cpu: t.cpu,
        marks: t.marks,
        pending_fault: t.pending_fault,
        log: t.log,
        ..s
    })
}

proof fn lemma_operated8(s: State, x: State, kind: u8, to: Operand, a: u8, b: u8)
    requires
        crate::cpu::meaning::begun(s, x),
        kind <= 7,
    ensures
        operated8(s, x.alu8_to(kind, to, a, b), kind, to, a, b),
{
    lemma_flags_stay(s.cpu, x.cpu);
    law_operation(x.cpu, kind, a as u32, b as u32, 0);
    let y = x.with_cpu(x.cpu.after_alu(kind, a as u32, b as u32, 0));
    let r = choose|r: u32|
        combined(kind as int, a as u32, b as u32, x.cpu.flag(CF), r, 0x100) && (kind != 7
            ==> crate::cpu::alu::alu_value(x.cpu, kind, a as u32, b as u32, 0) == r)
            && #[trigger] flagged(y.cpu, kind as int, a as u32, b as u32, x.cpu.flag(CF), r, 0x100);
    assert(y.write_op8(to, r as u8) == y.write_op8(to, r as u8));
}

proof fn lemma_operated_w(s: State, x: State, kind: u8, to: Operand, a: u32, b: u32, wide: bool)
    requires
        crate::cpu::meaning::begun(s, x),
        kind <= 7,
        a < crate::bits::modulus(width(wide)),
        b < crate::bits::modulus(width(wide)),
    ensures
        operated_w(s, x.alu_w_to(kind, to, a, b, wide), kind, to, a, b, wide),
{
    crate::cpu::meaning::lemma_low(a);
    crate::cpu::meaning::lemma_low(b);
    lemma_flags_stay(s.cpu, x.cpu);
    law_operation(x.cpu, kind, a, b, width(wide));
    let m = crate::bits::modulus(width(wide));
    let y = x.with_cpu(x.cpu.after_alu(kind, a, b, width(wide)));
    let r = choose|r: u32|
        combined(kind as int, a, b, x.cpu.flag(CF), r, m) && (kind != 7
            ==> crate::cpu::alu::alu_value(x.cpu, kind, a, b, width(wide)) == r)
            && #[trigger] flagged(y.cpu, kind as int, a, b, x.cpu.flag(CF), r, m);
    assert(y.write_op_w(to, r, wide) == y.write_op_w(to, r, wide));
}

/// Opcodes 00 to 3F: bits 3 to 5 name the operation. In the six forms the destination is
/// a byte or a word operand with a register, a register with an operand, or AL or AX with
/// an immediate, in this order; the destination is the first operand.
pub proof fn law_two_operands(s: State, t: State, d: Decoder, op: u8)
    requires
        s.instruction() == Some((t, d, op)),
        op < 0x40,
        op % 8 <= 5,
        !d.lock,
    ensures
        ({
            let w = d.opsize32;
            let kind = (op / 8) as u8;
            let r = t.field() as usize;
            &&& s.step() matches Some(u)
            &&& op % 8 == 0 ==> operated8(s, u, kind, t.named(d), t.value8(d), s.cpu.reg8(r))
            &&& op % 8 == 1 ==> operated_w(
                s,
                u,
                kind,
                t.named(d),
                t.value_w(d),
                s.cpu.reg_w(r, w),
                w,
            )
            &&& op % 8 == 2 ==> operated8(
                s,
                u,
                kind,
                Operand::Reg(r),
                s.cpu.reg8(r),
                t.value8(d),
            )
            &&& op % 8 == 3 ==> operated_w(
                s,
                u,
                kind,
                Operand::Reg(r),
                s.cpu.reg_w(r, w),
                t.value_w(d),
                w,
            )
            &&& op % 8 == 4 ==> operated8(
                s,
                u,
                kind,
                Operand::Reg(0),
                s.cpu.reg8(0),
                t.code(0),
            )
            &&& op % 8 == 5 ==> operated_w(
                s,
                u,
                kind,
                Operand::Reg(0),
                s.cpu.reg_w(AX, w),
                (if w { t.code32(0) } else { t.code16(0) }) as u32,
                w,
            )
        }),
{
    crate::cpu::meaning::lemma_step(s, t, d, op);
    reveal(State::onebyte);
    reveal(State::onebyte_total);
    reveal(State::alu_grid);
    let w = d.opsize32;
    let kind = (op / 8) as u8;
    assert(op / 8 % 8 == op / 8);
    if op % 8 <= 3 {
        lemma_operand_w(s, t, d);
        let (x, reg, rm) = t.modrm(d);
        let y = x.read_op_w(rm, w).0;
        let z = x.read_op8(rm).0;
        lemma_reg_small(s.cpu, reg, w);
        assert(x.cpu.reg_w(reg, w) == s.cpu.reg_w(reg, w));
        assert(x.cpu.reg8(reg) == s.cpu.reg8(reg));
        if op % 8 == 0 {
            lemma_operated8(s, z, kind, rm, t.value8(d), s.cpu.reg8(reg));
        } else if op % 8 == 1 {
            lemma_operated_w(s, y, kind, rm, t.value_w(d), s.cpu.reg_w(reg, w), w);
        } else if op % 8 == 2 {
            lemma_operated8(s, z, kind, Operand::Reg(reg), s.cpu.reg8(reg), t.value8(d));
        } else {
            lemma_operated_w(s, y, kind, Operand::Reg(reg), s.cpu.reg_w(reg, w), t.value_w(d), w);
        }
    } else if op % 8 == 4 {
        crate::cpu::meaning::lemma_fetch8(t);
        let x = t.fetch8().0;
        assert(crate::cpu::meaning::begun(s, x));
        lemma_operated8(s, x, kind, Operand::Reg(0), s.cpu.reg8(0), t.code(0));
    } else {
        crate::cpu::meaning::lemma_fetch_w(t, w);
        let (x, v) = t.fetch_w(w);
        assert(crate::cpu::meaning::begun(s, x));
        lemma_reg_small(s.cpu, AX, w);
        lemma_operated_w(s, x, kind, Operand::Reg(0), s.cpu.reg_w(AX, w), v, w);
    }
}

/// Opcodes 80, 81 and 83: the register field names the operation, and the second operand
/// is an immediate; that of 83 is a byte with its sign.
pub proof fn law_immediate_operand(s: State, t: State, d: Decoder, op: u8)
    requires
        s.instruction() == Some((t, d, op)),
        op == 0x80 || op == 0x81 || op == 0x83,
    ensures
        ({
            let w = d.opsize32;
            let x = t.modrm(d).0;
            let kind = t.field() as u8;
            let m = crate::bits::modulus(width(w));
            &&& s.step() matches Some(u)
            &&& op == 0x80 ==> operated8(s, u, kind, t.named(d), t.value8(d), x.code(0))
            &&& op == 0x81 ==> operated_w(
                s,
                u,
                kind,
                t.named(d),
                t.value_w(d),
                (if w { x.code32(0) } else { x.code16(0) }) as u32,
                w,
            )
            &&& op == 0x83 ==> operated_w(
                s,
                u,
                kind,
                t.named(d),
                t.value_w(d),
                (crate::bits::signed(x.code(0) as int, 0) % m) as u32,
                w,
            )
        }),
{
    crate::cpu::meaning::lemma_step(s, t, d, op);
    reveal(State::onebyte);
    reveal(State::onebyte_total);
    reveal(State::grp1);
    let w = d.opsize32;
    lemma_operand_w(s, t, d);
    let (x, kind, rm) = t.modrm(d);
    let y = x.read_op_w(rm, w).0;
    let z = x.read_op8(rm).0;
    if op == 0x80 {
        lemma_code_same(x, z);
        crate::cpu::meaning::lemma_fetch8(z);
        lemma_operated8(s, z.fetch8().0, kind as u8, rm, t.value8(d), x.code(0));
    } else if op == 0x81 {
        lemma_code_same(x, y);
        crate::cpu::meaning::lemma_fetch_w(y, w);
        let (v, b) = y.fetch_w(w);
        lemma_operated_w(s, v, kind as u8, rm, t.value_w(d), b, w);
    } else {
        lemma_code_same(x, y);
        crate::cpu::meaning::lemma_fetch8(y);
        let b = crate::cpu::onebyte::sext8_w(x.code(0), w);
        assert(b == crate::bits::signed(x.code(0) as int, 0) % crate::bits::modulus(width(w)));
        lemma_operated_w(s, y.fetch8().0, kind as u8, rm, t.value_w(d), b, w);
    }
}

/// Code is the same where no more than notes of accesses differ.
pub proof fn lemma_code_same(s: State, t: State)
    requires
        t.cpu == s.cpu,
        t.mem == s.mem,
        t.sys_access == s.sys_access,
    ensures
        forall|i: u32| #[trigger] t.code(i) == s.code(i),
{
    reveal(State::code);
    assert forall|i: u32| #[trigger] t.code(i) == s.code(i) by {
        let ip = if i == 0 {
            s.cpu.ip
        } else {
            s.cpu.advanced(i).ip
        };
        crate::cpu::meaning::lemma_read_elsewhere(s, t, s.cpu.lin(crate::cpu::state::CS, ip));
    }
}

/// The flags of INC and DEC: those of adding or subtracting one, but the carry stays.
#[verifier::opaque]
pub open spec fn counted(e: Cpu, dec: bool, a: u32, r: u32, carry: bool, values: int) -> bool {
    let half = values / 2;
    &&& e.flag(CF) == carry
    &&& e.flag(OF) == if dec {
        a == half
    } else {
        a == half - 1
    }
    &&& e.flag(AF) == if dec {
        a % 16 == 0
    } else {
        a % 16 == 15
    }
    &&& e.flag(ZF) == (r == 0)
    &&& e.flag(SF) == (r >= half)
    &&& e.flag(PF) == (crate::bits::ones((r % 0x100) as u8) % 2 == 0)
}

proof fn lemma_counted(c: Cpu, a: u32, dec: bool, w: u8)
    requires
        w <= 2,
        a < crate::bits::modulus(w),
    ensures
        ({
            let m = crate::bits::modulus(w);
            let e = c.after_inc_dec(a, dec, w);
            let r = crate::cpu::alu::inc_dec_value(a, dec, w);
            &&& but_flags(c, e)
            &&& r == (a + m + (if dec { -1int } else { 1 })) % m
            &&& counted(e, dec, a, r, c.flag(CF), m)
        }),
{
    crate::cpu::alu::law_inc_dec_flags(c, a, dec, w);
    reveal(counted);
    reveal(Cpu::after_inc_dec);
    reveal(Cpu::with_cc_incdec);
    reveal(crate::cpu::alu::inc_dec_value);
    crate::cpu::meaning::lemma_low(crate::cpu::alu::inc_dec_value(a, dec, w));
}

/// One was added to or taken from a word operand.
pub open spec fn counted_w(s: State, u: State, dec: bool, to: Operand, a: u32, wide: bool) -> bool {
    let m = crate::bits::modulus(width(wide));
    exists|y: State, r: u32|
        {
            &&& begun_but_flags(s, y)
            &&& r == (a + m + (if dec { -1int } else { 1 })) % m
            &&& counted(y.cpu, dec, a, r, s.cpu.flag(CF), m)
            &&& u == #[trigger] y.write_op_w(to, r, wide)
        }
}

/// One was added to or taken from a byte operand.
pub open spec fn counted8(s: State, u: State, dec: bool, to: Operand, a: u8) -> bool {
    exists|y: State, r: u8|
        {
            &&& begun_but_flags(s, y)
            &&& r == (a + 0x100 + (if dec { -1int } else { 1 })) % 0x100
            &&& counted(y.cpu, dec, a as u32, r as u32, s.cpu.flag(CF), 0x100)
            &&& u == #[trigger] y.write_op8(to, r)
        }
}

/// INC and DEC of word registers: 40 to 47 add one, 48 to 4F take one away.
pub proof fn law_count_register(s: State, t: State, d: Decoder, op: u8)
    requires
        s.instruction() == Some((t, d, op)),
        0x40 <= op <= 0x4F,
        !d.lock,
    ensures
        ({
            let r = (op % 8) as usize;
            s.step() matches Some(u) && counted_w(
                s,
                u,
                op >= 0x48,
                Operand::Reg(r),
                s.cpu.reg_w(r, d.opsize32),
                d.opsize32,
            )
        }),
{
    crate::cpu::meaning::lemma_step(s, t, d, op);
    reveal(State::onebyte);
    reveal(State::onebyte_total);
    reveal(State::misc_ops);
    let w = d.opsize32;
    let r = (op % 8) as usize;
    let a = s.cpu.reg_w(r, w);
    lemma_reg_small(s.cpu, r, w);
    lemma_counted(t.cpu, a, op >= 0x48, width(w));
    lemma_flags_stay(s.cpu, t.cpu);
    let v = crate::cpu::alu::inc_dec_value(a, op >= 0x48, width(w));
    let y = t.with_cpu(t.cpu.after_inc_dec(a, op >= 0x48, width(w)));
    assert(y.write_op_w(Operand::Reg(r), v, w) == y.with_cpu(y.cpu.with_reg_w(r, v, w))) by {
        reveal(State::write_op_w);
        reveal(State::write_op16);
        reveal(State::write_op32);
    }
}

/// INC and DEC of a byte operand (FE) and of a word operand (FF): field 0 adds one, field
/// 1 takes one away.
pub proof fn law_count_operand(s: State, t: State, d: Decoder, op: u8)
    requires
        s.instruction() == Some((t, d, op)),
        op == 0xFE || op == 0xFF,
        t.field() <= 1,
    ensures
        ({
            &&& s.step() matches Some(u)
            &&& op == 0xFE ==> counted8(s, u, t.field() == 1, t.named(d), t.value8(d))
            &&& op == 0xFF ==> counted_w(
                s,
                u,
                t.field() == 1,
                t.named(d),
                t.value_w(d),
                d.opsize32,
            )
        }),
{
    crate::cpu::meaning::lemma_step(s, t, d, op);
    reveal(State::onebyte);
    reveal(State::onebyte_total);
    reveal(State::grp4);
    reveal(State::grp5);
    let w = d.opsize32;
    lemma_operand_w(s, t, d);
    let (x, kind, rm) = t.modrm(d);
    let dec = kind == 1;
    if op == 0xFE {
        let z = x.read_op8(rm).0;
        let a = t.value8(d) as u32;
        lemma_counted(z.cpu, a, dec, 0);
        let y = z.with_cpu(z.cpu.after_inc_dec(a, dec, 0));
        let v = crate::cpu::alu::inc_dec_value(a, dec, 0) as u8;
        assert(y.write_op8(rm, v) == y.write_op8(rm, v));
        assert(x.cpu.flag(CF) == s.cpu.flag(CF));
    } else {
        let z = x.read_op_w(rm, w).0;
        lemma_counted(z.cpu, t.value_w(d), dec, width(w));
        let y = z.with_cpu(z.cpu.after_inc_dec(t.value_w(d), dec, width(w)));
        let v = crate::cpu::alu::inc_dec_value(t.value_w(d), dec, width(w));
        assert(y.write_op_w(rm, v, w) == y.write_op_w(rm, v, w));
        assert(x.cpu.flag(CF) == s.cpu.flag(CF));
    }
}

/// NOT (F6 and F7 /2) turns every bit over and no flag; NEG (/3) takes the operand from
/// zero.
pub proof fn law_not_neg(s: State, t: State, d: Decoder, op: u8)
    requires
        s.instruction() == Some((t, d, op)),
        op == 0xF6 || op == 0xF7,
        t.field() == 2 || t.field() == 3,
    ensures
        ({
            let w = d.opsize32;
            let m = crate::bits::modulus(width(w));
            let b = t.value8(d);
            let a = t.value_w(d);
            &&& s.step() matches Some(u)
            &&& t.field() == 2 && op == 0xF6 ==> crate::cpu::meaning::stored8(s, u, t.named(d), 0xFF - b)
            &&& t.field() == 2 && op == 0xF7 ==> crate::cpu::meaning::stored_w(s, u, t.named(d), m - 1 - a, w)
            &&& t.field() == 3 && op == 0xF6 ==> exists|y: State|
                begun_but_flags(s, y) && y.cpu.flag(CF) == (b != 0) && u == #[trigger] y.write_op8(
                    t.named(d),
                    ((0x100 - b) % 0x100) as u8,
                )
            &&& t.field() == 3 && op == 0xF7 ==> exists|y: State|
                begun_but_flags(s, y) && y.cpu.flag(CF) == (a != 0) && u == #[trigger] y.write_op_w(
                    t.named(d),
                    ((m - a) % m) as u32,
                    w,
                )
        }),
{
    crate::cpu::meaning::lemma_step(s, t, d, op);
    reveal(State::onebyte);
    reveal(State::onebyte_total);
    reveal(State::grp3_byte);
    reveal(State::grp3_word);
    let w = d.opsize32;
    let m = crate::bits::modulus(width(w));
    lemma_operand_w(s, t, d);
    let (x, kind, rm) = t.modrm(d);
    let (a, b) = (t.value_w(d), t.value8(d));
    reveal(combined);
    lemma_complement(a, b);
    crate::cpu::meaning::lemma_low(!a);
    if op == 0xF6 {
        let z = x.read_op8(rm).0;
        law_operation(z.cpu, 5, 0, b as u32, 0);
        let c = z.cpu.after_alu(5, 0, b as u32, 0);
        lemma_carry_set(c, b != 0);
        let y = z.with_cpu(c.with_flag(CF, b != 0));
        assert(crate::cpu::alu::alu_value(z.cpu, 5, 0, b as u32, 0) == (0x100 - b) % 0x100);
        assert(y.write_op8(rm, ((0x100 - b) % 0x100) as u8) == y.write_op8(
            rm,
            ((0x100 - b) % 0x100) as u8,
        ));
        assert(z.write_op8(rm, !b) == z.write_op8(rm, (0xFF - b) as u8));
    } else {
        let z = x.read_op_w(rm, w).0;
        law_operation(z.cpu, 5, 0, a, width(w));
        let c = z.cpu.after_alu(5, 0, a, width(w));
        lemma_carry_set(c, a != 0);
        let y = z.with_cpu(c.with_flag(CF, a != 0));
        let r = ((m - a) % m) as u32;
        assert(crate::cpu::alu::alu_value(z.cpu, 5, 0, a, width(w)) == r);
        assert(y.write_op_w(rm, r, w) == y.write_op_w(rm, r, w));
        let n = (m - 1 - a) as u32;
        assert(z.write_op_w(rm, !a, w) == z.write_op_w(rm, n, w)) by {
            reveal(State::write_op_w);
            crate::cpu::meaning::lemma_low(n);
        }
    }
}

proof fn lemma_complement(a: u32, b: u8)
    by (bit_vector)
    ensures
        !a == 0xFFFF_FFFFu32 - a,
        !b == 0xFFu8 - b,
{
}

pub proof fn lemma_carry_set(c: Cpu, on: bool)
    ensures
        c.with_flag(CF, on).flag(CF) == on,
        c.with_flag(CF, on).regs == c.regs,
        but_flags(c, c.with_flag(CF, on)),
{
    crate::cpu::state::lemma_with_flag(c, CF, on);
    reveal(Cpu::with_flag);
    crate::cpu::alu::lemma_set_clear(c.eflags());
}

/// The flags do not depend on the registers.
pub proof fn lemma_flags_apart(c: Cpu, e: Cpu)
    requires
        e == (Cpu { regs: e.regs, ..c }),
    ensures
        e.eflags() == c.eflags(),
{
    reveal(Cpu::flags_now);
}

} // verus!
