//! Floating-point instructions: which operation on which registers of the stack, in
//! which order, and where the result goes.

use vstd::prelude::*;
use crate::cpu::float::{Arith, FloatOp, FloatRequest, FloatThen};
use crate::cpu::fpu::Fpu;
use crate::cpu::operand::{Decoder, Operand};
use crate::cpu::state::Cpu;
use crate::machine::State;

verus! {

/// A floating-point instruction runs on a machine that has such a unit.
pub open spec fn escapes(s: State, t: State, d: Decoder, op: u8) -> bool {
    &&& s.instruction() == Some((t, d, op))
    &&& !d.lock
    &&& 0xD8 <= op <= 0xDF
    &&& s.profile.has_fpu
}

/// An operation is asked for, and nothing else happens.
#[verifier::opaque]
pub open spec fn asks(s: State, op: FloatOp, a: u64, b: u64, target: FloatThen) -> bool {
    s.step() matches Some(u) && {
        &&& u.float_request == Some(FloatRequest { op, a: a as u128, b: b as u128, target })
        &&& crate::cpu::meaning::begun(State { float_request: u.float_request, ..s }, u)
    }
}

proof fn lemma_asks(s: State, x: State, op: FloatOp, a: u64, b: u64, target: FloatThen)
    requires
        crate::cpu::meaning::begun(s, x),
        s.step() == Some(x.float_asked(op, a as u128, b as u128, target)),
    ensures
        asks(s, op, a, b, target),
{
    reveal(asks);
}

proof fn lemma_escape(s: State, t: State, d: Decoder, op: u8)
    requires
        escapes(s, t, d, op),
    ensures
        ({
            let (x, reg, rm) = t.modrm(d);
            &&& crate::cpu::meaning::begun(s, x)
            &&& reg == t.field()
            &&& reg < 8
            &&& rm == t.named(d)
            &&& rm.wf()
            &&& rm is Reg <==> t.code(0) >= 0xC0
            &&& t.code(0) >= 0xC0 ==> rm == Operand::Reg((t.code(0) % 8) as usize) && s.step()
                == Some(x.fpu_reg(op, reg, (t.code(0) % 8) as usize))
            &&& rm is Mem ==> s.step() == Some(x.fpu_mem(op, reg, rm->addr))
        }),
{
    crate::cpu::meaning::lemma_step(s, t, d, op);
    crate::cpu::meaning::lemma_modrm(t, d);
    reveal(State::onebyte);
    reveal(State::onebyte_total);
    reveal(State::esc);
    reveal(State::fpu_exec);
}

/// Arithmetic between stack registers. With D8 the result goes to ST(0), with DC and DE
/// to ST(i), and DE pops. D8 E0+i takes ST(i) from ST(0) and D8 E8+i the other way
/// round; DC and DE E0+i take ST(i) from ST(0) and E8+i take ST(0) from ST(i). Division
/// goes the same way: D8 F0+i, DC and DE F0+i divide ST(0) by ST(i), F8+i ST(i) by ST(0).
pub proof fn law_register_arithmetic(s: State, t: State, d: Decoder, op: u8)
    requires
        escapes(s, t, d, op),
        op == 0xD8 || op == 0xDC || op == 0xDE,
        t.code(0) >= 0xC0,
    ensures
        ({
            let i = (t.code(0) % 8) as usize;
            let st0 = s.cpu.fpu.st(0);
            let sti = s.cpu.fpu.st(i);
            let to = if op == 0xD8 {
                FloatThen::SetSt { i: 0, pop: false }
            } else {
                FloatThen::SetSt { i, pop: op == 0xDE }
            };
            let b = t.code(0);
            &&& 0xC0 <= b <= 0xC7 ==> asks(s, FloatOp::Double(Arith::Add), st0, sti, to) || asks(
                s,
                FloatOp::Double(Arith::Add),
                sti,
                st0,
                to,
            )
            &&& 0xC8 <= b <= 0xCF ==> asks(s, FloatOp::Double(Arith::Mul), st0, sti, to) || asks(
                s,
                FloatOp::Double(Arith::Mul),
                sti,
                st0,
                to,
            )
            &&& 0xE0 <= b <= 0xE7 ==> asks(s, FloatOp::Double(Arith::Sub), st0, sti, to)
            &&& 0xE8 <= b <= 0xEF ==> asks(s, FloatOp::Double(Arith::Sub), sti, st0, to)
            &&& 0xF0 <= b <= 0xF7 ==> asks(s, FloatOp::Double(Arith::Div), st0, sti, to)
            &&& 0xF8 <= b ==> asks(s, FloatOp::Double(Arith::Div), sti, st0, to)
        }),
{
    lemma_escape(s, t, d, op);
    let x = t.modrm(d).0;
    let r = t.field() as usize;
    let i = (t.code(0) % 8) as usize;
    if r != 2 && r != 3 {
        let (st0, sti) = (s.cpu.fpu.st(0), s.cpu.fpu.st(i));
        let k = if r == 0 {
            Arith::Add
        } else if r == 1 {
            Arith::Mul
        } else if r == 4 || r == 5 {
            Arith::Sub
        } else {
            Arith::Div
        };
        let (a, b) = if r == 5 || r == 7 { (sti, st0) } else { (st0, sti) };
        let to = if op == 0xD8 {
            FloatThen::SetSt { i: 0, pop: false }
        } else {
            FloatThen::SetSt { i, pop: op == 0xDE }
        };
        if r == 0 || r == 1 {
            assert(x.fpu_reg(op, r, i) == x.float_asked(
                FloatOp::Double(k),
                a as u128,
                b as u128,
                to,
            ) || x.fpu_reg(op, r, i) == x.float_asked(
                FloatOp::Double(k),
                b as u128,
                a as u128,
                to,
            )) by {
                reveal(State::fpu_reg);
                reveal(State::fpu_arith);
                reveal(State::fpu_arith_to);
            }
            if x.fpu_reg(op, r, i) == x.float_asked(
                FloatOp::Double(k),
                b as u128,
                a as u128,
                to,
            ) {
                lemma_asks(s, x, FloatOp::Double(k), b, a, to);
            } else {
                lemma_asks(s, x, FloatOp::Double(k), a, b, to);
            }
        } else {
            assert(x.fpu_reg(op, r, i) == x.float_asked(
                FloatOp::Double(k),
                a as u128,
                b as u128,
                to,
            )) by {
                reveal(State::fpu_reg);
                reveal(State::fpu_arith);
                reveal(State::fpu_arith_to);
            }
            lemma_asks(s, x, FloatOp::Double(k), a, b, to);
        }
    }
}

/// The number of an operand in memory: D8 a single, DA a doubleword, DC a double and DE a
/// word.
pub open spec fn memory_number(s: State, op: u8, addr: u32) -> u64 {
    if op == 0xD8 {
        crate::cpu::float::widened(s.read32(addr).1)
    } else if op == 0xDA {
        crate::cpu::float::double_of(crate::bits::signed(s.read32(addr).1 as int, 2))
    } else if op == 0xDC {
        (s.read32(addr).1 + 0x1_0000_0000 * s.read32(addr.wrapping_add(4)).1) as u64
    } else {
        crate::cpu::float::double_of(crate::bits::signed(s.read16(addr).1 as int, 1))
    }
}

proof fn lemma_source(s: State, x: State, op: u8, addr: u32)
    requires
        crate::cpu::meaning::begun(s, x),
        op == 0xD8 || op == 0xDA || op == 0xDC || op == 0xDE,
    ensures
        crate::cpu::meaning::begun(s, x.fpu_source(op, addr).0),
        x.fpu_source(op, addr).1 == memory_number(s, op, addr),
{
    reveal(State::fpu_source);
    reveal(State::read64);
    crate::cpu::meaning::lemma_read_elsewhere(s, x, addr);
    crate::cpu::meaning::lemma_read_elsewhere(s, x, addr.wrapping_add(4));
    crate::machine::lemma_read_keeps(x, addr);
    let y = x.read32(addr).0;
    crate::machine::lemma_read_keeps(y, addr.wrapping_add(4));
    crate::cpu::meaning::lemma_read_elsewhere(s, y, addr.wrapping_add(4));
}

/// Arithmetic with an operand in memory: /0 adds it to ST(0), /1 multiplies, /4 takes it
/// from ST(0), /5 takes ST(0) from it, /6 divides ST(0) by it and /7 it by ST(0).
pub proof fn law_memory_arithmetic(s: State, t: State, d: Decoder, op: u8)
    requires
        escapes(s, t, d, op),
        op == 0xD8 || op == 0xDA || op == 0xDC || op == 0xDE,
        t.named(d) is Mem,
    ensures
        ({
            let st0 = s.cpu.fpu.st(0);
            let b = memory_number(s, op, t.named(d)->addr);
            let to = FloatThen::SetSt { i: 0, pop: false };
            &&& t.field() == 0 ==> asks(s, FloatOp::Double(Arith::Add), st0, b, to)
            &&& t.field() == 1 ==> asks(s, FloatOp::Double(Arith::Mul), st0, b, to)
            &&& t.field() == 4 ==> asks(s, FloatOp::Double(Arith::Sub), st0, b, to)
            &&& t.field() == 5 ==> asks(s, FloatOp::Double(Arith::Sub), b, st0, to)
            &&& t.field() == 6 ==> asks(s, FloatOp::Double(Arith::Div), st0, b, to)
            &&& t.field() == 7 ==> asks(s, FloatOp::Double(Arith::Div), b, st0, to)
        }),
{
    lemma_escape(s, t, d, op);
    reveal(State::fpu_mem);
    reveal(State::fpu_arith);
    reveal(asks);
    lemma_source(s, t.modrm(d).0, op, t.named(d)->addr);
}

/// The stack went down by some registers: ST(j) became ST(j - n).
pub open spec fn down(f: Fpu, g: Fpu, n: int) -> bool {
    &&& g.top % 8 == (f.top + n) % 8
    &&& forall|j: usize| n <= j < 8 ==> g.st((j - n) as usize) == #[trigger] f.st(j)
}

proof fn lemma_popped(f: Fpu)
    ensures
        down(f, f.popped(), 1),
        f.popped().cond == f.cond,
        f.popped().regs == f.regs,
{
    let g = f.popped();
    assert forall|j: usize| 1 <= j < 8 implies g.st((j - 1) as usize) == #[trigger] f.st(j) by {
        assert(g.phys((j - 1) as usize) == f.phys(j));
    }
}

proof fn lemma_popped_twice(f: Fpu)
    ensures
        down(f, f.popped().popped(), 2),
        f.popped().popped().cond == f.cond,
{
    let g = f.popped().popped();
    assert forall|j: usize| 2 <= j < 8 implies g.st((j - 2) as usize) == #[trigger] f.st(j) by {
        assert(g.phys((j - 2) as usize) == f.phys(j));
    }
}

/// One register was set and the others kept.
pub open spec fn only(f: Fpu, g: Fpu, i: usize, v: u64) -> bool {
    &&& g.top == f.top
    &&& g.st(i) == v
    &&& g.cond == f.cond
    &&& forall|j: usize| j < 8 && j != i ==> g.st(j) == #[trigger] f.st(j)
}

proof fn lemma_set(f: Fpu, i: usize, v: u64)
    requires
        i < 8,
    ensures
        only(f, f.with_st(i, v), i, v),
{
    let g = f.with_st(i, v);
    assert forall|j: usize| j < 8 && j != i implies g.st(j) == #[trigger] f.st(j) by {
        assert(g.phys(j) == f.phys(j));
        assert(f.phys(j) != f.phys(i));
    }
}

/// A number was pushed: it is ST(0), and what was ST(j) is ST(j + 1).
pub open spec fn up(f: Fpu, g: Fpu, v: u64) -> bool {
    &&& g.st(0) == v
    &&& g.top % 8 == (f.top + 7) % 8
    &&& g.cond == f.cond
    &&& forall|j: usize| j < 7 ==> g.st((j + 1) as usize) == #[trigger] f.st(j)
}

proof fn lemma_pushed(f: Fpu, v: u64)
    ensures
        up(f, f.pushed(v), v),
{
    let g = f.pushed(v);
    assert forall|j: usize| j < 7 implies g.st((j + 1) as usize) == #[trigger] f.st(j) by {
        assert(g.phys((j + 1) as usize) == f.phys(j));
        assert(f.phys(j) != g.top as usize);
    }
}

/// Nothing but the floating-point registers changed.
pub open spec fn but_stack(s: State, u: State) -> bool {
    crate::cpu::meaning::begun(s, State { cpu: Cpu { fpu: s.cpu.fpu, ..u.cpu }, ..u })
}

/// A result of the floating-point unit goes into ST(i), the stack is popped if the
/// request said so, and the request is gone.
pub proof fn law_answer(s: State, r: u64, second: u64, i: usize, pop: bool)
    requires
        s.float_request matches Some(q) && q.target == (FloatThen::SetSt { i, pop }),
        i < 8,
        pop ==> i > 0,
    ensures
        ({
            let u = s.float_completed(r as u128, second);
            let f = s.cpu.fpu;
            let g = u.cpu.fpu;
            &&& u.float_request is None
            &&& u == (State { cpu: Cpu { fpu: g, ..s.cpu }, float_request: None, ..s })
            &&& !pop ==> only(f, g, i, r)
            &&& pop ==> g.st((i - 1) as usize) == r && g.top % 8 == (f.top + 1) % 8
            &&& pop ==> forall|j: usize|
                0 < j < 8 && j != i ==> g.st((j - 1) as usize) == #[trigger] f.st(j)
        }),
{
    let f = s.cpu.fpu;
    let g = f.with_st(i, r);
    assert(s.float_completed(r as u128, second) == (State { float_request: None, ..s }).with_fpu(
        if pop {
            g.popped()
        } else {
            g
        },
    )) by {
        reveal(State::float_completed);
    }
    lemma_set(f, i, r);
    lemma_popped(g);
    if pop {
        assert(g.popped().st((i - 1) as usize) == g.st(i));
        assert forall|j: usize| 0 < j < 8 && j != i implies g.popped().st((j - 1) as usize)
            == #[trigger] f.st(j) by {
            assert(g.st(j) == f.st(j));
        }
    }
}

/// A double as a place among all doubles that are not NaN; the zeros are at one place.
pub open spec fn standing(v: u64) -> int {
    if v >= 0x8000_0000_0000_0000 {
        0x8000_0000_0000_0000 - v
    } else {
        v as int
    }
}

pub open spec fn not_a_number(v: u64) -> bool {
    v % 0x8000_0000_0000_0000 > 0x7FF0_0000_0000_0000
}

/// Bits of a word.
pub open spec fn has(v: u16, place: u16) -> bool {
    v as int / (place as int) % 2 == 1
}

proof fn lemma_conditions(c: u16)
    by (bit_vector)
    ensures
        ({
            let less = (c & !0x4500u16) | 0x0100;
            let same = (c & !0x4500u16) | 0x4000;
            let none = (c & !0x4500u16) | 0x4500;
            let more = c & !0x4500u16;
            &&& less / 0x100 % 2 == 1 && less / 0x400 % 2 == 0 && less / 0x4000 % 2 == 0
            &&& same / 0x100 % 2 == 0 && same / 0x400 % 2 == 0 && same / 0x4000 % 2 == 1
            &&& none / 0x100 % 2 == 1 && none / 0x400 % 2 == 1 && none / 0x4000 % 2 == 1
            &&& more / 0x100 % 2 == 0 && more / 0x400 % 2 == 0 && more / 0x4000 % 2 == 0
        }),
{
}

/// The conditions tell how two numbers compare: condition 0 says less, condition 3
/// equal, and 0, 2 and 3 together that there is no order.
pub open spec fn told(cond: u16, a: u64, b: u64) -> bool {
    let none = not_a_number(a) || not_a_number(b);
    &&& has(cond, 0x100) == (none || standing(a) < standing(b))
    &&& has(cond, 0x400) == none
    &&& has(cond, 0x4000) == (none || standing(a) == standing(b))
}

proof fn lemma_told(c: u16, a: u64, b: u64)
    ensures
        told(crate::cpu::fpu::compared(c, crate::cpu::float::order_of64(a, b)), a, b),
{
    lemma_conditions(c);
}

/// ST(0) was compared with a number and so many registers were popped.
#[verifier::opaque]
pub open spec fn tells(s: State, b: u64, pops: int) -> bool {
    s.step() matches Some(u) && {
        &&& told(u.cpu.fpu.cond, s.cpu.fpu.st(0), b)
        &&& down(s.cpu.fpu, u.cpu.fpu, pops)
        &&& but_stack(s, u)
    }
}

proof fn lemma_tells(s: State, x: State, b: u64, pops: nat)
    requires
        crate::cpu::meaning::begun(s, x),
        pops <= 2,
        s.step() == Some(x.fpu_compare(b, pops)),
    ensures
        tells(s, b, pops as int),
{
    reveal(tells);
    let f = s.cpu.fpu;
    let g = Fpu {
        cond: crate::cpu::fpu::compared(f.cond, crate::cpu::float::order_of64(f.st(0), b)),
        ..f
    };
    lemma_told(f.cond, f.st(0), b);
    lemma_popped(g);
    lemma_popped_twice(g);
    assert forall|j: usize| j < 8 implies g.st(j) == #[trigger] f.st(j) by {}
    assert(down(g, g.popped(), 1) ==> down(f, g.popped(), 1));
    assert(down(g, g.popped().popped(), 2) ==> down(f, g.popped().popped(), 2));
    assert(down(f, g, 0));
}

proof fn lemma_register_comparison(x: State, op: u8, reg: usize, i: usize)
    requires
        i < 8,
        reg < 8,
    ensures
        ({
            let y = x.fpu_reg(op, reg, i);
            let b = x.cpu.fpu.st(i);
            &&& (op == 0xD8 || op == 0xDC) && reg == 2 ==> y == x.fpu_compare(b, 0)
            &&& (op == 0xD8 || op == 0xDC) && reg == 3 ==> y == x.fpu_compare(b, 1)
            &&& op == 0xDE && reg == 2 ==> y == x.fpu_compare(b, 1)
            &&& op == 0xDD && reg == 4 ==> y == x.fpu_compare(b, 0)
            &&& op == 0xDD && reg == 5 ==> y == x.fpu_compare(b, 1)
            &&& op == 0xDA && reg == 5 && i == 1 ==> y == x.fpu_compare(b, 2)
            &&& op == 0xDE && reg == 3 && i == 1 ==> y == x.fpu_compare(b, 2)
            &&& op == 0xD9 && reg == 4 && i == 4 ==> y == x.fpu_compare(0, 0)
        }),
{
    reveal(State::fpu_reg);
    reveal(State::fpu_arith);
    reveal(State::fpu_unary);
}

/// The comparisons: D8 and DC D0+i, DD E0+i with ST(i); D8 and DC D8+i, DE D0+i and DD
/// E8+i with ST(i) and a pop; DA E9 and DE D9 with ST(1) and two pops; D9 E4 with zero.
pub proof fn law_register_comparison(s: State, t: State, d: Decoder, op: u8)
    requires
        escapes(s, t, d, op),
        t.code(0) >= 0xC0,
    ensures
        ({
            let b = t.code(0);
            let sti = s.cpu.fpu.st((b % 8) as usize);
            &&& (op == 0xD8 || op == 0xDC) && 0xD0 <= b <= 0xD7 ==> tells(s, sti, 0)
            &&& (op == 0xD8 || op == 0xDC) && 0xD8 <= b <= 0xDF ==> tells(s, sti, 1)
            &&& op == 0xDE && 0xD0 <= b <= 0xD7 ==> tells(s, sti, 1)
            &&& op == 0xDD && 0xE0 <= b <= 0xE7 ==> tells(s, sti, 0)
            &&& op == 0xDD && 0xE8 <= b <= 0xEF ==> tells(s, sti, 1)
            &&& op == 0xDA && b == 0xE9 || op == 0xDE && b == 0xD9 ==> tells(s, sti, 2)
            &&& op == 0xD9 && b == 0xE4 ==> tells(s, 0, 0)
        }),
{
    lemma_escape(s, t, d, op);
    let x = t.modrm(d).0;
    let b = t.code(0);
    let i = (b % 8) as usize;
    let sti = s.cpu.fpu.st(i);
    lemma_register_comparison(x, op, t.field() as usize, i);
    if (op == 0xD8 || op == 0xDC) && 0xD0 <= b <= 0xD7 || op == 0xDD && 0xE0 <= b <= 0xE7 {
        lemma_tells(s, x, sti, 0);
    } else if op == 0xD9 && b == 0xE4 {
        lemma_tells(s, x, 0, 0);
    } else if op == 0xDA && b == 0xE9 || op == 0xDE && b == 0xD9 {
        lemma_tells(s, x, sti, 2);
    } else if (op == 0xD8 || op == 0xDC) && 0xD8 <= b <= 0xDF || op == 0xDE && 0xD0 <= b <= 0xD7
        || op == 0xDD && 0xE8 <= b <= 0xEF {
        lemma_tells(s, x, sti, 1);
    }
}

/// The comparisons with an operand in memory: /2, and /3 with a pop.
pub proof fn law_memory_comparison(s: State, t: State, d: Decoder, op: u8)
    requires
        escapes(s, t, d, op),
        op == 0xD8 || op == 0xDA || op == 0xDC || op == 0xDE,
        t.named(d) is Mem,
        t.field() == 2 || t.field() == 3,
    ensures
        tells(s, memory_number(s, op, t.named(d)->addr), t.field() - 2),
{
    lemma_escape(s, t, d, op);
    reveal(State::fpu_mem);
    reveal(State::fpu_arith);
    let x = t.modrm(d).0;
    lemma_source(s, x, op, t.named(d)->addr);
    let y = x.fpu_source(op, t.named(d)->addr).0;
    lemma_tells(s, y, memory_number(s, op, t.named(d)->addr), (t.field() - 2) as nat);
}

/// A number was pushed, and nothing else happened.
#[verifier::opaque]
pub open spec fn pushes(s: State, v: u64) -> bool {
    s.step() matches Some(u) && up(s.cpu.fpu, u.cpu.fpu, v) && but_stack(s, u)
}

proof fn lemma_pushes(s: State, x: State, v: u64)
    requires
        crate::cpu::meaning::begun(s, x),
        s.step() == Some(x.with_fpu(x.cpu.fpu.pushed(v))),
    ensures
        pushes(s, v),
{
    reveal(pushes);
    lemma_pushed(s.cpu.fpu, v);
}

/// D9 C0+i pushes ST(i); D9 E8 to EE push one, the logarithms of ten and e to base two,
/// pi, the logarithms of two to base ten and e, and zero.
pub proof fn law_register_loads(s: State, t: State, d: Decoder, op: u8)
    requires
        escapes(s, t, d, op),
        op == 0xD9,
    ensures
        ({
            let b = t.code(0);
            &&& 0xC0 <= b <= 0xC7 ==> pushes(s, s.cpu.fpu.st((b % 8) as usize))
            &&& b == 0xE8 ==> pushes(s, 0x3FF0_0000_0000_0000)
            &&& b == 0xE9 ==> pushes(s, 0x400A_934F_0979_A371)
            &&& b == 0xEA ==> pushes(s, 0x3FF7_1547_652B_82FE)
            &&& b == 0xEB ==> pushes(s, 0x4009_21FB_5444_2D18)
            &&& b == 0xEC ==> pushes(s, 0x3FD3_4413_509F_79FF)
            &&& b == 0xED ==> pushes(s, 0x3FE6_2E42_FEFA_39EF)
            &&& b == 0xEE ==> pushes(s, 0)
        }),
{
    lemma_escape(s, t, d, op);
    let x = t.modrm(d).0;
    let b = t.code(0);
    let i = (b % 8) as usize;
    if 0xC0 <= b <= 0xC7 {
        assert(x.fpu_reg(op, 0, i) == x.with_fpu(x.cpu.fpu.pushed(x.cpu.fpu.st(i)))) by {
            reveal(State::fpu_reg);
        }
        lemma_pushes(s, x, s.cpu.fpu.st(i));
    } else if 0xE8 <= b <= 0xEE {
        let v = crate::cpu::fpu::constant(i);
        assert(x.fpu_reg(op, 5, i) == x.with_fpu(x.cpu.fpu.pushed(v))) by {
            reveal(State::fpu_reg);
            reveal(State::fpu_unary);
        }
        lemma_pushes(s, x, v);
    }
}

pub proof fn lemma_long(s: State, x: State, m: u32)
    requires
        crate::cpu::meaning::begun(s, x),
    ensures
        crate::cpu::meaning::begun(s, x.read64(m).0),
        x.read64(m).1 == s.read32(m).1 + 0x1_0000_0000 * s.read32(m.wrapping_add(4)).1,
        crate::cpu::meaning::begun(s, x.read32(m).0),
        x.read32(m).1 == s.read32(m).1,
        crate::cpu::meaning::begun(s, x.read16(m).0),
        x.read16(m).1 == s.read16(m).1,
{
    reveal(State::read64);
    crate::cpu::meaning::lemma_read_elsewhere(s, x, m);
    crate::machine::lemma_read_keeps(x, m);
    let y = x.read32(m).0;
    crate::machine::lemma_read_keeps(y, m.wrapping_add(4));
    crate::cpu::meaning::lemma_read_elsewhere(s, y, m.wrapping_add(4));
}

/// The loads from memory: D9 /0 a single, DD /0 a double, DF /0 a word, DB /0 a doubleword
/// and DF /5 eight bytes, the last three signed integers.
pub proof fn law_memory_loads(s: State, t: State, d: Decoder, op: u8)
    requires
        escapes(s, t, d, op),
        t.named(d) is Mem,
    ensures
        ({
            let m = t.named(d)->addr;
            let long = s.read32(m).1 + 0x1_0000_0000 * s.read32(m.wrapping_add(4)).1;
            &&& op == 0xD9 && t.field() == 0 ==> pushes(
                s,
                crate::cpu::float::widened(s.read32(m).1),
            )
            &&& op == 0xDD && t.field() == 0 ==> pushes(s, long as u64)
            &&& op == 0xDF && t.field() == 0 ==> pushes(
                s,
                crate::cpu::float::double_of(crate::bits::signed16(s.read16(m).1) as int),
            )
            &&& op == 0xDB && t.field() == 0 ==> pushes(
                s,
                crate::cpu::float::double_of(crate::bits::signed32(s.read32(m).1) as int),
            )
            &&& op == 0xDF && t.field() == 5 && long < 0x8000_0000_0000_0000 ==> pushes(
                s,
                crate::cpu::float::double_of_int64(long),
            )
            &&& op == 0xDF && t.field() == 5 && long >= 0x8000_0000_0000_0000 ==> pushes(
                s,
                crate::cpu::float::double_of_int64(long - 0x1_0000_0000_0000_0000),
            )
        }),
{
    lemma_escape(s, t, d, op);
    let x = t.modrm(d).0;
    let m = t.named(d)->addr;
    lemma_long(s, x, m);
    let long = (s.read32(m).1 + 0x1_0000_0000 * s.read32(m.wrapping_add(4)).1) as u64;
    let r = t.field() as usize;
    if r == 0 && (op == 0xD9 || op == 0xDB || op == 0xDD || op == 0xDF) || r == 5 && op == 0xDF {
        let v = if op == 0xD9 {
            crate::cpu::float::widened(s.read32(m).1)
        } else if op == 0xDD {
            long
        } else if op == 0xDB {
            crate::cpu::float::double_of(crate::bits::signed32(s.read32(m).1) as int)
        } else if r == 0 {
            crate::cpu::float::double_of(crate::bits::signed16(s.read16(m).1) as int)
        } else {
            crate::cpu::float::double_of_int64(
                if long >= 0x8000_0000_0000_0000 {
                    long - 0x1_0000_0000_0000_0000
                } else {
                    long as int
                },
            )
        };
        let y = if op == 0xD9 || op == 0xDB {
            x.read32(m).0
        } else if op == 0xDD || r == 5 {
            x.read64(m).0
        } else {
            x.read16(m).0
        };
        assert(x.fpu_mem(op, r, m) == y.with_fpu(y.cpu.fpu.pushed(v))) by {
            reveal(State::fpu_mem);
            reveal(State::fpu_transfer);
        }
        lemma_pushes(s, y, v);
    }
}

/// The stack became another, and nothing else happened.
pub open spec fn leaves(s: State, g: Fpu) -> bool {
    s.step() matches Some(u) && u.cpu.fpu == g && but_stack(s, u)
}

/// ST(0) and ST(i) were exchanged.
pub open spec fn exchanged(f: Fpu, g: Fpu, i: usize) -> bool {
    &&& g.top == f.top
    &&& g.st(0) == f.st(i)
    &&& g.st(i) == f.st(0)
    &&& forall|j: usize| 0 < j < 8 && j != i ==> g.st(j) == #[trigger] f.st(j)
}

/// ST(0) was copied to ST(i) and the stack popped.
pub open spec fn moved_down(f: Fpu, g: Fpu, i: usize) -> bool {
    &&& g.top % 8 == (f.top + 1) % 8
    &&& i > 0 ==> g.st((i - 1) as usize) == f.st(0)
    &&& forall|j: usize| 0 < j < 8 && j != i ==> g.st((j - 1) as usize) == #[trigger] f.st(j)
}

proof fn lemma_exchanged(f: Fpu, i: usize)
    requires
        i < 8,
    ensures
        exchanged(f, f.with_st(0, f.st(i)).with_st(i, f.st(0)), i),
{
    let h = f.with_st(0, f.st(i));
    let g = h.with_st(i, f.st(0));
    lemma_set(f, 0, f.st(i));
    lemma_set(h, i, f.st(0));
    assert forall|j: usize| 0 < j < 8 && j != i implies g.st(j) == #[trigger] f.st(j) by {
        assert(h.st(j) == f.st(j));
    }
    if i > 0 {
        assert(h.st(0) == f.st(i));
    }
}

proof fn lemma_moved_down(f: Fpu, i: usize)
    requires
        i < 8,
    ensures
        moved_down(f, f.with_st(i, f.st(0)).popped(), i),
{
    let h = f.with_st(i, f.st(0));
    let g = h.popped();
    lemma_set(f, i, f.st(0));
    lemma_popped(h);
    if i > 0 {
        assert(g.st((i - 1) as usize) == h.st(i));
    }
    assert forall|j: usize| 0 < j < 8 && j != i implies g.st((j - 1) as usize) == #[trigger] f.st(
        j,
    ) by {
        assert(h.st(j) == f.st(j));
    }
}

/// D9 C8+i exchanges ST(0) and ST(i).
pub proof fn law_exchange(s: State, t: State, d: Decoder, g: Fpu)
    requires
        escapes(s, t, d, 0xD9),
        0xC8 <= t.code(0) <= 0xCF,
        s.step() matches Some(u) && g == u.cpu.fpu,
    ensures
        leaves(s, g),
        exchanged(s.cpu.fpu, g, (t.code(0) % 8) as usize),
{
    lemma_escape(s, t, d, 0xD9);
    let i = (t.code(0) % 8) as usize;
    lemma_exchanged(s.cpu.fpu, i);
    reveal(State::fpu_reg);
}

/// DD D0+i copies ST(0) to ST(i), and D8+i pops besides.
pub proof fn law_copy(s: State, t: State, d: Decoder, g: Fpu)
    requires
        escapes(s, t, d, 0xDD),
        0xD0 <= t.code(0) <= 0xDF,
        s.step() matches Some(u) && g == u.cpu.fpu,
    ensures
        leaves(s, g),
        t.code(0) < 0xD8 ==> only(s.cpu.fpu, g, (t.code(0) % 8) as usize, s.cpu.fpu.st(0)),
        t.code(0) >= 0xD8 ==> moved_down(s.cpu.fpu, g, (t.code(0) % 8) as usize),
{
    lemma_escape(s, t, d, 0xDD);
    let i = (t.code(0) % 8) as usize;
    lemma_moved_down(s.cpu.fpu, i);
    lemma_set(s.cpu.fpu, i, s.cpu.fpu.st(0));
    reveal(State::fpu_reg);
}

/// D9 E0 turns the sign of ST(0) over and D9 E1 takes it away.
pub proof fn law_signs(s: State, t: State, d: Decoder, g: Fpu)
    requires
        escapes(s, t, d, 0xD9),
        t.code(0) == 0xE0 || t.code(0) == 0xE1,
        s.step() matches Some(u) && g == u.cpu.fpu,
    ensures
        leaves(s, g),
        only(s.cpu.fpu, g, 0, g.st(0)),
        t.code(0) == 0xE0 ==> standing(g.st(0)) == -standing(s.cpu.fpu.st(0)) && g.st(0)
            != s.cpu.fpu.st(0),
        t.code(0) == 0xE1 ==> g.st(0) == s.cpu.fpu.st(0) % 0x8000_0000_0000_0000,
{
    lemma_escape(s, t, d, 0xD9);
    let x = t.modrm(d).0;
    let i = (t.code(0) % 8) as usize;
    let st0 = s.cpu.fpu.st(0);
    let v = if i == 1 {
        (st0 % 0x8000_0000_0000_0000) as u64
    } else if st0 >= 0x8000_0000_0000_0000 {
        (st0 - 0x8000_0000_0000_0000) as u64
    } else {
        (st0 + 0x8000_0000_0000_0000) as u64
    };
    assert(x.fpu_reg(0xD9, 4, i) == x.with_fpu(x.cpu.fpu.with_st(0, v))) by {
        reveal(State::fpu_reg);
        reveal(State::fpu_unary);
    }
    lemma_set(s.cpu.fpu, 0, v);
}

/// The function of an opcode D9 F0 to FF, its second operand and where the result goes.
pub open spec fn function(b: u8, st0: u64, st1: u64) -> (FloatOp, u64, FloatThen) {
    let here = FloatThen::SetSt { i: 0, pop: false };
    let below = FloatThen::SetSt { i: 1, pop: true };
    if b == 0xF0 {
        (FloatOp::PowerOfTwoLess1, 0, here)
    } else if b == 0xF1 {
        (FloatOp::TimesLog2, st1, below)
    } else if b == 0xF2 {
        (FloatOp::Tangent, 0, FloatThen::SetPushOne)
    } else if b == 0xF3 {
        (FloatOp::ArcTangent, st1, below)
    } else if b == 0xF4 {
        (FloatOp::Extract, 0, FloatThen::SetPush { clears_c2: false })
    } else if b == 0xF5 {
        (FloatOp::NearestRemainder, st1, FloatThen::SetClearC2)
    } else if b == 0xF8 {
        (FloatOp::Remainder, st1, FloatThen::SetQuotient)
    } else if b == 0xF9 {
        (FloatOp::TimesLog2Plus1, st1, below)
    } else if b == 0xFA {
        (FloatOp::Double(Arith::Sqrt), st0, here)
    } else if b == 0xFB {
        (FloatOp::SineCosine, 0, FloatThen::SetPush { clears_c2: true })
    } else if b == 0xFE {
        (FloatOp::Sine, 0, FloatThen::SetClearC2)
    } else {
        (FloatOp::Cosine, 0, FloatThen::SetClearC2)
    }
}

proof fn lemma_function(x: State, r: usize, i: usize)
    requires
        r == 6 || r == 7,
        i < 8,
        r == 6 ==> i < 6,
        r == 7 ==> i != 4 && i != 5,
    ensures
        ({
            let (k, p, to) = function(
                (0xC0 + 8 * r + i) as u8,
                x.cpu.fpu.st(0),
                x.cpu.fpu.st(1),
            );
            x.fpu_reg(0xD9, r, i) == x.float_asked(k, x.cpu.fpu.st(0) as u128, p as u128, to)
        }),
{
    assert(x.fpu_reg(0xD9, r, i) == x.fpu_unary(r, i)) by {
        reveal(State::fpu_reg);
    }
    reveal(State::fpu_unary);
}

/// The functions: D9 F0 to FF, but for the moves of the stack pointer, rounding and
/// scaling, ask for the operation of ST(0), or of ST(0) and ST(1), that the opcode names.
pub proof fn law_functions(s: State, t: State, d: Decoder)
    requires
        escapes(s, t, d, 0xD9),
    ensures
        ({
            let b = t.code(0);
            let (k, second, to) = function(b, s.cpu.fpu.st(0), s.cpu.fpu.st(1));
            b >= 0xF0 && b != 0xF6 && b != 0xF7 && b != 0xFC && b != 0xFD ==> asks(
                s,
                k,
                s.cpu.fpu.st(0),
                second,
                to,
            )
        }),
{
    lemma_escape(s, t, d, 0xD9);
    let x = t.modrm(d).0;
    let (a, b) = (s.cpu.fpu.st(0), s.cpu.fpu.st(1));
    let m = t.code(0);
    if m >= 0xF0 && m != 0xF6 && m != 0xF7 && m != 0xFC && m != 0xFD {
        let (k, p, to) = function(m, a, b);
        let r: usize = if m < 0xF8 { 6 } else { 7 };
        assert(t.field() == r);
        lemma_function(x, r, (m % 8) as usize);
        lemma_asks(s, x, k, a, p, to);
    }
}

/// The conditional moves: DA C0+i when below, C8+i when equal, D0+i when below or equal,
/// D8+i when not ordered, and DB the same when not. ST(i) goes to ST(0).
pub proof fn law_conditional_moves(s: State, t: State, d: Decoder, op: u8, g: Fpu)
    requires
        escapes(s, t, d, op),
        op == 0xDA || op == 0xDB,
        0xC0 <= t.code(0) <= 0xDF,
        s.step() matches Some(u) && g == u.cpu.fpu,
    ensures
        ({
            let c = s.cpu.eflags() as int;
            let (carry, parity, zero) = (c % 2 == 1, c / 4 % 2 == 1, c / 64 % 2 == 1);
            let b = t.code(0);
            let holds = if b < 0xC8 {
                carry
            } else if b < 0xD0 {
                zero
            } else if b < 0xD8 {
                carry || zero
            } else {
                parity
            };
            let i = (b % 8) as usize;
            &&& leaves(s, g)
            &&& holds == (op == 0xDA) ==> only(s.cpu.fpu, g, 0, s.cpu.fpu.st(i))
            &&& holds != (op == 0xDA) ==> g == s.cpu.fpu
        }),
{
    lemma_escape(s, t, d, op);
    let x = t.modrm(d).0;
    let i = (t.code(0) % 8) as usize;
    lemma_set(s.cpu.fpu, 0, s.cpu.fpu.st(i));
    crate::cpu::meaning::lemma_flag_places(s.cpu.eflags());
    crate::cpu::meaning::arith::lemma_flags_stay(s.cpu, x.cpu);
    reveal(State::fpu_reg);
}

} // verus!
