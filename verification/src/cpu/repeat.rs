//! What a repeated string instruction does as a whole: where it stands after a page
//! fault, what it fills and what it copies.

use vstd::prelude::*;
use crate::cpu::operand::Decoder;
use crate::cpu::state::{Cpu, CX, DF, DI, SI};
use crate::cpu::string::element_size;
use crate::machine::{byte_of, State};

verus! {

/// The string instructions that work on memory alone.
pub open spec fn is_memory_string(op: u8) -> bool {
    0xA4 <= op <= 0xA7 || 0xAA <= op <= 0xAF
}

impl State {
    /// The count brought down by one.
    pub open spec fn count_down(self, d: Decoder) -> State {
        let cx = self.cpu.reg_w(CX, d.addrsize32).wrapping_sub(1);
        self.with_cpu(self.cpu.with_reg_w(CX, cx, d.addrsize32))
    }

    /// The state after so many elements, when none of them ends the instruction.
    #[verifier::opaque]
    pub open spec fn elements_done(self, d: Decoder, op: u8, n: nat) -> Option<State>
        decreases n,
    {
        if n == 0 {
            Some(self)
        } else {
            match self.string_once(d, op) {
                Some((t, false)) => t.count_down(d).elements_done(d, op, (n - 1) as nat),
                _ => None,
            }
        }
    }
}

/// An element either faults and leaves the processor alone, or is done without a
/// fault.
proof fn lemma_element(s: State, d: Decoder, op: u8)
    requires
        s.pending_fault is None,
        is_memory_string(op),
    ensures
        s.string_once(d, op) matches Some((t, ends)) && (if ends {
            t.pending_fault is Some && t.cpu == s.cpu
        } else {
            t.pending_fault is None && t.cpu.regs[CX as int] == s.cpu.regs[CX as int]
        }),
{
    reveal(State::string_once);
    reveal(State::read_element);
    reveal(State::write_element);
    reveal(Cpu::stepped);
    reveal(Cpu::after_compare);
    reveal(Cpu::with_element);
    reveal(Cpu::after_alu);
    let size = element_size(&d, op);
    let src = s.source(d);
    let dst = s.destination(d);
    crate::machine::lemma_read_keeps(s, src);
    crate::machine::lemma_read_keeps(s, dst);
    let s1 = s.read_element(src, size).0;
    crate::machine::lemma_read_keeps(s1, dst);
    crate::machine::lemma_write_keeps(s1, dst, s.read_element(src, size).1);
    crate::machine::lemma_write_keeps(s, dst, s.cpu.element(size));
}

/// A page fault in a repeated instruction leaves the registers where the elements
/// that were done have brought them: what is left of the count is what is still to
/// be done.
pub proof fn law_fault_keeps_place(s: State, d: Decoder, op: u8)
    requires
        is_memory_string(op),
        d.rep is Some,
        s.pending_fault is None,
        s.string_exec(d, op) matches Some(r) && r.pending_fault is Some,
    ensures
        s.string_exec(d, op) matches Some(r) && exists|n: nat|
            #[trigger] s.elements_done(d, op, n) matches Some(t) && t.pending_fault is None
                && r.cpu == t.cpu && r.cpu.reg_w(CX, d.addrsize32) == s.cpu.reg_w(
                CX,
                d.addrsize32,
            ) - n,
    decreases s.cpu.reg_w(CX, d.addrsize32),
{
    reveal_with_fuel(State::string_exec, 2);
    lemma_element(s, d, op);
    let (t, ends) = s.string_once(d, op)->0;
    if ends {
        reveal(State::elements_done);
        assert(s.elements_done(d, op, 0) == Some(s));
    } else {
        let u = t.count_down(d);
        crate::cpu::string::lemma_count_goes_down(s, d, op);
        law_fault_keeps_place(u, d, op);
        let r = u.string_exec(d, op)->0;
        let n = choose|n: nat|
            #[trigger] u.elements_done(d, op, n) matches Some(t) && t.pending_fault is None
                && r.cpu == t.cpu && r.cpu.reg_w(CX, d.addrsize32) == u.cpu.reg_w(
                CX,
                d.addrsize32,
            ) - n;
        assert(s.elements_done(d, op, n + 1) == u.elements_done(d, op, n)) by {
            reveal_with_fuel(State::elements_done, 2);
        }
        crate::cpu::state::law_register_read_back(
            t.cpu,
            CX,
            t.cpu.reg_w(CX, d.addrsize32).wrapping_sub(1),
        );
    }
}

/// What writing an element does to memory.
proof fn lemma_element_written(s: State, a: u32, v: u32, size: u32)
    requires
        size == 1 || size == 2 || size == 4,
        !s.cpu.pg(),
        a + size <= s.mem.len(),
        s.mem.len() <= 0x1_0000_0000,
    ensures
        ({
            let t = s.write_element(a, v, size);
            &&& t == (State { mem: t.mem, dcache: t.dcache, ..s })
            &&& t.mem.len() == s.mem.len()
            &&& forall|i: int|
                0 <= i < s.mem.len() ==> #[trigger] t.mem[i] == (if a <= i < a + size {
                    byte_of(v, (i - a) as u32)
                } else {
                    s.mem[i]
                })
        }),
{
    reveal(State::write_element);
    reveal(State::write8);
    reveal(State::write16);
    reveal(State::write32);
    reveal(State::translate);
    reveal(State::with_phys8);
    assert(byte_of(v, 0) == v as u8) by {
        lemma_low_byte(v);
    }
    assert(byte_of(v as u16 as u32, 0) == byte_of(v, 0) && byte_of(v as u16 as u32, 1) == byte_of(
        v,
        1,
    )) by {
        lemma_low_byte(v);
    }
}

pub proof fn lemma_low_byte(v: u32)
    by (bit_vector)
    ensures
        v as u8 as u32 == v % 0x100u32,
        v as u16 as u32 == v % 0x1_0000u32,
{
}

/// What reading an element gives.
proof fn lemma_element_read(s: State, a: u32, size: u32)
    requires
        size == 1 || size == 2 || size == 4,
        !s.cpu.pg(),
        a + size <= s.mem.len(),
        s.mem.len() <= 0x1_0000_0000,
    ensures
        s.read_element(a, size).0 == s,
        forall|b: int|
            0 <= b < size ==> byte_of(s.read_element(a, size).1, b as u32) == #[trigger] s.mem[a
                + b],
{
    reveal(State::read_element);
    reveal(State::read8);
    reveal(State::read16);
    reveal(State::read32);
    reveal(State::translate);
    reveal(State::phys8);
    if size == 4 {
        crate::machine::law_word_of_bytes(
            s.mem[a as int],
            s.mem[a + 1],
            s.mem[a + 2],
            s.mem[a + 3],
        );
    }
}

impl State {
    /// The instruction runs over memory from low addresses to high, and no address
    /// is translated.
    #[verifier::opaque]
    pub open spec fn runs_up(self, d: Decoder) -> bool {
        &&& d.rep is Some
        &&& d.addrsize32
        &&& self.cpu.pe()
        &&& !self.cpu.pg()
        &&& !self.cpu.flag(DF)
        &&& self.pending_fault is None
    }

    /// Only memory, what is kept of decoded code and the registers differ.
    #[verifier::opaque]
    pub open spec fn same_but_data(self, s: State) -> bool {
        self == (State {
            mem: self.mem,
            dcache: self.dcache,
            cpu: Cpu { regs: self.cpu.regs, ..s.cpu },
            ..s
        })
    }
}

proof fn lemma_same_on(s: State, t: State, u: State)
    requires
        t.same_but_data(s),
        u.same_but_data(t),
    ensures
        u.same_but_data(s),
{
    reveal(State::same_but_data);
}

/// The registers after a fill or a copy of `n` bytes: the count is used up, the
/// index registers are behind the last element, the others are as they were.
pub open spec fn used_up(before: Cpu, after: Cpu, copies: bool, n: int) -> bool {
    &&& after.regs[CX as int] == 0
    &&& moved_on(before.regs[DI as int], after.regs[DI as int], n)
    &&& copies ==> moved_on(before.regs[SI as int], after.regs[SI as int], n)
    &&& forall|r: int|
        0 <= r < 8 && r != CX && r != DI && !(copies && r == SI) ==> #[trigger] after.regs[r]
            == before.regs[r]
}

/// An index that was moved on by `n` bytes.
#[verifier::opaque]
pub open spec fn moved_on(from: u32, to: u32, n: int) -> bool {
    to == (from + n) % 0x1_0000_0000
}

proof fn lemma_moved_on(a: u32, b: u32, c: u32, m: int, n: int)
    requires
        moved_on(a, b, m),
        moved_on(b, c, n),
    ensures
        moved_on(a, c, m + n),
{
    reveal(moved_on);
}

pub proof fn lemma_moved(c: Cpu, reg: usize, by: u32)
    requires
        reg < 8,
        !c.flag(DF),
    ensures
        c.stepped(reg, true, by) == c.with_reg(reg, c.regs[reg as int].wrapping_add(by)),
        !c.stepped(reg, true, by).flag(DF),
        forall|v: u32| !(#[trigger] c.with_reg(reg, v)).flag(DF),
{
    reveal(Cpu::stepped);
    reveal(Cpu::flags_now);
}

/// The state after one element of a fill.
#[verifier::opaque]
spec fn fill_next(s: State, d: Decoder, op: u8) -> State {
    let size = element_size(&d, op);
    let t = s.write_element(s.destination(d), s.cpu.element(size), size);
    t.with_cpu(
        s.cpu.with_reg(DI, s.cpu.regs[DI as int].wrapping_add(size)).with_reg(
            CX,
            s.cpu.regs[CX as int].wrapping_sub(1),
        ),
    )
}

proof fn lemma_fill_once(s: State, d: Decoder, op: u8)
    requires
        op == 0xAA || op == 0xAB,
        s.runs_up(d),
        s.destination(d) + element_size(&d, op) <= s.mem.len(),
        s.mem.len() <= 0x1_0000_0000,
        s.cpu.regs[CX as int] > 0,
    ensures
        ({
            let u = fill_next(s, d, op);
            s.string_exec(d, op) == (if s.cpu.regs[CX as int] == 1 {
                Some(u)
            } else {
                u.string_exec(d, op)
            })
        }),
{
    reveal(State::runs_up);
    reveal(State::same_but_data);
    reveal(fill_next);
    let size = element_size(&d, op);
    lemma_element_written(s, s.destination(d), s.cpu.element(size), size);
    lemma_moved(s.cpu, DI, size);
    reveal(State::string_once);
    reveal_with_fuel(State::string_exec, 2);
}

proof fn lemma_fill_next(s: State, d: Decoder, op: u8)
    requires
        op == 0xAA || op == 0xAB,
        s.runs_up(d),
        s.destination(d) + element_size(&d, op) <= s.mem.len(),
        s.mem.len() <= 0x1_0000_0000,
        s.cpu.regs[CX as int] > 0,
    ensures
        ({
            let u = fill_next(s, d, op);
            let size = element_size(&d, op);
            &&& u.runs_up(d)
            &&& u.destination(d) == (s.destination(d) + size) % 0x1_0000_0000
            &&& u.cpu.element(size) == s.cpu.element(size)
            &&& u.same_but_data(s)
            &&& u.cpu.regs[CX as int] == s.cpu.regs[CX as int] - 1
            &&& moved_on(s.cpu.regs[DI as int], u.cpu.regs[DI as int], size as int)
            &&& forall|r: int|
                0 <= r < 8 && r != CX && r != DI ==> #[trigger] u.cpu.regs[r] == s.cpu.regs[r]
        }),
{
    reveal(moved_on);
    reveal(State::runs_up);
    reveal(State::same_but_data);
    reveal(fill_next);
    let size = element_size(&d, op);
    lemma_element_written(s, s.destination(d), s.cpu.element(size), size);
    let c1 = s.cpu.with_reg(DI, s.cpu.regs[DI as int].wrapping_add(size));
    lemma_moved(s.cpu, DI, size);
    lemma_moved(c1, CX, 0);
    reveal(Cpu::element);
}

/// Memory with `n` bytes from `dst` on filled with a value of `size` bytes.
pub open spec fn filled(
    before: Seq<u8>,
    after: Seq<u8>,
    dst: int,
    n: int,
    v: u32,
    size: int,
) -> bool {
    &&& after.len() == before.len()
    &&& forall|i: int|
        0 <= i < before.len() ==> #[trigger] after[i] == (if dst <= i < dst + n {
            byte_of(v, ((i - dst) % size) as u32)
        } else {
            before[i]
        })
}

proof fn lemma_filled_on(a: Seq<u8>, b: Seq<u8>, c: Seq<u8>, dst: int, n: int, v: u32, size: int)
    requires
        size > 0,
        n >= size,
        filled(a, b, dst, size, v, size),
        filled(b, c, dst + size, n - size, v, size),
    ensures
        filled(a, c, dst, n, v, size),
{
    assert forall|i: int| 0 <= i < a.len() implies #[trigger] c[i] == (if dst <= i < dst + n {
        byte_of(v, ((i - dst) % size) as u32)
    } else {
        a[i]
    }) by {
        assert(b[i] == b[i]);
        if dst + size <= i < dst + n {
            vstd::arithmetic::div_mod::lemma_mod_add_multiples_vanish(i - dst - size, size);
        }
    }
}

proof fn lemma_fill_bytes(s: State, d: Decoder, op: u8)
    requires
        op == 0xAA || op == 0xAB,
        s.runs_up(d),
        s.destination(d) + element_size(&d, op) <= s.mem.len(),
        s.mem.len() <= 0x1_0000_0000,
    ensures
        ({
            let u = fill_next(s, d, op);
            let size = element_size(&d, op);
            filled(
                s.mem,
                u.mem,
                s.destination(d) as int,
                size as int,
                s.cpu.element(size),
                size as int,
            )
        }),
{
    reveal(State::runs_up);
    reveal(State::same_but_data);
    reveal(fill_next);
    let size = element_size(&d, op);
    let dst = s.destination(d);
    lemma_element_written(s, dst, s.cpu.element(size), size);
    let u = fill_next(s, d, op);
    assert forall|i: int| 0 <= i < s.mem.len() implies #[trigger] u.mem[i] == (if dst <= i < dst
        + size {
        byte_of(s.cpu.element(size), ((i - dst) % (size as int)) as u32)
    } else {
        s.mem[i]
    }) by {
        if dst <= i < dst + size {
            vstd::arithmetic::div_mod::lemma_small_mod((i - dst) as nat, size as nat);
        }
    }
}

proof fn lemma_fill(s: State, d: Decoder, op: u8, size: u32, dst: u32, cx: u32, n: int)
    requires
        op == 0xAA || op == 0xAB,
        s.runs_up(d),
        size == element_size(&d, op),
        dst == s.destination(d),
        cx == s.cpu.regs[CX as int],
        n == size * cx,
        dst + n <= s.mem.len(),
        s.mem.len() <= 0x1_0000_0000,
        cx > 0,
    ensures
        s.string_exec(d, op) matches Some(t) && t.same_but_data(s) && filled(
            s.mem,
            t.mem,
            dst as int,
            n,
            s.cpu.element(size),
            size as int,
        ) && used_up(s.cpu, t.cpu, false, n),
    decreases cx,
{
    let left = n - size;
    assert(left == size * (cx - 1) && (cx > 1 ==> left >= size) && (cx == 1 ==> left == 0))
        by (nonlinear_arith)
        requires
            n == size * cx,
            left == n - size,
            cx > 0,
            size > 0,
    ;
    lemma_fill_once(s, d, op);
    lemma_fill_next(s, d, op);
    lemma_fill_bytes(s, d, op);
    let u = fill_next(s, d, op);
    if cx > 1 {
        lemma_fill(u, d, op, size, (dst + size) as u32, (cx - 1) as u32, left);
        let t = u.string_exec(d, op)->0;
        lemma_moved_on(
            s.cpu.regs[DI as int],
            u.cpu.regs[DI as int],
            t.cpu.regs[DI as int],
            size as int,
            left,
        );
        lemma_same_on(s, u, t);
        lemma_filled_on(s.mem, u.mem, t.mem, dst as int, n, s.cpu.element(size), size as int);
    }
}

/// A repeated STOS fills memory with the accumulator, as far as the count goes, and
/// changes nothing else but the two registers.
pub proof fn law_fill(s: State, d: Decoder, op: u8)
    requires
        op == 0xAA || op == 0xAB,
        s.runs_up(d),
        s.destination(d) + element_size(&d, op) * s.cpu.regs[CX as int] <= s.mem.len(),
        s.mem.len() <= 0x1_0000_0000,
    ensures
        ({
            let size = element_size(&d, op);
            let n = size * s.cpu.regs[CX as int];
            s.string_exec(d, op) matches Some(t) && t.same_but_data(s) && filled(
                s.mem,
                t.mem,
                s.destination(d) as int,
                n,
                s.cpu.element(size),
                size as int,
            ) && used_up(s.cpu, t.cpu, false, n)
        }),
{
    let size = element_size(&d, op);
    let cx = s.cpu.regs[CX as int];
    if cx == 0 {
        assert(size * cx == 0);
        reveal(State::string_exec);
        reveal(State::runs_up);
        reveal(State::same_but_data);
        reveal(moved_on);
    } else {
        lemma_fill(s, d, op, size, s.destination(d), cx, size * cx);
    }
}

/// The state after one element of a copy.
#[verifier::opaque]
spec fn copy_next(s: State, d: Decoder, op: u8) -> State {
    let size = element_size(&d, op);
    let v = s.read_element(s.source(d), size).1;
    let t = s.write_element(s.destination(d), v, size);
    let c1 = s.cpu.with_reg(SI, s.cpu.regs[SI as int].wrapping_add(size));
    let c2 = c1.with_reg(DI, s.cpu.regs[DI as int].wrapping_add(size));
    t.with_cpu(c2.with_reg(CX, s.cpu.regs[CX as int].wrapping_sub(1)))
}

proof fn lemma_copy_once(s: State, d: Decoder, op: u8)
    requires
        op == 0xA4 || op == 0xA5,
        s.runs_up(d),
        s.source(d) + element_size(&d, op) <= s.mem.len(),
        s.destination(d) + element_size(&d, op) <= s.mem.len(),
        s.mem.len() <= 0x1_0000_0000,
        s.cpu.regs[CX as int] > 0,
    ensures
        ({
            let u = copy_next(s, d, op);
            s.string_exec(d, op) == (if s.cpu.regs[CX as int] == 1 {
                Some(u)
            } else {
                u.string_exec(d, op)
            })
        }),
{
    reveal(State::runs_up);
    reveal(State::same_but_data);
    reveal(copy_next);
    let size = element_size(&d, op);
    lemma_element_read(s, s.source(d), size);
    let v = s.read_element(s.source(d), size).1;
    lemma_element_written(s, s.destination(d), v, size);
    lemma_moved(s.cpu, SI, size);
    lemma_moved(s.cpu.with_reg(SI, s.cpu.regs[SI as int].wrapping_add(size)), DI, size);
    reveal(State::string_once);
    reveal_with_fuel(State::string_exec, 2);
}

proof fn lemma_copy_next(s: State, d: Decoder, op: u8)
    requires
        op == 0xA4 || op == 0xA5,
        s.runs_up(d),
        s.source(d) + element_size(&d, op) <= s.mem.len(),
        s.destination(d) + element_size(&d, op) <= s.mem.len(),
        s.mem.len() <= 0x1_0000_0000,
        s.cpu.regs[CX as int] > 0,
    ensures
        ({
            let u = copy_next(s, d, op);
            let size = element_size(&d, op);
            &&& u.runs_up(d)
            &&& u.source(d) == (s.source(d) + size) % 0x1_0000_0000
            &&& u.destination(d) == (s.destination(d) + size) % 0x1_0000_0000
            &&& u.same_but_data(s)
            &&& u.cpu.regs[CX as int] == s.cpu.regs[CX as int] - 1
            &&& moved_on(s.cpu.regs[SI as int], u.cpu.regs[SI as int], size as int)
            &&& moved_on(s.cpu.regs[DI as int], u.cpu.regs[DI as int], size as int)
            &&& forall|r: int|
                0 <= r < 8 && r != CX && r != SI && r != DI ==> #[trigger] u.cpu.regs[r]
                    == s.cpu.regs[r]
        }),
{
    reveal(moved_on);
    reveal(State::runs_up);
    reveal(State::same_but_data);
    reveal(copy_next);
    let size = element_size(&d, op);
    lemma_element_written(s, s.destination(d), s.read_element(s.source(d), size).1, size);
    let c1 = s.cpu.with_reg(SI, s.cpu.regs[SI as int].wrapping_add(size));
    let c2 = c1.with_reg(DI, s.cpu.regs[DI as int].wrapping_add(size));
    lemma_moved(s.cpu, SI, size);
    lemma_moved(c1, DI, size);
    lemma_moved(c2, CX, 0);
}

/// Memory with `n` bytes copied from `src` to `dst`.
pub open spec fn copied(before: Seq<u8>, after: Seq<u8>, src: int, dst: int, n: int) -> bool {
    &&& after.len() == before.len()
    &&& forall|i: int|
        0 <= i < before.len() ==> #[trigger] after[i] == (if dst <= i < dst + n {
            before[src + (i - dst)]
        } else {
            before[i]
        })
}

proof fn lemma_copied_on(a: Seq<u8>, b: Seq<u8>, c: Seq<u8>, src: int, dst: int, n: int, size: int)
    requires
        0 < size <= n,
        0 <= src,
        0 <= dst,
        src + n <= a.len(),
        dst <= src || src + n <= dst,
        copied(a, b, src, dst, size),
        copied(b, c, src + size, dst + size, n - size),
    ensures
        copied(a, c, src, dst, n),
{
    assert forall|i: int| 0 <= i < a.len() implies #[trigger] c[i] == (if dst <= i < dst + n {
        a[src + (i - dst)]
    } else {
        a[i]
    }) by {
        assert(b[i] == b[i]);
        if dst + size <= i < dst + n {
            assert(b[src + (i - dst)] == a[src + (i - dst)]);
        }
    }
}

proof fn lemma_copy_bytes(s: State, d: Decoder, op: u8)
    requires
        op == 0xA4 || op == 0xA5,
        s.runs_up(d),
        s.source(d) + element_size(&d, op) <= s.mem.len(),
        s.destination(d) + element_size(&d, op) <= s.mem.len(),
        s.mem.len() <= 0x1_0000_0000,
    ensures
        copied(
            s.mem,
            copy_next(s, d, op).mem,
            s.source(d) as int,
            s.destination(d) as int,
            element_size(&d, op) as int,
        ),
{
    reveal(State::runs_up);
    reveal(State::same_but_data);
    reveal(copy_next);
    let size = element_size(&d, op);
    lemma_element_read(s, s.source(d), size);
    lemma_element_written(s, s.destination(d), s.read_element(s.source(d), size).1, size);
}

proof fn lemma_copy(s: State, d: Decoder, op: u8, size: u32, src: u32, dst: u32, cx: u32, n: int)
    requires
        op == 0xA4 || op == 0xA5,
        s.runs_up(d),
        size == element_size(&d, op),
        src == s.source(d),
        dst == s.destination(d),
        cx == s.cpu.regs[CX as int],
        n == size * cx,
        src + n <= s.mem.len(),
        dst + n <= s.mem.len(),
        s.mem.len() <= 0x1_0000_0000,
        dst <= src || src + n <= dst,
        cx > 0,
    ensures
        s.string_exec(d, op) matches Some(t) && t.same_but_data(s) && copied(
            s.mem,
            t.mem,
            src as int,
            dst as int,
            n,
        ) && used_up(s.cpu, t.cpu, true, n),
    decreases cx,
{
    let left = n - size;
    assert(left == size * (cx - 1) && (cx > 1 ==> left >= size) && (cx == 1 ==> left == 0))
        by (nonlinear_arith)
        requires
            n == size * cx,
            left == n - size,
            cx > 0,
            size > 0,
    ;
    lemma_copy_once(s, d, op);
    lemma_copy_next(s, d, op);
    lemma_copy_bytes(s, d, op);
    let u = copy_next(s, d, op);
    if cx > 1 {
        lemma_copy(u, d, op, size, (src + size) as u32, (dst + size) as u32, (cx - 1) as u32, left);
        let t = u.string_exec(d, op)->0;
        lemma_moved_on(
            s.cpu.regs[SI as int],
            u.cpu.regs[SI as int],
            t.cpu.regs[SI as int],
            size as int,
            left,
        );
        lemma_moved_on(
            s.cpu.regs[DI as int],
            u.cpu.regs[DI as int],
            t.cpu.regs[DI as int],
            size as int,
            left,
        );
        lemma_same_on(s, u, t);
        lemma_copied_on(s.mem, u.mem, t.mem, src as int, dst as int, n, size as int);
    }
}

/// A repeated MOVS copies memory as far as the count goes, when the copy does not
/// run into what it has still to read, and changes nothing else but the three
/// registers.
pub proof fn law_copy(s: State, d: Decoder, op: u8)
    requires
        op == 0xA4 || op == 0xA5,
        s.runs_up(d),
        s.source(d) + element_size(&d, op) * s.cpu.regs[CX as int] <= s.mem.len(),
        s.destination(d) + element_size(&d, op) * s.cpu.regs[CX as int] <= s.mem.len(),
        s.mem.len() <= 0x1_0000_0000,
        s.destination(d) <= s.source(d) || s.source(d) + element_size(&d, op)
            * s.cpu.regs[CX as int] <= s.destination(d),
    ensures
        ({
            let n = element_size(&d, op) * s.cpu.regs[CX as int];
            s.string_exec(d, op) matches Some(t) && t.same_but_data(s) && copied(
                s.mem,
                t.mem,
                s.source(d) as int,
                s.destination(d) as int,
                n,
            ) && used_up(s.cpu, t.cpu, true, n)
        }),
{
    let size = element_size(&d, op);
    let cx = s.cpu.regs[CX as int];
    if cx == 0 {
        assert(size * cx == 0);
        reveal(State::string_exec);
        reveal(State::runs_up);
        reveal(State::same_but_data);
        reveal(moved_on);
    } else {
        lemma_copy(s, d, op, size, s.source(d), s.destination(d), cx, size * cx);
    }
}

/// The instruction without its repetition.
pub open spec fn single(d: Decoder) -> Decoder {
    Decoder { rep: None, ..d }
}

/// An element of a repeated instruction is the instruction by itself.
pub proof fn law_element_is_single(s: State, d: Decoder, op: u8)
    requires
        s.pending_fault is None,
        is_memory_string(op),
    ensures
        s.string_once(d, op) matches Some((t, ends)) && s.string_exec(single(d), op) == Some(t),
{
    lemma_element(s, d, op);
    lemma_once_single(s, d, op);
    assert(s.string_exec(single(d), op) == Some((s.string_once(single(d), op)->0).0)) by {
        reveal(State::string_exec);
    }
}

#[verifier::spinoff_prover]
proof fn lemma_once_single(s: State, d: Decoder, op: u8)
    requires
        is_memory_string(op),
    ensures
        s.string_once(single(d), op) == s.string_once(d, op),
{
    let e = single(d);
    assert(element_size(&e, op) == element_size(&d, op));
    assert(s.source(e) == s.source(d));
    assert(s.destination(e) == s.destination(d));
    reveal(State::string_once);
}

/// A repeated move, fill or load is as many elements as the count says, one after
/// the other, wherever they lie and whatever the pages are, when none of them faults.
pub proof fn law_repeat_is_elements(s: State, d: Decoder, op: u8)
    requires
        op == 0xA4 || op == 0xA5 || 0xAA <= op <= 0xAD,
        d.rep is Some,
        s.pending_fault is None,
        s.elements_done(d, op, s.cpu.reg_w(CX, d.addrsize32) as nat) is Some,
    ensures
        s.string_exec(d, op) == s.elements_done(d, op, s.cpu.reg_w(CX, d.addrsize32) as nat),
    decreases s.cpu.reg_w(CX, d.addrsize32),
{
    reveal_with_fuel(State::string_exec, 2);
    reveal_with_fuel(State::elements_done, 2);
    let cx = s.cpu.reg_w(CX, d.addrsize32);
    if cx > 0 {
        lemma_element(s, d, op);
        let (t, ends) = s.string_once(d, op)->0;
        let u = t.count_down(d);
        crate::cpu::string::lemma_count_goes_down(s, d, op);
        crate::cpu::state::law_register_read_back(
            t.cpu,
            CX,
            t.cpu.reg_w(CX, d.addrsize32).wrapping_sub(1),
        );
        assert(u.cpu.reg_w(CX, d.addrsize32) == cx - 1);
        law_repeat_is_elements(u, d, op);
    }
}

/// Memory with `n` bytes from `dst` on that repeat those from `src` up to `dst`.
pub open spec fn spread(before: Seq<u8>, after: Seq<u8>, src: int, dst: int, n: int) -> bool {
    &&& after.len() == before.len()
    &&& forall|i: int|
        0 <= i < before.len() ==> #[trigger] after[i] == (if dst <= i < dst + n {
            before[src + (i - dst) % (dst - src)]
        } else {
            before[i]
        })
}

proof fn lemma_spread_on(a: Seq<u8>, b: Seq<u8>, c: Seq<u8>, src: int, dst: int, n: int)
    requires
        0 <= src < dst,
        0 < n,
        dst + n <= a.len(),
        copied(a, b, src, dst, 1),
        spread(b, c, src + 1, dst + 1, n - 1),
    ensures
        spread(a, c, src, dst, n),
{
    let d = dst - src;
    assert forall|i: int| 0 <= i < a.len() implies #[trigger] c[i] == (if dst <= i < dst + n {
        a[src + (i - dst) % d]
    } else {
        a[i]
    }) by {
        assert(b[i] == b[i]);
        if i == dst {
            vstd::arithmetic::div_mod::lemma_small_mod(0, d as nat);
        } else if dst < i < dst + n {
            let k = i - dst - 1;
            lemma_next_in_turn(k, d);
            vstd::arithmetic::div_mod::lemma_mod_bound(k, d);
            let at = src + 1 + k % d;
            assert(c[i] == b[at]);
            if k % d < d - 1 {
                assert(b[at] == a[at]);
            } else {
                assert(at == dst);
                assert(b[at] == a[src]);
            }
        }
    }
}

pub proof fn lemma_next_in_turn(k: int, d: int)
    requires
        0 <= k,
        0 < d,
    ensures
        (k + 1) % d == (if k % d < d - 1 {
            k % d + 1
        } else {
            0
        }),
{
    vstd::arithmetic::div_mod::lemma_fundamental_div_mod(k, d);
    vstd::arithmetic::div_mod::lemma_mod_bound(k, d);
    let q = k / d;
    if k % d < d - 1 {
        vstd::arithmetic::div_mod::lemma_mod_multiples_vanish(q, k % d + 1, d);
        vstd::arithmetic::div_mod::lemma_small_mod((k % d + 1) as nat, d as nat);
    } else {
        assert(d * q + d == d * (q + 1)) by (nonlinear_arith);
        vstd::arithmetic::div_mod::lemma_mod_multiples_vanish(q + 1, 0, d);
        vstd::arithmetic::div_mod::lemma_small_mod(0, d as nat);
    }
}

/// A repeated MOVSB to a place above the one that it reads spreads the bytes from
/// the source up to the destination: with the destination one above the source, the
/// first byte fills all of it.
pub proof fn law_copy_upon_itself(s: State, d: Decoder)
    requires
        s.runs_up(d),
        s.source(d) < s.destination(d),
        s.destination(d) + s.cpu.regs[CX as int] <= s.mem.len(),
        s.mem.len() <= 0x1_0000_0000,
    ensures
        s.string_exec(d, 0xA4) matches Some(t) && t.same_but_data(s) && spread(
            s.mem,
            t.mem,
            s.source(d) as int,
            s.destination(d) as int,
            s.cpu.regs[CX as int] as int,
        ) && used_up(s.cpu, t.cpu, true, s.cpu.regs[CX as int] as int),
    decreases s.cpu.regs[CX as int],
{
    let cx = s.cpu.regs[CX as int];
    let src = s.source(d);
    let dst = s.destination(d);
    if cx == 0 {
        reveal(State::string_exec);
        reveal(State::runs_up);
        reveal(State::same_but_data);
        reveal(moved_on);
    } else {
        lemma_copy_once(s, d, 0xA4);
        lemma_copy_next(s, d, 0xA4);
        lemma_copy_bytes(s, d, 0xA4);
        let u = copy_next(s, d, 0xA4);
        if cx > 1 {
            law_copy_upon_itself(u, d);
            let t = u.string_exec(d, 0xA4)->0;
            lemma_same_on(s, u, t);
            lemma_moved_on(
                s.cpu.regs[SI as int],
                u.cpu.regs[SI as int],
                t.cpu.regs[SI as int],
                1,
                cx - 1,
            );
            lemma_moved_on(
                s.cpu.regs[DI as int],
                u.cpu.regs[DI as int],
                t.cpu.regs[DI as int],
                1,
                cx - 1,
            );
            lemma_spread_on(s.mem, u.mem, t.mem, src as int, dst as int, cx as int);
        } else {
            assert(spread(u.mem, u.mem, src + 1, dst + 1, 0));
            lemma_spread_on(s.mem, u.mem, u.mem, src as int, dst as int, 1);
        }
    }
}

} // verus!
