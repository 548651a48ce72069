//! What the instructions do, said of their bytes and of the registers and memory
//! before and after: sums, products, quotients, moves, jumps and tables, as numbers.

pub mod arith;
pub mod divide;
pub mod lanes;
pub mod system;
pub mod x87;

use vstd::prelude::*;
use crate::cpu::operand::{Decoder, Operand};
use crate::cpu::state::{Cpu, CS};
use crate::machine::State;

verus! {

impl State {
    /// The byte of code that is `i` bytes on.
    #[verifier::opaque]
    pub open spec fn code(self, i: u32) -> u8 {
        self.read8(
            self.cpu.lin(
                CS,
                if i == 0 {
                    self.cpu.ip
                } else {
                    self.cpu.advanced(i).ip
                },
            ),
        ).1
    }

    /// The word of code that is `i` bytes on.
    pub open spec fn code16(self, i: u32) -> int {
        self.code(i) + 0x100 * self.code((i + 1) as u32)
    }

    /// The doubleword of code that is `i` bytes on.
    pub open spec fn code32(self, i: u32) -> int {
        self.code16(i) + 0x1_0000 * self.code16((i + 2) as u32)
    }

    /// The next instruction: the state with its prefixes and its opcode read, what
    /// the prefixes said, and the opcode.
    pub open spec fn instruction(self) -> Option<(State, Decoder, u8)> {
        let wide = self.cpu.seg_is32(CS);
        match self.prefixes(crate::cpu::unprefixed(wide), wide, 0x1_0000_0000) {
            None => None,
            Some((t, d, op)) => Some((if d.p66 { t.seen_prefixed(op) } else { t }, d, op)),
        }
    }

    /// The register field of the byte that names the operands.
    pub open spec fn field(self) -> int {
        self.code(0) as int / 8 % 8
    }

    /// The operand that the bytes after the opcode name.
    pub open spec fn named(self, d: Decoder) -> Operand {
        self.modrm(d).2
    }

    /// The value of that operand as a word or doubleword.
    pub open spec fn value_w(self, d: Decoder) -> u32 {
        let (s, _, rm) = self.modrm(d);
        s.read_op_w(rm, d.opsize32).1
    }

    /// Its value as a byte.
    pub open spec fn value8(self, d: Decoder) -> u8 {
        let (s, _, rm) = self.modrm(d);
        s.read_op8(rm).1
    }
}

/// Code was read and nothing else happened: the instruction pointer is `n` bytes on.
pub open spec fn past(s: State, t: State, n: u32) -> bool {
    t == (State {
        cpu: s.cpu.advanced(n),
        marks: t.marks,
        pending_fault: t.pending_fault,
        ..s
    })
}

/// Two states that differ in the instruction pointer, and in what accesses note, alone.
pub open spec fn elsewhere(s: State, t: State) -> bool {
    t == (State {
        cpu: Cpu { ip: t.cpu.ip, ..s.cpu },
        marks: t.marks,
        pending_fault: t.pending_fault,
        ..s
    })
}

/// The same, but for the log.
pub open spec fn begun(s: State, t: State) -> bool {
    t == (State {
        cpu: Cpu { ip: t.cpu.ip, ..s.cpu },
        marks: t.marks,
        pending_fault: t.pending_fault,
        log: t.log,
        ..s
    })
}

/// A word operand was written, and nothing else happened.
pub open spec fn stored_w(s: State, u: State, to: Operand, v: int, wide: bool) -> bool {
    exists|y: State| begun(s, y) && u == #[trigger] y.write_op_w(to, v as u32, wide)
}

/// A byte operand was written, and nothing else happened.
pub open spec fn stored8(s: State, u: State, to: Operand, v: int) -> bool {
    exists|y: State| begun(s, y) && u == #[trigger] y.write_op8(to, v as u8)
}

/// Parts of machine words as numbers.
pub proof fn lemma_parts(r: u32, v: u32)
    by (bit_vector)
    ensures
        r as u16 == r % 0x1_0000u32,
        r as u8 == r % 0x100u32,
        (r >> 8) as u8 == r / 0x100u32 % 0x100u32,
        r & 0xFFFF == r % 0x1_0000u32,
        r & 0xFFFF_FFFF == r,
        r & 0xF_FFFF == r % 0x10_0000u32,
        (r & 0xFFFF_0000) | (v as u16 as u32) == r / 0x1_0000u32 * 0x1_0000u32 + v % 0x1_0000u32,
        (r & 0xFFFF_FF00) | (v as u8 as u32) == r / 0x100u32 * 0x100u32 + v % 0x100u32,
        (r & 0xFFFF_00FF) | ((v as u8 as u32) << 8) == r / 0x1_0000u32 * 0x1_0000u32 + v % 0x100u32
            * 0x100u32 + r % 0x100u32,
        r <= 0xFFFF ==> r << 4 == 16 * r,
{
}

/// The flags as bits of a number.
pub proof fn lemma_flag_places(f: u32)
    by (bit_vector)
    ensures
        (f & 1 != 0) == (f % 2 == 1),
        (f & 4 != 0) == (f / 4 % 2 == 1),
        (f & 16 != 0) == (f / 16 % 2 == 1),
        (f & 64 != 0) == (f / 64 % 2 == 1),
        (f & 128 != 0) == (f / 128 % 2 == 1),
        (f & 0x100 != 0) == (f / 0x100 % 2 == 1),
        (f & 0x200 != 0) == (f / 0x200 % 2 == 1),
        (f & 0x400 != 0) == (f / 0x400 % 2 == 1),
        (f & 0x800 != 0) == (f / 0x800 % 2 == 1),
{
}

/// The low byte and the low word.
pub proof fn lemma_low(r: u32)
    ensures
        r as u16 == r % 0x1_0000,
        r as u8 == r % 0x100,
{
    lemma_parts(r, 0);
}

/// Reading does not depend on the instruction pointer or on what accesses noted.
pub proof fn lemma_read_elsewhere(s: State, t: State, lin: u32)
    requires
        t.cpu == (Cpu { ip: t.cpu.ip, ..s.cpu }),
        t.mem == s.mem,
        t.sys_access == s.sys_access,
    ensures
        t.read8(lin).1 == s.read8(lin).1,
        t.read16(lin).1 == s.read16(lin).1,
        t.read32(lin).1 == s.read32(lin).1,
{
    reveal(State::read16);
    reveal(State::read32);
    lemma_byte_elsewhere(s, t, lin);
    let (s1, t1) = (s.read8(lin).0, t.read8(lin).0);
    crate::machine::lemma_read_keeps(s, lin);
    crate::machine::lemma_read_keeps(t, lin);
    lemma_byte_elsewhere(s1, t1, lin.wrapping_add(1));
    let b = lin.wrapping_add(2);
    let (s2, t2) = (s.read16(lin).0, t.read16(lin).0);
    lemma_byte_elsewhere(s2, t2, b);
    let (s3, t3) = (s2.read8(b).0, t2.read8(b).0);
    crate::machine::lemma_read_keeps(s2, b);
    crate::machine::lemma_read_keeps(t2, b);
    lemma_byte_elsewhere(s3, t3, b.wrapping_add(1));
}

proof fn lemma_byte_elsewhere(s: State, t: State, lin: u32)
    requires
        t.cpu == (Cpu { ip: t.cpu.ip, ..s.cpu }),
        t.mem == s.mem,
        t.sys_access == s.sys_access,
    ensures
        t.read8(lin).1 == s.read8(lin).1,
{
    reveal(State::read8);
    reveal(State::phys8);
    crate::cpu::dcache::agreement::fetch::lemma_translate_same(t, s, lin, false);
}

/// Going on by some bytes and then by more.
pub proof fn lemma_advanced(c: Cpu, a: u32, b: u32)
    requires
        a + b <= u32::MAX,
    ensures
        c.advanced(a).advanced(b) == c.advanced((a + b) as u32),
{
    if c.seg_is32(CS) {
        lemma_mask(c.ip.wrapping_add(a));
        lemma_mask(c.ip.wrapping_add(a).wrapping_add(b));
        lemma_mask(c.ip.wrapping_add((a + b) as u32));
    } else {
        lemma_masked_sum(c.ip, a, b);
    }
}

proof fn lemma_mask(r: u32)
    ensures
        r & 0xFFFF == r % 0x1_0000,
        r & 0xFFFF_FFFF == r,
{
    lemma_parts(r, 0);
}

proof fn lemma_masked_sum(i: u32, a: u32, b: u32)
    requires
        a + b <= u32::MAX,
    ensures
        (i.wrapping_add(a) & 0xFFFF).wrapping_add(b) & 0xFFFF == i.wrapping_add((a + b) as u32)
            & 0xFFFF,
{
    let x = i.wrapping_add(a);
    lemma_mask(x);
    let y = x & 0xFFFF;
    lemma_mask(y.wrapping_add(b));
    lemma_mask(i.wrapping_add((a + b) as u32));
    lemma_turns(i as int, a as int, b as int);
    assert(x as int == (i + a) % 0x1_0000_0000);
    assert(y.wrapping_add(b) as int == (y + b) % 0x1_0000_0000);
    assert(i.wrapping_add((a + b) as u32) as int == (i + a + b) % 0x1_0000_0000);
}

proof fn lemma_turns(i: int, a: int, b: int)
    ensures
        ((i + a) % 0x1_0000_0000 % 0x1_0000 + b) % 0x1_0000_0000 % 0x1_0000 == (i + a + b)
            % 0x1_0000_0000 % 0x1_0000,
{
    let x = (i + a) % 0x1_0000_0000;
    let k = (i + a) / 0x1_0000_0000;
    assert(i + a == x + 0x1_0000 * (0x1_0000 * k));
    let y = x % 0x1_0000;
    assert(x == y + 0x1_0000 * (x / 0x1_0000));
    assert((y + b) % 0x1_0000 == (i + a + b) % 0x1_0000);
    assert((y + b) % 0x1_0000_0000 % 0x1_0000 == (y + b) % 0x1_0000);
    assert((i + a + b) % 0x1_0000_0000 % 0x1_0000 == (i + a + b) % 0x1_0000);
}

/// Behind some bytes of code the rest of it follows.
pub proof fn lemma_code_on(s: State, t: State, n: u32)
    requires
        past(s, t, n),
        n > 0,
    ensures
        forall|i: u32| i + n <= u32::MAX ==> #[trigger] t.code(i) == s.code((i + n) as u32),
{
    assert forall|i: u32| i + n <= u32::MAX implies #[trigger] t.code(i) == s.code(
        (i + n) as u32,
    ) by {
        reveal(State::code);
        lemma_advanced(s.cpu, n, i);
        lemma_read_elsewhere(s, t, s.cpu.lin(CS, s.cpu.advanced((i + n) as u32).ip));
    }
}

/// A byte of code is fetched.
pub proof fn lemma_fetch8(s: State)
    ensures
        past(s, s.fetch8().0, 1),
        s.fetch8().1 == s.code(0),
        forall|i: u32| i < u32::MAX ==> #[trigger] s.fetch8().0.code(i) == s.code((i + 1) as u32),
{
    reveal(State::fetch8);
    reveal(State::code);
    crate::machine::lemma_read_keeps(s, s.cpu.lin(CS, s.cpu.ip));
    lemma_code_on(s, s.fetch8().0, 1);
}

/// What was read in two goes.
pub proof fn lemma_past_twice(s: State, t: State, u: State, a: u32, b: u32)
    requires
        past(s, t, a),
        past(t, u, b),
        a + b <= u32::MAX,
    ensures
        past(s, u, (a + b) as u32),
{
    lemma_advanced(s.cpu, a, b);
}

pub proof fn lemma_fetch16(s: State)
    ensures
        past(s, s.fetch16().0, 2),
        s.fetch16().1 == s.code16(0),
        forall|i: u32|
            i < u32::MAX - 1 ==> #[trigger] s.fetch16().0.code(i) == s.code((i + 2) as u32),
{
    reveal(State::fetch16);
    let t = s.fetch8().0;
    lemma_fetch8(s);
    lemma_fetch8(t);
    lemma_past_twice(s, t, s.fetch16().0, 1, 1);
    lemma_code_on(s, s.fetch16().0, 2);
    assert(t.code(0) == s.code((0 + 1) as u32));
}

pub proof fn lemma_fetch32(s: State)
    ensures
        past(s, s.fetch32().0, 4),
        s.fetch32().1 == s.code32(0),
        forall|i: u32|
            i < u32::MAX - 3 ==> #[trigger] s.fetch32().0.code(i) == s.code((i + 4) as u32),
{
    reveal(State::fetch32);
    let t = s.fetch16().0;
    lemma_fetch16(s);
    lemma_fetch16(t);
    lemma_past_twice(s, t, s.fetch32().0, 2, 2);
    lemma_code_on(s, s.fetch32().0, 4);
    assert(t.code(0) == s.code((0 + 2) as u32));
    assert(t.code(1) == s.code((1 + 2) as u32));
}

/// An immediate of the width of the operands.
pub proof fn lemma_fetch_w(s: State, wide: bool)
    ensures
        past(s, s.fetch_w(wide).0, if wide { 4 } else { 2 }),
        s.fetch_w(wide).1 == if wide {
            s.code32(0)
        } else {
            s.code16(0)
        },
        past(s, s.fetch_rel(wide).0, if wide { 4 } else { 2 }),
        s.fetch_rel(wide).1 == if wide {
            s.code32(0)
        } else {
            crate::bits::signed(s.code16(0), 1) % 0x1_0000_0000
        },
{
    reveal(State::fetch_w);
    reveal(State::fetch_rel);
    lemma_fetch16(s);
    lemma_fetch32(s);
}

/// The bytes that go before an opcode.
pub open spec fn is_prefix(b: u8) -> bool {
    b == 0x26 || b == 0x2E || b == 0x36 || b == 0x3E || b == 0x64 || b == 0x65 || b == 0x66 || b
        == 0x67 || b == 0xF0 || b == 0xF2 || b == 0xF3
}

/// A byte that is no prefix is the opcode, and without prefixes operands and addresses
/// are as wide as the code segment says.
pub proof fn law_plain_opcode(s: State)
    requires
        !is_prefix(s.code(0)),
    ensures
        ({
            let wide = s.cpu.pe() && s.cpu.hidden[1].big;
            &&& s.instruction() matches Some((t, d, op))
            &&& past(s, t, 1)
            &&& op == s.code(0)
            &&& d.seg_override is None && d.rep is None && !d.p66 && !d.lock
            &&& d.opsize32 == wide && d.addrsize32 == wide
            &&& forall|i: u32| i < 0x1000 ==> #[trigger] t.code(i) == s.code((i + 1) as u32)
        }),
{
    reveal_with_fuel(State::prefixes, 2);
    lemma_fetch8(s);
}

/// A prefix says one thing of the instruction that follows: a segment, the other width
/// of operands, the other width of addresses, a repetition or a lock.
pub proof fn law_prefix(s: State, d: Decoder, wide: bool, limit: nat)
    requires
        is_prefix(s.code(0)),
        limit > 1,
    ensures
        ({
            let b = s.code(0);
            exists|t: State, e: Decoder|
                {
                    &&& past(s, t, 1)
                    &&& s.prefixes(d, wide, limit) == #[trigger] t.prefixes(
                        e,
                        wide,
                        (limit - 1) as nat,
                    )
                    &&& e.seg_override == (if b == 0x26 {
                        Some(0usize)
                    } else if b == 0x2E {
                        Some(1usize)
                    } else if b == 0x36 {
                        Some(2usize)
                    } else if b == 0x3E {
                        Some(3usize)
                    } else if b == 0x64 {
                        Some(4usize)
                    } else if b == 0x65 {
                        Some(5usize)
                    } else {
                        d.seg_override
                    })
                    &&& e.opsize32 == (if b == 0x66 {
                        !wide
                    } else {
                        d.opsize32
                    })
                    &&& e.addrsize32 == (if b == 0x67 {
                        !wide
                    } else {
                        d.addrsize32
                    })
                    &&& e.rep == (if b == 0xF2 || b == 0xF3 {
                        Some(b)
                    } else {
                        d.rep
                    })
                    &&& e.lock == (b == 0xF0 || d.lock)
                    &&& e.p66 == (b == 0x66 || d.p66)
                }
        }),
{
    reveal_with_fuel(State::prefixes, 2);
    lemma_fetch8(s);
    let t = s.fetch8().0;
    let e = crate::cpu::prefixed(d, s.code(0), wide)->0;
    assert(s.prefixes(d, wide, limit) == t.prefixes(e, wide, (limit - 1) as nat));
}

proof fn lemma_prefixes(s: State, d: Decoder, wide: bool, limit: nat)
    requires
        d.wf(),
    ensures
        s.prefixes(d, wide, limit) matches Some((t, e, op)) ==> elsewhere(s, t) && e.wf()
            && !is_prefix(op),
    decreases limit,
{
    reveal_with_fuel(State::prefixes, 2);
    if limit > 0 {
        lemma_fetch8(s);
        let t = s.fetch8().0;
        if let Some(e) = crate::cpu::prefixed(d, s.code(0), wide) {
            lemma_prefixes(t, e, wide, (limit - 1) as nat);
        }
    }
}

/// What is executed is the instruction that was read.
pub proof fn lemma_step(s: State, t: State, d: Decoder, op: u8)
    requires
        s.instruction() == Some((t, d, op)),
        !d.lock || crate::cpu::lockable(op),
    ensures
        s.step() == t.onebyte(d, op, s.cpu.ip),
        begun(s, t),
        d.wf(),
{
    reveal(State::step);
    reveal(State::step_with);
    let wide = s.cpu.seg_is32(CS);
    lemma_prefixes(s, crate::cpu::unprefixed(wide), wide, 0x1_0000_0000);
}

/// LOCK is for the instructions that read and write memory; before any other it is an
/// undefined opcode.
pub proof fn law_lock_refused(s: State, t: State, d: Decoder, op: u8)
    requires
        s.instruction() == Some((t, d, op)),
        d.lock,
        !(op < 0x38 && op % 8 <= 1 || 0x80 <= op <= 0x83 || op == 0x86 || op == 0x87 || op == 0xF6
            || op == 0xF7 || op == 0xFE || op == 0xFF || op == 0x0F),
    ensures
        exists|u: State|
            elsewhere(s, u) && u.cpu.ip == s.cpu.ip & s.cpu.ip_mask() && s.step()
                == #[trigger] u.interrupt(6),
{
    reveal(State::step);
    reveal(State::step_with);
    let wide = s.cpu.seg_is32(CS);
    let unread = crate::cpu::unprefixed(wide);
    lemma_prefixes(s, unread, wide, 0x1_0000_0000);
    let x = (s.prefixes(unread, wide, 0x1_0000_0000)->0).0;
    let u = x.with_cpu(x.cpu.with_ip(s.cpu.ip));
    assert(s.step() == u.interrupt(6));
}

/// The register field is read from the byte after the opcode, and reading operands and
/// their displacements changes no more than the instruction pointer.
pub proof fn lemma_modrm(s: State, d: Decoder)
    requires
        d.wf(),
    ensures
        s.modrm(d).1 == s.field(),
        s.modrm(d).1 < 8,
        elsewhere(s, s.modrm(d).0),
        s.named(d).wf(),
        s.named(d) is Reg <==> s.code(0) >= 0xC0,
        s.code(0) >= 0xC0 ==> s.named(d) == Operand::Reg((s.code(0) % 8) as usize) && past(
            s,
            s.modrm(d).0,
            1,
        ),
{
    reveal(State::modrm);
    reveal(State::modrm32);
    reveal(State::modrm_base);
    reveal(State::modrm_disp);
    lemma_fetch8(s);
    let t = s.fetch8().0;
    let md = s.code(0) / 64;
    let rm = (s.code(0) % 8) as usize;
    lemma_fetch8(t);
    lemma_fetch16(t);
    lemma_fetch32(t);
    if md < 3 && d.addrsize32 {
        let (u, _, _) = t.modrm_base(md, rm);
        let sib = t.fetch8().0;
        lemma_fetch32(sib);
        lemma_fetch8(u);
        lemma_fetch32(u);
    }
}

/// Reading an operand changes no more than what accesses note.
pub proof fn lemma_read_op(s: State, rm: Operand, wide: bool)
    ensures
        elsewhere(s, s.read_op8(rm).0) && s.read_op8(rm).0.cpu == s.cpu,
        elsewhere(s, s.read_op16(rm).0) && s.read_op16(rm).0.cpu == s.cpu,
        elsewhere(s, s.read_op_w(rm, wide).0) && s.read_op_w(rm, wide).0.cpu == s.cpu,
        !wide ==> s.read_op_w(rm, wide).1 <= 0xFFFF,
{
    reveal(State::read_op8);
    reveal(State::read_op16);
    reveal(State::read_op32);
    reveal(State::read_op_w);
    if let Operand::Mem { addr, .. } = rm {
        crate::machine::lemma_read_keeps(s, addr);
    }
}

} // verus!
