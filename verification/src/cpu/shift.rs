//! Shifts and rotates of a byte, a word or a doubleword.
//!
//! Kinds are those of the instruction encoding: 0 ROL, 1 ROR, 2 RCL, 3 RCR,
//! 4 and 6 SHL, 5 SHR, 7 SAR. The count is taken modulo 32.

use vstd::prelude::*;
use crate::cpu::alu::{set_szp16, set_szp32, set_szp8};
use crate::cpu::state::{Cpu, CF, OF};

verus! {

/// Number of values of an operand of `w` bits.
pub open spec fn span(w: u32) -> int {
    if w == 8 {
        0x100
    } else if w == 16 {
        0x1_0000
    } else {
        0x1_0000_0000
    }
}

/// One shift or rotate by a single bit: the new value and the bit that went into
/// the carry.
pub open spec fn turn(kind: u8, v: int, cf: bool, w: u32) -> (int, bool) {
    let half = span(w) / 2;
    let top = v >= half;
    let low = v % 2 == 1;
    let left = (2 * v) % span(w);
    let right = v / 2;
    if kind == 0 {
        (left + if top { 1int } else { 0 }, top)
    } else if kind == 1 {
        (right + if low { half } else { 0 }, low)
    } else if kind == 2 {
        (left + if cf { 1int } else { 0 }, top)
    } else if kind == 3 {
        (right + if cf { half } else { 0 }, low)
    } else if kind == 4 || kind == 6 {
        (left, top)
    } else if kind == 5 {
        (right, low)
    } else {
        (right + if top { half } else { 0 }, low)
    }
}

/// `n` single-bit turns.
pub open spec fn turns(kind: u8, v: int, cf: bool, n: nat, w: u32) -> (int, bool)
    decreases n,
{
    if n == 0 {
        (v, cf)
    } else {
        let p = turns(kind, v, cf, (n - 1) as nat, w);
        turn(kind, p.0, p.1, w)
    }
}

/// What a shift gives back.
#[verifier::opaque]
pub open spec fn shift_value(c: Cpu, kind: u8, val: u32, count_raw: u8, w: u32) -> int {
    turns(kind, val as int % span(w), c.flag(CF), (count_raw % 32) as nat, w).0
}

/// Overflow after a shift by one: whether the sign changed.
pub open spec fn turn_overflow(kind: u8, v: int, r: int, cf: bool, w: u32) -> bool {
    let half = span(w) / 2;
    if kind == 0 || kind == 2 || kind == 4 || kind == 6 {
        (r >= half) != cf
    } else if kind == 1 || kind == 3 {
        (r >= half) != (r % half >= half / 2)
    } else if kind == 5 {
        v >= half
    } else {
        false
    }
}

impl Cpu {
    /// The processor after a shift. A count of zero changes no flag; overflow is
    /// written by a count of one only; rotates leave zero, sign and parity.
    #[verifier::opaque]
    pub open spec fn after_shift(self, kind: u8, val: u32, count_raw: u8, w: u32) -> Cpu {
        let n = (count_raw % 32) as nat;
        let v = val as int % span(w);
        let (r, cf) = turns(kind, v, self.flag(CF), n, w);
        if n == 0 {
            self
        } else {
            let a = self.with_flag(CF, cf);
            let b = if n == 1 {
                a.with_flag(OF, turn_overflow(kind, v, r, cf, w))
            } else {
                a
            };
            if kind >= 4 {
                b.with_szp(r as u32, if w == 8 { 0u8 } else if w == 16 { 1u8 } else { 2u8 })
            } else {
                b
            }
        }
    }
}

proof fn lemma_turns_range(kind: u8, v: int, cf: bool, n: nat, w: u32)
    requires
        0 <= v < span(w),
    ensures
        0 <= turns(kind, v, cf, n, w).0 < span(w),
    decreases n,
{
    if n > 0 {
        lemma_turns_range(kind, v, cf, (n - 1) as nat, w);
    }
}

fn turn_once(kind: u8, v: u64, cf: bool, w: u32) -> (r: (u64, bool))
    requires
        v < span(w),
    ensures
        (r.0 as int, r.1) == turn(kind, v as int, cf, w),
        r.0 < span(w),
{
    let full: u64 = if w == 8 {
        0x100
    } else if w == 16 {
        0x1_0000
    } else {
        0x1_0000_0000
    };
    let half: u64 = full / 2;
    let top = v >= half;
    let low = v % 2 == 1;
    let left: u64 = if top {
        2 * v - full
    } else {
        2 * v
    };
    let right: u64 = v / 2;
    if kind == 0 {
        (
            if top {
                left + 1
            } else {
                left
            },
            top,
        )
    } else if kind == 1 {
        (
            if low {
                right + half
            } else {
                right
            },
            low,
        )
    } else if kind == 2 {
        (
            if cf {
                left + 1
            } else {
                left
            },
            top,
        )
    } else if kind == 3 {
        (
            if cf {
                right + half
            } else {
                right
            },
            low,
        )
    } else if kind == 4 || kind == 6 {
        (left, top)
    } else if kind == 5 {
        (right, low)
    } else {
        (
            if top {
                right + half
            } else {
                right
            },
            low,
        )
    }
}

/// Shifts or rotates `val`, an operand of `w` bits.
pub fn shift_rot(c: &mut Cpu, kind: u8, val: u32, count_raw: u8, w: u32) -> (r: u32)
    requires
        w == 8 || w == 16 || w == 32,
    ensures
        r == shift_value(*old(c), kind, val, count_raw, w),
        r < span(w),
        *final(c) == old(c).after_shift(kind, val, count_raw, w),
{
    proof {
        reveal(shift_value);
        reveal(Cpu::after_shift);
    }
    let count: u8 = count_raw % 32;
    let v: u64 = if w == 8 {
        val as u64 % 0x100
    } else if w == 16 {
        val as u64 % 0x1_0000
    } else {
        val as u64
    };
    let cin = c.flag(CF);
    let mut x: u64 = v;
    let mut cf = cin;
    let mut i: u8 = 0;
    while i < count
        invariant
            i <= count,
            count < 32,
            v < span(w),
            x < span(w),
            (x as int, cf) == turns(kind, v as int, cin, i as nat, w),
        decreases count - i,
    {
        let p = turn_once(kind, x, cf, w);
        x = p.0;
        cf = p.1;
        i = i + 1;
    }
    let r: u32 = x as u32;
    if count == 0 {
        return r;
    }
    c.set_flag(CF, cf);
    if count == 1 {
        let half: u64 = if w == 8 {
            0x80
        } else if w == 16 {
            0x8000
        } else {
            0x8000_0000
        };
        let of = if kind == 0 || kind == 2 || kind == 4 || kind == 6 {
            (x >= half) != cf
        } else if kind == 1 || kind == 3 {
            (x >= half) != (x % half >= half / 2)
        } else if kind == 5 {
            v >= half
        } else {
            false
        };
        c.set_flag(OF, of);
    }
    if kind >= 4 {
        if w == 8 {
            set_szp8(c, r as u8);
        } else if w == 16 {
            set_szp16(c, r as u16);
        } else {
            set_szp32(c, r);
        }
    }
    r
}

/// A count that is a multiple of 32 changes neither the value nor a flag.
pub proof fn law_shift_by_zero(c: Cpu, kind: u8, val: u32, count_raw: u8, w: u32)
    requires
        count_raw % 32 == 0,
    ensures
        shift_value(c, kind, val, count_raw, w) == val as int % span(w),
        c.after_shift(kind, val, count_raw, w) == c,
{
    reveal(shift_value);
    reveal(Cpu::after_shift);
}

/// Rotating right undoes rotating left, whatever the carry was.
pub proof fn law_rotates_undo(v: int, n: nat, w: u32, cf: bool, cg: bool)
    requires
        w == 8 || w == 16 || w == 32,
        0 <= v < span(w),
    ensures
        turns(1, turns(0, v, cf, n, w).0, cg, n, w).0 == v,
    decreases n,
{
    if n > 0 {
        let p = turns(0, v, cf, (n - 1) as nat, w);
        lemma_turns_range(0, v, cf, (n - 1) as nat, w);
        let q = turn(0, p.0, p.1, w);
        let u = turn(1, q.0, cg, w);
        lemma_turn_undone(p.0, p.1, cg, w);
        lemma_turns_front(1, q.0, cg, n, w);
        law_rotates_undo(v, (n - 1) as nat, w, cf, u.1);
    }
}

/// Rotating right through the carry undoes rotating left through it, the carry
/// included.
pub proof fn law_rotates_through_carry_undo(v: int, n: nat, w: u32, cf: bool)
    requires
        w == 8 || w == 16 || w == 32,
        0 <= v < span(w),
    ensures
        ({
            let p = turns(2, v, cf, n, w);
            turns(3, p.0, p.1, n, w) == (v, cf)
        }),
    decreases n,
{
    if n > 0 {
        let p = turns(2, v, cf, (n - 1) as nat, w);
        lemma_turns_range(2, v, cf, (n - 1) as nat, w);
        let q = turn(2, p.0, p.1, w);
        lemma_carry_turn_undone(p.0, p.1, w);
        lemma_turns_front(3, q.0, q.1, n, w);
        law_rotates_through_carry_undo(v, (n - 1) as nat, w, cf);
    }
}

proof fn lemma_carry_turn_undone(v: int, cf: bool, w: u32)
    requires
        w == 8 || w == 16 || w == 32,
        0 <= v < span(w),
    ensures
        ({
            let q = turn(2, v, cf, w);
            turn(3, q.0, q.1, w) == (v, cf)
        }),
{
    if w == 8 {
    } else if w == 16 {
    } else {
    }
}

proof fn lemma_turn_undone(v: int, cf: bool, cg: bool, w: u32)
    requires
        w == 8 || w == 16 || w == 32,
        0 <= v < span(w),
    ensures
        turn(1, turn(0, v, cf, w).0, cg, w).0 == v,
{
    if w == 8 {
    } else if w == 16 {
    } else {
    }
}

/// The first of `n` turns may be taken first or last.
proof fn lemma_turns_front(kind: u8, v: int, cf: bool, n: nat, w: u32)
    requires
        n > 0,
    ensures
        ({
            let f = turn(kind, v, cf, w);
            turns(kind, v, cf, n, w) == turns(kind, f.0, f.1, (n - 1) as nat, w)
        }),
    decreases n,
{
    if n == 1 {
        reveal_with_fuel(turns, 2);
    } else {
        lemma_turns_front(kind, v, cf, (n - 1) as nat, w);
    }
}

/// A left shift by fewer bits than the operand has multiplies by a power of two,
/// a right shift divides by it.
#[verifier::spinoff_prover]
pub proof fn law_shift_is_arithmetic(v: int, n: nat, w: u32, cf: bool)
    requires
        w == 8 || w == 16 || w == 32,
        0 <= v < span(w),
    ensures
        turns(4, v, cf, n, w).0 == (v * vstd::arithmetic::power2::pow2(n)) % span(w),
        turns(5, v, cf, n, w).0 == v / (vstd::arithmetic::power2::pow2(n) as int),
    decreases n,
{
    vstd::arithmetic::power2::lemma2_to64();
    if n > 0 {
        law_shift_is_arithmetic(v, (n - 1) as nat, w, cf);
        let p = vstd::arithmetic::power2::pow2((n - 1) as nat) as int;
        vstd::arithmetic::power2::lemma_pow2_unfold(n);
        vstd::arithmetic::power2::lemma_pow2_pos((n - 1) as nat);
        let m = span(w);
        let before = turns(4, v, cf, (n - 1) as nat, w);
        assert(v * vstd::arithmetic::power2::pow2(n) == 2 * (v * p)) by (nonlinear_arith)
            requires
                vstd::arithmetic::power2::pow2(n) == 2 * p,
        ;
        vstd::arithmetic::div_mod::lemma_mul_mod_noop_right(2, v * p, m);
        assert(turns(4, v, cf, n, w) == turn(4, before.0, before.1, w));
        assert((2 * before.0) % m == (2 * (v * p)) % m);
        vstd::arithmetic::div_mod::lemma_div_denominator(v, p, 2);
        assert(p * 2 == 2 * p) by (nonlinear_arith);
    } else {
        assert(vstd::arithmetic::power2::pow2(n) == 1);
        assert(v * 1 == v) by (nonlinear_arith);
        vstd::arithmetic::div_mod::lemma_small_mod(v as nat, span(w) as nat);
    }
}

} // verus!
