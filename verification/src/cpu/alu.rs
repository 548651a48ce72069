//! The eight arithmetic and logical operations, INC and DEC, and the conditions
//! of the conditional jumps.
//!
//! Operation numbers are those of the instruction encoding: 0 ADD, 1 OR, 2 ADC,
//! 3 SBB, 4 AND, 5 SUB, 6 XOR, 7 CMP. An operation leaves its flags pending; what
//! they come to is stated by [`law_alu_flags`] and [`law_inc_dec_flags`].

use vstd::prelude::*;
use crate::bits::even_parity;
use crate::cpu::state::{Cpu, AF, CC_DEC, CC_INC, CC_NONE, CF, OF, PF, SF, ZF};

verus! {

/// Carry that goes into an operation: only ADC and SBB take one.
pub open spec fn carry_in(c: Cpu, op: u8) -> u32 {
    if (op == 2 || op == 3) && c.flag(CF) {
        1
    } else {
        0
    }
}

/// Result of an operation on operands of the given width, before CMP drops it.
#[verifier::opaque]
pub open spec fn alu_result(op: u8, a: u32, b: u32, cin: u32, w: u8) -> u32 {
    if op == 0 || op == 2 {
        ((a + b + cin) % crate::bits::modulus(w)) as u32
    } else if op == 1 {
        a | b
    } else if op == 3 || op == 5 || op == 7 {
        ((a - b - cin) % crate::bits::modulus(w)) as u32
    } else if op == 4 {
        a & b
    } else {
        a ^ b
    }
}

/// What an operation gives back: CMP gives its first operand, unchanged.
#[verifier::opaque]
pub open spec fn alu_value(c: Cpu, op: u8, a: u32, b: u32, w: u8) -> u32 {
    if op == 7 {
        a
    } else {
        alu_result(op, a, b, carry_in(c, op), w)
    }
}

/// What INC and DEC give back.
#[verifier::opaque]
pub open spec fn inc_dec_value(a: u32, dec: bool, w: u8) -> u32 {
    ((if dec { a - 1 } else { a + 1 }) % crate::bits::modulus(w)) as u32
}

impl Cpu {
    #[verifier::opaque]
    pub open spec fn after_alu(self, op: u8, a: u32, b: u32, w: u8) -> Cpu {
        let cin = carry_in(self, op);
        self.with_cc(op, w, a, b, cin, alu_result(op, a, b, cin, w))
    }

    #[verifier::opaque]
    pub open spec fn after_inc_dec(self, a: u32, dec: bool, w: u8) -> Cpu {
        self.with_cc_incdec(if dec { CC_DEC } else { CC_INC }, w, a, inc_dec_value(a, dec, w))
    }

    #[verifier::opaque]
    pub open spec fn with_szp(self, v: u32, w: u8) -> Cpu {
        let sign: u32 = if w == 0 { 0x80 } else if w == 1 { 0x8000 } else { 0x8000_0000 };
        self.with_flag(ZF, v == 0).with_flag(SF, v & sign != 0).with_flag(
            PF,
            even_parity(v as u8),
        )
    }
}

/// Sums and differences of operands leave the range of the width by less than
/// one turn.
proof fn lemma_one_turn(a: int, b: int, cin: int, w: u8)
    requires
        0 <= a < crate::bits::modulus(w),
        0 <= b < crate::bits::modulus(w),
        0 <= cin <= 1,
    ensures
        (a + b + cin) % crate::bits::modulus(w) == (if a + b + cin >= crate::bits::modulus(w) {
            a + b + cin - crate::bits::modulus(w)
        } else {
            a + b + cin
        }),
        (a - b - cin) % crate::bits::modulus(w) == (if a - b - cin < 0 {
            a - b - cin + crate::bits::modulus(w)
        } else {
            a - b - cin
        }),
{
    if w == 0 {
    } else if w == 1 {
    } else {
    }
}

proof fn lemma_logic_narrow(a: u32, b: u32, m: u32)
    by (bit_vector)
    requires
        m == 0xFF || m == 0xFFFF || m == 0xFFFF_FFFF,
        a <= m,
        b <= m,
    ensures
        a | b <= m,
        a & b <= m,
        a ^ b <= m,
{
}

fn alu_lazy(c: &mut Cpu, op: u8, a: u32, b: u32, w: u8) -> (r: u32)
    requires
        a < crate::bits::modulus(w),
        b < crate::bits::modulus(w),
    ensures
        r == alu_value(*old(c), op, a, b, w),
        r < crate::bits::modulus(w),
        *final(c) == old(c).after_alu(op, a, b, w),
{
    proof {
        reveal(alu_result);
        reveal(alu_value);
        reveal(Cpu::after_alu);
    }
    let cin: u32 = if (op == 2 || op == 3) && c.flag(CF) {
        1
    } else {
        0
    };
    let m: u64 = if w == 0 {
        0xFF
    } else if w == 1 {
        0xFFFF
    } else {
        0xFFFF_FFFF
    };
    proof {
        lemma_one_turn(a as int, b as int, cin as int, w);
        lemma_logic_narrow(a, b, m as u32);
    }
    let r: u32 = if op == 0 || op == 2 {
        let t: u64 = a as u64 + b as u64 + cin as u64;
        (if t > m {
            t - m - 1
        } else {
            t
        }) as u32
    } else if op == 1 {
        a | b
    } else if op == 3 || op == 5 || op == 7 {
        let t: u64 = b as u64 + cin as u64;
        (if (a as u64) < t {
            a as u64 + m + 1 - t
        } else {
            a as u64 - t
        }) as u32
    } else if op == 4 {
        a & b
    } else {
        a ^ b
    };
    c.set_cc(op, w, a, b, cin, r);
    if op == 7 {
        a
    } else {
        r
    }
}

pub fn alu8(c: &mut Cpu, op: u8, a: u8, b: u8) -> (r: u8)
    ensures
        r == alu_value(*old(c), op, a as u32, b as u32, 0),
        *final(c) == old(c).after_alu(op, a as u32, b as u32, 0),
{
    alu_lazy(c, op, a as u32, b as u32, 0) as u8
}

pub fn alu16(c: &mut Cpu, op: u8, a: u16, b: u16) -> (r: u16)
    ensures
        r == alu_value(*old(c), op, a as u32, b as u32, 1),
        *final(c) == old(c).after_alu(op, a as u32, b as u32, 1),
{
    alu_lazy(c, op, a as u32, b as u32, 1) as u16
}

pub fn alu32(c: &mut Cpu, op: u8, a: u32, b: u32) -> (r: u32)
    ensures
        r == alu_value(*old(c), op, a, b, 2),
        *final(c) == old(c).after_alu(op, a, b, 2),
{
    alu_lazy(c, op, a, b, 2)
}

/// INC and DEC of a byte. The carry stays as it was.
pub fn inc_dec8(c: &mut Cpu, a: u8, dec: bool) -> (r: u8)
    ensures
        r == inc_dec_value(a as u32, dec, 0),
        *final(c) == old(c).after_inc_dec(a as u32, dec, 0),
{
    proof {
        reveal(inc_dec_value);
        reveal(Cpu::after_inc_dec);
    }
    let r: u8 = if dec {
        a.wrapping_sub(1)
    } else {
        a.wrapping_add(1)
    };
    c.set_cc_incdec(
        if dec {
            CC_DEC
        } else {
            CC_INC
        },
        0,
        a as u32,
        r as u32,
    );
    r
}

/// The operand of a word operation: the low half, or all of it.
#[verifier::allow_in_spec]
pub fn narrow(a: u32, wide: bool) -> u32
    returns
        (if wide {
            a
        } else {
            a as u16 as u32
        }),
{
    if wide {
        a
    } else {
        a as u16 as u32
    }
}

/// The width code of a word operation.
#[verifier::allow_in_spec]
pub fn width(wide: bool) -> u8
    returns
        (if wide {
            2u8
        } else {
            1u8
        }),
{
    if wide {
        2
    } else {
        1
    }
}

/// INC and DEC of a word or doubleword.
pub fn inc_dec_w(c: &mut Cpu, a: u32, dec: bool, wide: bool) -> (r: u32)
    ensures
        r == inc_dec_value(narrow(a, wide), dec, width(wide)),
        *final(c) == old(c).after_inc_dec(narrow(a, wide), dec, width(wide)),
{
    proof {
        reveal(inc_dec_value);
        reveal(Cpu::after_inc_dec);
    }
    let x: u32 = narrow(a, wide);
    let r: u32 = if wide {
        if dec {
            x.wrapping_sub(1)
        } else {
            x.wrapping_add(1)
        }
    } else {
        let h: u16 = x as u16;
        assert(h == x);
        (if dec {
            h.wrapping_sub(1)
        } else {
            h.wrapping_add(1)
        }) as u32
    };
    c.set_cc_incdec(
        if dec {
            CC_DEC
        } else {
            CC_INC
        },
        width(wide),
        x,
        r,
    );
    r
}

/// An operation on words or doublewords.
pub fn alu_w(c: &mut Cpu, op: u8, a: u32, b: u32, wide: bool) -> (r: u32)
    ensures
        r == alu_value(*old(c), op, narrow(a, wide), narrow(b, wide), width(wide)),
        *final(c) == old(c).after_alu(op, narrow(a, wide), narrow(b, wide), width(wide)),
{
    if wide {
        alu32(c, op, a, b)
    } else {
        alu16(c, op, a as u16, b as u16) as u32
    }
}

/// Zero, sign and parity of a byte.
pub fn set_szp8(c: &mut Cpu, v: u8)
    ensures
        *final(c) == old(c).with_szp(v as u32, 0),
{
    proof {
        reveal(Cpu::with_szp);
    }
    proof {
        lemma_sign_widen(v as u32);
    }
    c.set_flag(ZF, v == 0);
    c.set_flag(SF, v & 0x80 != 0);
    c.set_flag(PF, even_parity(v));
}

proof fn lemma_sign_widen(v: u32)
    by (bit_vector)
    ensures
        (v as u8) & 0x80 == (v as u8 as u32) & 0x80,
        (v as u16) & 0x8000 == (v as u16 as u32) & 0x8000,
        (v as u16 as u32) as u8 == (v as u16) as u8,
        (v as u8 as u32) as u8 == v as u8,
{
}

/// Zero, sign and parity of a word. Parity looks at the low byte only.
pub fn set_szp16(c: &mut Cpu, v: u16)
    ensures
        *final(c) == old(c).with_szp(v as u32, 1),
{
    proof {
        reveal(Cpu::with_szp);
    }
    proof {
        lemma_sign_widen(v as u32);
    }
    c.set_flag(ZF, v == 0);
    c.set_flag(SF, v & 0x8000 != 0);
    c.set_flag(PF, even_parity(v as u8));
}

/// Zero, sign and parity of a doubleword.
pub fn set_szp32(c: &mut Cpu, v: u32)
    ensures
        *final(c) == old(c).with_szp(v, 2),
{
    proof {
        reveal(Cpu::with_szp);
    }
    c.set_flag(ZF, v == 0);
    c.set_flag(SF, v & 0x8000_0000 != 0);
    c.set_flag(PF, even_parity(v as u8));
}

pub fn set_szp_w(c: &mut Cpu, v: u32, wide: bool)
    ensures
        *final(c) == old(c).with_szp(narrow(v, wide), width(wide)),
{
    if wide {
        set_szp32(c, v)
    } else {
        set_szp16(c, v as u16)
    }
}

/// Condition `cc` of a conditional jump on the flags: O, C, Z, C or Z, S, P,
/// S unlike O, Z or S unlike O; the odd ones are the negations.
#[verifier::opaque]
pub open spec fn condition_of(flags: u32, cc: u8) -> bool {
    let cf = flags & CF != 0;
    let zf = flags & ZF != 0;
    let sf = flags & SF != 0;
    let of = flags & OF != 0;
    let r = if cc / 2 == 0 {
        of
    } else if cc / 2 == 1 {
        cf
    } else if cc / 2 == 2 {
        zf
    } else if cc / 2 == 3 {
        cf || zf
    } else if cc / 2 == 4 {
        sf
    } else if cc / 2 == 5 {
        flags & PF != 0
    } else if cc / 2 == 6 {
        sf != of
    } else {
        zf || sf != of
    };
    if cc % 2 == 1 {
        !r
    } else {
        r
    }
}

/// Whether a condition holds now. Looks once whether an operation is pending,
/// then works out no more flags than the condition asks for.
#[verifier::allow_in_spec]
pub fn condition(c: &Cpu, cc: u8) -> bool
    returns
        condition_of(c.eflags(), cc),
{
    proof {
        reveal(Cpu::flags_now);
        reveal(condition_of);
    }
    proof {
        lemma_condition_bits(c.flags, cc);
        crate::cpu::state::lemma_pending_flags(
            c.flags,
            0,
            c.cc_cf(),
            c.cc_pf(),
            c.cc_af(),
            c.cc_r == 0,
            c.cc_sf(),
            c.cc_of(),
        );
    }
    let k: u8 = cc >> 1;
    let r = if c.cc_op == CC_NONE {
        let f: u32 = c.flags;
        if k == 0 {
            f & OF != 0
        } else if k == 1 {
            f & CF != 0
        } else if k == 2 {
            f & ZF != 0
        } else if k == 3 {
            f & (CF | ZF) != 0
        } else if k == 4 {
            f & SF != 0
        } else if k == 5 {
            f & PF != 0
        } else if k == 6 {
            (f & SF != 0) != (f & OF != 0)
        } else {
            f & ZF != 0 || ((f & SF != 0) != (f & OF != 0))
        }
    } else {
        if k == 0 {
            c.cc_of()
        } else if k == 1 {
            c.cc_cf()
        } else if k == 2 {
            c.cc_r == 0
        } else if k == 3 {
            c.cc_cf() || c.cc_r == 0
        } else if k == 4 {
            c.cc_sf()
        } else if k == 5 {
            c.cc_pf()
        } else if k == 6 {
            c.cc_sf() != c.cc_of()
        } else {
            c.cc_r == 0 || (c.cc_sf() != c.cc_of())
        }
    };
    if cc & 1 != 0 {
        !r
    } else {
        r
    }
}

proof fn lemma_condition_bits(f: u32, cc: u8)
    by (bit_vector)
    ensures
        cc >> 1 == cc / 2,
        cc & 1 == cc % 2,
        (f & (CF | ZF) != 0) == (f & CF != 0 || f & ZF != 0),
{
}

/// The conditions come in pairs that exclude each other: flipping the low bit of
/// the number negates the condition.
pub proof fn law_condition_pairs(flags: u32, cc: u8)
    ensures
        condition_of(flags, cc ^ 1) == !condition_of(flags, cc),
{
    reveal(condition_of);
    assert((cc ^ 1) / 2 == cc / 2 && (cc ^ 1) % 2 == 1 - cc % 2) by (bit_vector);
}

// ---- what the pending flags come to ----

/// Carry of an operation: the sum does not fit, or the difference borrows.
pub open spec fn alu_carry(op: u8, a: int, b: int, cin: int, w: u8) -> bool {
    if op == 0 || op == 2 {
        a + b + cin >= crate::bits::modulus(w)
    } else if op == 3 || op == 5 || op == 7 {
        a - b - cin < 0
    } else {
        false
    }
}

/// Carry out of, or borrow into, the low four bits.
pub open spec fn alu_adjust(op: u8, a: int, b: int, cin: int) -> bool {
    if op == 0 || op == 2 {
        a % 16 + b % 16 + cin >= 16
    } else if op == 3 || op == 5 || op == 7 {
        a % 16 - b % 16 - cin < 0
    } else {
        false
    }
}

/// The signed result does not fit the width.
pub open spec fn alu_overflow(op: u8, a: int, b: int, cin: int, w: u8) -> bool {
    let half = crate::bits::modulus(w) / 2;
    let x = crate::bits::signed(a, w);
    let y = crate::bits::signed(b, w);
    if op == 0 || op == 2 {
        !(-half <= x + y + cin < half)
    } else if op == 3 || op == 5 || op == 7 {
        !(-half <= x - y - cin < half)
    } else {
        false
    }
}

proof fn lemma_add_overflow(a: u32, b: u32, cin: u32, r: u32, s: u32)
    by (bit_vector)
    requires
        s == 0x80 || s == 0x8000 || s == 0x8000_0000,
        a < 2 * s,
        b < 2 * s,
        cin <= 1,
        r == (a + b + cin) % (2 * s),
    ensures
        ((a ^ !b) & (a ^ r) & s != 0) == (a < s && b < s && a + b + cin >= s || a >= s && b >= s
            && a + b + cin < 3 * s),
{
}

proof fn lemma_sub_overflow(a: u32, b: u32, cin: u32, r: u32, s: u32)
    by (bit_vector)
    requires
        s == 0x80 || s == 0x8000 || s == 0x8000_0000,
        a < 2 * s,
        b < 2 * s,
        cin <= 1,
        r == (a + 2 * s - b - cin) % (2 * s),
    ensures
        ((a ^ b) & (a ^ r) & s != 0) == (a < s && b >= s && a + s >= b + cin || a >= s && b < s && a
            < b + cin + s),
{
}

proof fn lemma_low_nibble(a: u32, s: u32, r: u32)
    by (bit_vector)
    requires
        s == 0x80 || s == 0x8000 || s == 0x8000_0000,
        r < 2 * s,
    ensures
        a & 0xF == a % 16,
        (r & s != 0) == (r >= s),
{
}

/// The flags after an operation, as numbers define them: carry, the carry of the
/// low four bits and signed overflow as stated by [`alu_carry`], [`alu_adjust`]
/// and [`alu_overflow`]; zero and sign of the result; parity of its low byte.
/// Flags that arithmetic does not write stay.
pub proof fn law_alu_flags(c: Cpu, op: u8, a: u32, b: u32, w: u8)
    requires
        op <= 7,
        w <= 2,
        a < crate::bits::modulus(w),
        b < crate::bits::modulus(w),
    ensures
        ({
            let d = c.after_alu(op, a, b, w);
            let cin = carry_in(c, op);
            let r = alu_result(op, a, b, cin, w);
            &&& r < crate::bits::modulus(w)
            &&& d.flag(CF) == alu_carry(op, a as int, b as int, cin as int, w)
            &&& d.flag(AF) == alu_adjust(op, a as int, b as int, cin as int)
            &&& d.flag(OF) == alu_overflow(op, a as int, b as int, cin as int, w)
            &&& d.flag(ZF) == (r == 0)
            &&& d.flag(SF) == (crate::bits::signed(r as int, w) < 0)
            &&& d.flag(PF) == even_parity(r as u8)
            &&& forall|mask: u32|
                mask & crate::cpu::state::CC_MASK == 0 ==> #[trigger] d.flag(mask) == c.flag(mask)
        }),
{
    reveal(Cpu::flags_now);
    reveal(Cpu::after_alu);
    reveal(alu_result);
    let d = c.after_alu(op, a, b, w);
    let cin = carry_in(c, op);
    let r = alu_result(op, a, b, cin, w);
    let s = d.cc_sign();
    lemma_logic_narrow(a, b, (crate::bits::modulus(w) - 1) as u32);
    lemma_low_nibble(a, s, r);
    lemma_low_nibble(b, s, r);
    if op == 0 || op == 2 {
        lemma_add_overflow(a, b, cin, r, s);
    } else if op == 3 || op == 5 || op == 7 {
        lemma_one_turn(a as int, b as int, cin as int, w);
        assert((a - b - cin) % (2 * s as int) == (a + 2 * s - b - cin) % (2 * s as int)) by {
            vstd::arithmetic::div_mod::lemma_mod_add_multiples_vanish(a - b - cin, 2 * s as int);
        }
        lemma_sub_overflow(a, b, cin, r, s);
    }
    crate::cpu::state::lemma_pending_flags(
        d.flags,
        0,
        d.cc_cf(),
        d.cc_pf(),
        d.cc_af(),
        d.cc_r == 0,
        d.cc_sf(),
        d.cc_of(),
    );
    assert forall|mask: u32| mask & crate::cpu::state::CC_MASK == 0 implies #[trigger] d.flag(mask)
        == c.flag(mask) by {
        crate::cpu::state::lemma_pending_flags(
            d.flags,
            mask,
            d.cc_cf(),
            d.cc_pf(),
            d.cc_af(),
            d.cc_r == 0,
            d.cc_sf(),
            d.cc_of(),
        );
        crate::cpu::state::lemma_pending_flags(
            c.flags,
            mask,
            c.cc_cf(),
            c.cc_pf(),
            c.cc_af(),
            c.cc_r == 0,
            c.cc_sf(),
            c.cc_of(),
        );
    }
}

/// INC and DEC keep the carry; the other five flags are those of adding or
/// subtracting one.
pub proof fn law_inc_dec_flags(c: Cpu, a: u32, dec: bool, w: u8)
    requires
        w <= 2,
        a < crate::bits::modulus(w),
    ensures
        ({
            let d = c.after_inc_dec(a, dec, w);
            let op: u8 = if dec { 5 } else { 0 };
            let r = inc_dec_value(a, dec, w);
            &&& d.flag(CF) == c.flag(CF)
            &&& d.flag(AF) == alu_adjust(op, a as int, 1, 0)
            &&& d.flag(OF) == alu_overflow(op, a as int, 1, 0, w)
            &&& d.flag(ZF) == (r == 0)
            &&& d.flag(SF) == (crate::bits::signed(r as int, w) < 0)
            &&& d.flag(PF) == even_parity(r as u8)
            &&& r == alu_result(op, a, 1, 0, w)
        }),
{
    reveal(Cpu::flags_now);
    reveal(Cpu::after_inc_dec);
    reveal(Cpu::with_cc_incdec);
    reveal(alu_result);
    reveal(inc_dec_value);
    let d = c.after_inc_dec(a, dec, w);
    let r = inc_dec_value(a, dec, w);
    let s = d.cc_sign();
    lemma_low_nibble(a, s, r);
    assert((c.flags | CF) & CF != 0 && (c.flags & !CF) & CF == 0) by {
        lemma_set_clear(c.flags);
    }
    crate::cpu::state::lemma_pending_flags(
        d.flags,
        0,
        d.cc_cf(),
        d.cc_pf(),
        d.cc_af(),
        d.cc_r == 0,
        d.cc_sf(),
        d.cc_of(),
    );
}

pub proof fn lemma_set_clear(f: u32)
    by (bit_vector)
    ensures
        (f | CF) & CF != 0,
        (f & !CF) & CF == 0,
{
}

/// CMP is SUB without a result: it gives back its first operand, and its flags
/// are those of SUB.
pub proof fn law_compare_is_subtract(c: Cpu, a: u32, b: u32, w: u8)
    requires
        w <= 2,
        a < crate::bits::modulus(w),
        b < crate::bits::modulus(w),
    ensures
        alu_value(c, 7, a, b, w) == a,
        c.after_alu(7, a, b, w).eflags() == c.after_alu(5, a, b, w).eflags(),
{
    reveal(Cpu::flags_now);
    reveal(Cpu::after_alu);
    reveal(alu_result);
    reveal(alu_value);
}

} // verus!
