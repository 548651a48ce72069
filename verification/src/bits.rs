//! Facts about machine words that several modules share.

use vstd::prelude::*;

verus! {

/// Number of one bits in a byte.
pub open spec fn ones(v: u8) -> int {
    v % 2 + v / 2 % 2 + v / 4 % 2 + v / 8 % 2 + v / 16 % 2 + v / 32 % 2 + v / 64 % 2 + v / 128 % 2
}

/// True when the byte holds an even number of one bits.
#[verifier::allow_in_spec]
pub fn even_parity(v: u8) -> bool
    returns
        ones(v) % 2 == 0,
{
    let a: u8 = v ^ (v >> 4);
    let b: u8 = a ^ (a >> 2);
    let c: u8 = b ^ (b >> 1);
    proof {
        lemma_parity_fold(v, a, b, c);
    }
    c & 1 == 0
}

proof fn lemma_parity_fold(v: u8, a: u8, b: u8, c: u8)
    by (bit_vector)
    requires
        a == v ^ (v >> 4),
        b == a ^ (a >> 2),
        c == b ^ (b >> 1),
    ensures
        c & 1 == ones(v) % 2,
{
}

/// Number of distinct values of an operand: 0 stands for a byte, 1 for a word,
/// anything else for a doubleword.
pub open spec fn modulus(w: u8) -> int {
    if w == 0 {
        0x100
    } else if w == 1 {
        0x1_0000
    } else {
        0x1_0000_0000
    }
}

/// The two's complement reading of an operand of the given width.
pub open spec fn signed(v: int, w: u8) -> int {
    if 2 * v >= modulus(w) {
        v - modulus(w)
    } else {
        v
    }
}

/// A byte as a signed number.
#[verifier::allow_in_spec]
pub fn signed8(v: u8) -> i64
    returns
        (if v < 0x80 {
            v as i64
        } else {
            (v - 0x100) as i64
        }),
{
    if v < 0x80 {
        v as i64
    } else {
        v as i64 - 0x100
    }
}

/// A word as a signed number.
#[verifier::allow_in_spec]
pub fn signed16(v: u16) -> i64
    returns
        (if v < 0x8000 {
            v as i64
        } else {
            (v - 0x1_0000) as i64
        }),
{
    if v < 0x8000 {
        v as i64
    } else {
        v as i64 - 0x1_0000
    }
}

/// A doubleword as a signed number.
#[verifier::allow_in_spec]
pub fn signed32(v: u32) -> i64
    returns
        (if v < 0x8000_0000 {
            v as i64
        } else {
            (v - 0x1_0000_0000) as i64
        }),
{
    if v < 0x8000_0000 {
        v as i64
    } else {
        v as i64 - 0x1_0000_0000
    }
}

/// A word or a doubleword as a signed number.
#[verifier::allow_in_spec]
pub fn signed_w(v: u32, wide: bool) -> i64
    returns
        (if wide {
            signed32(v)
        } else {
            signed16(v as u16)
        }),
{
    if wide {
        signed32(v)
    } else {
        signed16(v as u16)
    }
}

/// The low byte of a number in two's complement.
#[verifier::allow_in_spec]
pub fn low8(p: i64) -> u8
    returns
        (p as int % 0x100) as u8,
{
    ((p as i128 + 0x1_0000_0000_0000_0000) as u128 % 0x100) as u8
}

/// The low word of a number in two's complement.
#[verifier::allow_in_spec]
pub fn low16(p: i64) -> u16
    returns
        (p as int % 0x1_0000) as u16,
{
    ((p as i128 + 0x1_0000_0000_0000_0000) as u128 % 0x1_0000) as u16
}

/// The low doubleword of a number in two's complement.
#[verifier::allow_in_spec]
pub fn low32(p: i64) -> u32
    returns
        (p as int % 0x1_0000_0000) as u32,
{
    ((p as i128 + 0x1_0000_0000_0000_0000) as u128 % 0x1_0000_0000) as u32
}

/// The high doubleword of a number in two's complement.
#[verifier::allow_in_spec]
pub fn high32(p: i64) -> u32
    returns
        (p as int / 0x1_0000_0000 % 0x1_0000_0000) as u32,
{
    ((p as i128 + 0x1_0000_0000_0000_0000) as u128 / 0x1_0000_0000 % 0x1_0000_0000) as u32
}

/// The low part of a number, as wide as a word operand.
#[verifier::allow_in_spec]
pub fn low_w(p: i64, wide: bool) -> u32
    returns
        (if wide {
            low32(p)
        } else {
            low16(p) as u32
        }),
{
    if wide {
        low32(p)
    } else {
        low16(p) as u32
    }
}

/// The part of a product above a word operand, as wide as one.
#[verifier::allow_in_spec]
pub fn high_w(p: i64, wide: bool) -> u32
    returns
        (if wide {
            high32(p)
        } else {
            (low32(p) / 0x1_0000) as u32
        }),
{
    if wide {
        high32(p)
    } else {
        low32(p) / 0x1_0000
    }
}

pub open spec fn abs(n: int) -> int {
    if n < 0 {
        -n
    } else {
        n
    }
}

/// Quotient that is rounded towards zero.
pub open spec fn quotient(n: int, b: int) -> int {
    if (n < 0) == (b < 0) {
        abs(n) / abs(b)
    } else {
        -(abs(n) / abs(b))
    }
}

/// Remainder that has the sign of the dividend.
pub open spec fn remainder(n: int, b: int) -> int {
    if n < 0 {
        -(abs(n) % abs(b))
    } else {
        abs(n) % abs(b)
    }
}

/// Quotient times divisor plus remainder is the dividend, and the remainder is
/// smaller than the divisor.
pub proof fn law_division(n: int, b: int)
    requires
        b != 0,
    ensures
        quotient(n, b) * b + remainder(n, b) == n,
        abs(remainder(n, b)) < abs(b),
{
    let x = abs(n);
    let y = abs(b);
    vstd::arithmetic::div_mod::lemma_fundamental_div_mod(x, y);
    vstd::arithmetic::div_mod::lemma_mod_bound(x, y);
    let q = x / y;
    assert(q * b == if b < 0 { -(y * q) } else { y * q }) by (nonlinear_arith)
        requires
            y == (if b < 0 { -b } else { b }),
    ;
    assert((-q) * b == -(q * b)) by (nonlinear_arith);
}

/// The magnitude of a number.
#[verifier::allow_in_spec]
pub fn magnitude(n: i64) -> u64
    returns
        abs(n as int) as u64,
{
    if n < 0 {
        (-(n as i128)) as u64
    } else {
        n as u64
    }
}

} // verus!
