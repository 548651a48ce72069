//! Floating-point numbers as bit patterns.
//!
//! What can be told from the bits is worked out here: order, sign, class, rounding
//! and the conversions between formats. Sums, products and functions are asked of a
//! floating-point unit: an instruction leaves a [`FloatRequest`] in the
//! machine, and [`crate::cpu::fpu::complete_float`] takes what the unit computed.

use vstd::prelude::*;

verus! {

/// How two numbers compare; a NaN compares with nothing.
#[derive(Clone, Copy, Debug, PartialEq, Eq, Structural)]
pub enum FloatOrder {
    Less,
    Equal,
    Greater,
    Unordered,
}

/// The lanes that an SSE operation works on.
#[derive(Clone, Copy, Debug, PartialEq, Eq, Structural)]
pub enum SseFormat {
    PackedSingle,
    PackedDouble,
    ScalarSingle,
    ScalarDouble,
}

#[derive(Clone, Copy, Debug, PartialEq, Eq, Structural)]
pub enum Arith {
    Add,
    Sub,
    Mul,
    Div,
    Sqrt,
    Min,
    Max,
}

/// What a floating-point unit is asked for. Operands are bit patterns in `a` and
/// `b` of the request.
#[derive(Clone, Copy, Debug, PartialEq, Eq, Structural)]
pub enum FloatOp {
    /// `a` op `b` on doubles.
    Double(Arith),
    /// Each lane of `a` op the same lane of `b`; a scalar is in the low lane.
    Lanes { op: Arith, format: SseFormat },
    /// Two to the power of `a`, less one.
    PowerOfTwoLess1,
    /// `b` times the binary logarithm of `a`, or of `a` plus one.
    TimesLog2,
    TimesLog2Plus1,
    Sine,
    Cosine,
    Tangent,
    /// Angle of the point with ordinate `b` and abscissa `a`.
    ArcTangent,
    /// Sine, and cosine as the second result.
    SineCosine,
    /// Exponent, and significand as the second result.
    Extract,
    /// Remainder of `a` by `b` for a quotient rounded to nearest.
    NearestRemainder,
    /// Remainder for a quotient without its fraction, whose magnitude is the second
    /// result.
    Remainder,
}

/// Where a result goes.
#[derive(Clone, Copy, Debug, PartialEq, Eq, Structural)]
pub enum FloatThen {
    /// Into stack register `i`, then the stack is popped if so.
    SetSt { i: usize, pop: bool },
    /// Into the top of the stack, then the second result is pushed.
    SetPush { clears_c2: bool },
    /// Into the top of the stack, then one is pushed; condition 2 is cleared.
    SetPushOne,
    /// Into the top of the stack; condition 2 is cleared.
    SetClearC2,
    /// Into the top of the stack; the conditions tell three bits of the second
    /// result.
    SetQuotient,
    Xmm { reg: usize },
    XmmLow32 { reg: usize },
    XmmLow64 { reg: usize },
}

#[derive(Clone, Copy, Debug, PartialEq, Eq, Structural)]
pub struct FloatRequest {
    pub op: FloatOp,
    pub a: u128,
    pub b: u128,
    pub target: FloatThen,
}

pub const SIGN64: u64 = 0x8000_0000_0000_0000;
pub const INF64: u64 = 0x7FF0_0000_0000_0000;

/// A double without its sign.
#[verifier::allow_in_spec]
pub fn magnitude64(v: u64) -> u64
    returns
        (v % 0x8000_0000_0000_0000) as u64,
{
    v % 0x8000_0000_0000_0000
}

#[verifier::allow_in_spec]
pub fn is_nan64(v: u64) -> bool
    returns
        magnitude64(v) > INF64,
{
    magnitude64(v) > INF64
}

/// Where a double stands among all doubles that are not NaN: the two zeros stand at
/// the same place.
pub open spec fn rank64(v: u64) -> int {
    if v >= SIGN64 {
        -(magnitude64(v) as int)
    } else {
        magnitude64(v) as int
    }
}

/// How two doubles compare.
pub open spec fn order_of64(a: u64, b: u64) -> FloatOrder {
    if is_nan64(a) || is_nan64(b) {
        FloatOrder::Unordered
    } else if rank64(a) < rank64(b) {
        FloatOrder::Less
    } else if rank64(a) == rank64(b) {
        FloatOrder::Equal
    } else {
        FloatOrder::Greater
    }
}

pub fn order64(a: u64, b: u64) -> (r: FloatOrder)
    ensures
        r == order_of64(a, b),
{
    if is_nan64(a) || is_nan64(b) {
        return FloatOrder::Unordered;
    }
    let x: i128 = if a >= SIGN64 {
        -(magnitude64(a) as i128)
    } else {
        magnitude64(a) as i128
    };
    let y: i128 = if b >= SIGN64 {
        -(magnitude64(b) as i128)
    } else {
        magnitude64(b) as i128
    };
    if x < y {
        FloatOrder::Less
    } else if x == y {
        FloatOrder::Equal
    } else {
        FloatOrder::Greater
    }
}

/// A comparison turned round gives the order turned round; a number equals itself
/// unless it is a NaN.
pub proof fn law_order_turned(a: u64, b: u64)
    ensures
        (order_of64(a, b) == FloatOrder::Less) == (order_of64(b, a) == FloatOrder::Greater),
        (order_of64(a, b) == FloatOrder::Equal) == (order_of64(b, a) == FloatOrder::Equal),
        (order_of64(a, b) == FloatOrder::Unordered) == (order_of64(b, a) == FloatOrder::Unordered),
        (order_of64(a, a) == FloatOrder::Equal) == !is_nan64(a),
{
}

/// A significand doubled until it reaches `top`, and how often.
pub open spec fn normalized(f: int, top: int) -> (int, nat)
    decreases 2 * top - f,
{
    if f <= 0 || f >= top {
        (f, 0)
    } else {
        let (m, k) = normalized(2 * f, top);
        (m, k + 1)
    }
}

/// Doubling ends between `top` and twice that, after no more steps than there are
/// powers of two in between, and multiplies by a power of two.
pub proof fn lemma_normalized(f: int, top: int, low: int, steps: nat)
    requires
        0 < low <= f < 2 * top,
        low * vstd::arithmetic::power2::pow2(steps) >= top,
    ensures
        top <= normalized(f, top).0 < 2 * top,
        normalized(f, top).1 <= steps,
        normalized(f, top).0 == f * vstd::arithmetic::power2::pow2(normalized(f, top).1),
    decreases steps,
{
    vstd::arithmetic::power2::lemma2_to64();
    vstd::arithmetic::power2::lemma2_to64_rest();
    if f < top {
        if steps == 0 {
            assert(low * 1 == low);
            assert(false);
        }
        vstd::arithmetic::power2::lemma_pow2_unfold(steps);
        let p = vstd::arithmetic::power2::pow2((steps - 1) as nat) as int;
        assert(low * (2 * p) == (2 * low) * p) by (nonlinear_arith);
        lemma_normalized(2 * f, top, 2 * low, (steps - 1) as nat);
        let k = normalized(2 * f, top).1;
        vstd::arithmetic::power2::lemma_pow2_unfold(k + 1);
        let q = vstd::arithmetic::power2::pow2(k) as int;
        assert((2 * f) * q == f * (2 * q)) by (nonlinear_arith);
    } else {
        assert(f * 1 == f);
    }
}

fn normalize(f: u64, top: u64) -> (r: (u64, u32))
    requires
        0 < f < 2 * top,
        top <= 0x8000_0000_0000_0000,
    ensures
        (r.0 as int, r.1 as nat) == normalized(f as int, top as int),
        top <= r.0 < 2 * top,
        r.1 <= 63,
{
    proof {
        vstd::arithmetic::power2::lemma2_to64();
        vstd::arithmetic::power2::lemma2_to64_rest();
        lemma_normalized(f as int, top as int, 1, 63);
    }
    let mut m: u64 = f;
    let mut k: u32 = 0;
    let ghost whole = normalized(f as int, top as int);
    while m < top
        invariant
            0 < m < 2 * top,
            top <= 0x8000_0000_0000_0000,
            whole.1 <= 63,
            normalized(m as int, top as int).0 == whole.0,
            normalized(m as int, top as int).1 + k == whole.1,
        decreases 2 * top - m,
    {
        m = 2 * m;
        k = k + 1;
    }
    (m, k)
}

/// A single as a double, which is exact. A NaN stays one and becomes quiet.
#[verifier::opaque]
pub open spec fn widened(v: u32) -> u64 {
    let sign: int = if v >= 0x8000_0000 { 0x8000_0000_0000_0000 } else { 0 };
    let e = (v / 0x80_0000 % 0x100) as int;
    let f = (v % 0x80_0000) as int;
    if e == 0xFF {
        if f == 0 {
            (sign + 0x7FF0_0000_0000_0000) as u64
        } else {
            (sign + 0x7FF8_0000_0000_0000 + f % 0x40_0000 * 0x2000_0000) as u64
        }
    } else if e != 0 {
        (sign + (e + 896) * 0x10_0000_0000_0000 + f * 0x2000_0000) as u64
    } else if f == 0 {
        sign as u64
    } else {
        let (m, k) = normalized(f, 0x80_0000);
        (sign + (897 - k) * 0x10_0000_0000_0000 + (m - 0x80_0000) * 0x2000_0000) as u64
    }
}

/// A single as a double.
pub fn widen(v: u32) -> (r: u64)
    ensures
        r == widened(v),
{
    proof {
        reveal(widened);
    }
    let sign: u64 = if v >= 0x8000_0000 {
        SIGN64
    } else {
        0
    };
    let e: u64 = (v / 0x80_0000 % 0x100) as u64;
    let f: u64 = (v % 0x80_0000) as u64;
    if e == 0xFF {
        if f == 0 {
            sign + INF64
        } else {
            sign + 0x7FF8_0000_0000_0000 + f % 0x40_0000 * 0x2000_0000
        }
    } else if e != 0 {
        sign + (e + 896) * 0x10_0000_0000_0000 + f * 0x2000_0000
    } else if f == 0 {
        sign
    } else {
        let p = normalize(f, 0x80_0000);
        sign + (897 - p.1 as u64) * 0x10_0000_0000_0000 + (p.0 - 0x80_0000) * 0x2000_0000
    }
}

/// Significand and exponent of a finite single: it is the first times two to the
/// power of the second, but for its sign.
pub open spec fn parts32(v: u32) -> (int, int) {
    let e = (v / 0x80_0000 % 0x100) as int;
    let f = (v % 0x80_0000) as int;
    if e == 0 {
        (f, -149)
    } else {
        (f + 0x80_0000, e - 150)
    }
}

/// Significand and exponent of a finite double.
pub open spec fn parts64(v: u64) -> (int, int) {
    let e = (v / 0x10_0000_0000_0000 % 0x800) as int;
    let f = (v % 0x10_0000_0000_0000) as int;
    if e == 0 {
        (f, -1074)
    } else {
        (f + 0x10_0000_0000_0000, e - 1075)
    }
}

fn split_double(v: u64) -> (r: (u64, i32))
    ensures
        (r.0 as int, r.1 as int) == parts64(v),
        r.0 < 0x20_0000_0000_0000,
        magnitude64(v) != 0 ==> r.0 > 0,
        -1074 <= r.1 <= 972,
{
    let e: u64 = v / 0x10_0000_0000_0000 % 0x800;
    let f: u64 = v % 0x10_0000_0000_0000;
    if e == 0 {
        (f, -1074)
    } else {
        (f + 0x10_0000_0000_0000, e as i32 - 1075)
    }
}

/// The double that a finite single becomes is the same number: its significand is
/// that of the single times a power of two by which the exponent is smaller.
pub proof fn law_widen_is_exact(v: u32)
    requires
        v / 0x80_0000 % 0x100 != 0xFF,
    ensures
        ({
            let (m, e) = parts32(v);
            let (n, x) = parts64(widened(v));
            &&& (widened(v) >= SIGN64) == (v >= 0x8000_0000)
            &&& m == 0 ==> n == 0
            &&& m != 0 ==> e >= x && n == m * vstd::arithmetic::power2::pow2((e - x) as nat)
        }),
{
    reveal(widened);
    vstd::arithmetic::power2::lemma2_to64();
    vstd::arithmetic::power2::lemma2_to64_rest();
    let sign: int = if v >= 0x8000_0000 { 0x8000_0000_0000_0000 } else { 0 };
    let e = (v / 0x80_0000 % 0x100) as int;
    let f = (v % 0x80_0000) as int;
    let w = widened(v);
    if e != 0 {
        let top = e + 896;
        lemma_fields(sign, top, f * 0x2000_0000);
        assert(w == sign + top * 0x10_0000_0000_0000 + f * 0x2000_0000);
        assert(parts64(w) == (f * 0x2000_0000 + 0x10_0000_0000_0000, top - 1075));
        assert((f + 0x80_0000) * 0x2000_0000 == f * 0x2000_0000 + 0x10_0000_0000_0000);
    } else if f != 0 {
        lemma_normalized(f, 0x80_0000, 1, 23);
        let (m, k) = normalized(f, 0x80_0000);
        let top = 897 - k;
        lemma_fields(sign, top, (m - 0x80_0000) * 0x2000_0000);
        vstd::arithmetic::power2::lemma_pow2_adds(k, 29);
        let p = vstd::arithmetic::power2::pow2(k) as int;
        assert(f * (p * 0x2000_0000) == (f * p) * 0x2000_0000) by (nonlinear_arith);
        assert(parts64(w) == (m * 0x2000_0000, top - 1075));
    }
}

/// The fields of a double are read back.
proof fn lemma_fields(sign: int, e: int, f: int)
    requires
        sign == 0 || sign == 0x8000_0000_0000_0000,
        0 < e < 0x7FF,
        0 <= f < 0x10_0000_0000_0000,
    ensures
        ({
            let w = sign + e * 0x10_0000_0000_0000 + f;
            &&& 0 <= w <= u64::MAX
            &&& w / 0x10_0000_0000_0000 % 0x800 == e
            &&& w % 0x10_0000_0000_0000 == f
            &&& (w >= 0x8000_0000_0000_0000) == (sign != 0)
        }),
{
}

/// A small integer as a double, which is exact.
#[verifier::opaque]
pub open spec fn double_of(v: int) -> u64 {
    let sign: int = if v < 0 { 0x8000_0000_0000_0000 } else { 0 };
    if v == 0 {
        0
    } else {
        let (m, k) = normalized(crate::bits::abs(v), 0x10_0000_0000_0000);
        (sign + (1075 - k) * 0x10_0000_0000_0000 + m - 0x10_0000_0000_0000) as u64
    }
}

/// A small integer as a double.
pub fn double_of_int(v: i64) -> (r: u64)
    requires
        -0x10_0000_0000_0000 <= v <= 0x10_0000_0000_0000,
    ensures
        r == double_of(v as int),
{
    proof {
        reveal(double_of);
    }
    if v == 0 {
        return 0;
    }
    let sign: u64 = if v < 0 {
        SIGN64
    } else {
        0
    };
    let p = normalize(crate::bits::magnitude(v), 0x10_0000_0000_0000);
    sign + (1075 - p.1 as u64) * 0x10_0000_0000_0000 + (p.0 - 0x10_0000_0000_0000)
}

/// The double of a 32-bit integer is that integer.
pub proof fn law_double_of_int_is_exact(v: int)
    requires
        -0x8000_0000 <= v < 0x8000_0000,
        v != 0,
    ensures
        ({
            let (n, x) = parts64(double_of(v));
            &&& (double_of(v) >= SIGN64) == (v < 0)
            &&& x <= 0
            &&& n == crate::bits::abs(v) * vstd::arithmetic::power2::pow2((-x) as nat)
        }),
{
    reveal(double_of);
    vstd::arithmetic::power2::lemma2_to64();
    vstd::arithmetic::power2::lemma2_to64_rest();
    lemma_normalized(crate::bits::abs(v), 0x10_0000_0000_0000, 1, 52);
    let (m, k) = normalized(crate::bits::abs(v), 0x10_0000_0000_0000);
    let sign: int = if v < 0 { 0x8000_0000_0000_0000 } else { 0 };
    lemma_fields(sign, 1075 - k, m - 0x10_0000_0000_0000);
}

/// A double without its fraction, brought into the range of a 32-bit integer; the
/// least integer for a NaN.
#[verifier::opaque]
pub open spec fn truncated(v: u64) -> int {
    let e = (v / 0x10_0000_0000_0000 % 0x800) as int;
    let f = (v % 0x10_0000_0000_0000) as int;
    if is_nan64(v) {
        -0x8000_0000
    } else if e < 1023 {
        0
    } else if e >= 1054 {
        if v >= SIGN64 {
            -0x8000_0000
        } else {
            0x7FFF_FFFF
        }
    } else {
        let q = (0x10_0000_0000_0000 + f) / vstd::arithmetic::power2::pow2(
            (1075 - e) as nat,
        ) as int;
        if v >= SIGN64 {
            -q
        } else {
            q
        }
    }
}

/// A double without its fraction, as a 32-bit integer.
pub fn truncate(v: u64) -> (r: i64)
    ensures
        r == truncated(v),
        -0x8000_0000 <= r <= 0x7FFF_FFFF,
{
    proof {
        reveal(truncated);
    }
    let e: u64 = v / 0x10_0000_0000_0000 % 0x800;
    let f: u64 = v % 0x10_0000_0000_0000;
    if is_nan64(v) {
        -0x8000_0000
    } else if e < 1023 {
        0
    } else if e >= 1054 {
        if v >= SIGN64 {
            -0x8000_0000
        } else {
            0x7FFF_FFFF
        }
    } else {
        let n: u64 = 1075 - e;
        let sig: u64 = 0x10_0000_0000_0000 + f;
        let q: u64 = sig >> n;
        proof {
            vstd::bits::lemma_u64_shr_is_div(sig, n);
            vstd::arithmetic::power2::lemma2_to64();
            if n > 22 {
                vstd::arithmetic::power2::lemma_pow2_strictly_increases(22, n as nat);
            }
            let p = vstd::arithmetic::power2::pow2(n as nat) as int;
            assert(0 <= sig as int / p <= 0x7FFF_FFFF) by (nonlinear_arith)
                requires
                    p >= 0x40_0000,
                    0 <= sig < 0x20_0000_0000_0000,
            ;
        }
        if v >= SIGN64 {
            -(q as i64)
        } else {
            q as i64
        }
    }
}

/// The double of a 32-bit integer truncates to that integer.
pub proof fn law_truncate_gives_back(v: int)
    requires
        -0x8000_0000 <= v < 0x8000_0000,
    ensures
        truncated(double_of(v)) == v,
{
    reveal(truncated);
    reveal(double_of);
    vstd::arithmetic::power2::lemma2_to64();
    vstd::arithmetic::power2::lemma2_to64_rest();
    if v != 0 {
        lemma_normalized(crate::bits::abs(v), 0x10_0000_0000_0000, 1, 52);
        let (m, k) = normalized(crate::bits::abs(v), 0x10_0000_0000_0000);
        let sign: int = if v < 0 { 0x8000_0000_0000_0000 } else { 0 };
        lemma_fields(sign, 1075 - k, m - 0x10_0000_0000_0000);
        let p = vstd::arithmetic::power2::pow2(k) as int;
        let a = crate::bits::abs(v);
        vstd::arithmetic::power2::lemma_pow2_pos(k);
        vstd::arithmetic::div_mod::lemma_div_by_multiple(a, p);
        if k < 21 {
            vstd::arithmetic::power2::lemma_pow2_strictly_increases(k, 21);
            assert(a * p < 0x10_0000_0000_0000) by (nonlinear_arith)
                requires
                    0 <= a <= 0x8000_0000,
                    0 < p <= 0x20_0000 - 1,
                    2 * p <= 0x20_0000,
            ;
            assert(false);
        }
        if k == 21 {
            assert(a >= 0x8000_0000) by (nonlinear_arith)
                requires
                    a * p >= 0x10_0000_0000_0000,
                    p == 0x20_0000,
            ;
        }
    }
}

/// A double as an extended number: significand with an explicit integer bit, and
/// sign and exponent. Every double has one, exactly.
#[verifier::opaque]
pub open spec fn extended_of(v: u64) -> (u64, u16) {
    let sign: int = if v >= SIGN64 { 0x8000 } else { 0 };
    let e = (v / 0x10_0000_0000_0000 % 0x800) as int;
    let f = (v % 0x10_0000_0000_0000) as int;
    if e == 0 {
        if f == 0 {
            (0, sign as u16)
        } else {
            let (m, k) = normalized(f, 0x8000_0000_0000_0000);
            (m as u64, (sign + 15372 - k) as u16)
        }
    } else if e == 0x7FF {
        ((0x8000_0000_0000_0000 + f * 0x800) as u64, (sign + 0x7FFF) as u16)
    } else {
        ((0x8000_0000_0000_0000 + f * 0x800) as u64, (sign + e + 15360) as u16)
    }
}

/// A double as an extended number.
pub fn f64_to_f80(v: u64) -> (r: (u64, u16))
    ensures
        r == extended_of(v),
{
    proof {
        reveal(extended_of);
    }
    let sign: u16 = if v >= SIGN64 {
        0x8000
    } else {
        0
    };
    let e: u16 = (v / 0x10_0000_0000_0000 % 0x800) as u16;
    let f: u64 = v % 0x10_0000_0000_0000;
    if e == 0 {
        if f == 0 {
            (0, sign)
        } else {
            let p = normalize(f, 0x8000_0000_0000_0000);
            (p.0, sign + (15372 - p.1 as u16))
        }
    } else if e == 0x7FF {
        (0x8000_0000_0000_0000 + f * 0x800, sign + 0x7FFF)
    } else {
        (0x8000_0000_0000_0000 + f * 0x800, sign + e + 15360)
    }
}

/// The extended number of a finite double is the same number: significand times two
/// to the power of the exponent less 16446.
pub proof fn law_extended_is_exact(v: u64)
    requires
        magnitude64(v) < INF64,
    ensures
        ({
            let (m, x) = parts64(v);
            let (n, se) = extended_of(v);
            let e = se as int % 0x8000 - 16446;
            &&& (se >= 0x8000) == (v >= SIGN64)
            &&& m == 0 ==> n == 0
            &&& m != 0 ==> n >= 0x8000_0000_0000_0000 && x >= e && n == m
                * vstd::arithmetic::power2::pow2((x - e) as nat)
        }),
{
    reveal(extended_of);
    vstd::arithmetic::power2::lemma2_to64();
    vstd::arithmetic::power2::lemma2_to64_rest();
    let sign: int = if v >= SIGN64 { 0x8000 } else { 0 };
    let e = (v / 0x10_0000_0000_0000 % 0x800) as int;
    let f = (v % 0x10_0000_0000_0000) as int;
    assert(e < 0x7FF);
    if e != 0 {
        assert(extended_of(v).1 == sign + e + 15360);
        assert(extended_of(v).1 as int % 0x8000 == e + 15360);
        assert((f + 0x10_0000_0000_0000) * 0x800 == 0x8000_0000_0000_0000 + f * 0x800);
    } else if f != 0 {
        lemma_normalized(f, 0x8000_0000_0000_0000, 1, 63);
        let k = normalized(f, 0x8000_0000_0000_0000).1;
        assert(extended_of(v).1 == sign + 15372 - k);
        assert(extended_of(v).1 as int % 0x8000 == 15372 - k);
    }
}

/// `m` divided by two to the power of `k`, to the nearest integer; to the even one of
/// two that are equally near.
pub open spec fn nearest(m: int, k: nat) -> int {
    let p = vstd::arithmetic::power2::pow2(k) as int;
    let q = m / p;
    let r = m % p;
    if 2 * r > p || (2 * r == p && q % 2 == 1) {
        q + 1
    } else {
        q
    }
}

/// The nearest integer is less than one half away, or just that.
pub proof fn law_nearest(m: int, k: nat)
    ensures
        ({
            let p = vstd::arithmetic::power2::pow2(k) as int;
            let d = m - nearest(m, k) * p;
            -p <= 2 * d <= p
        }),
{
    let p = vstd::arithmetic::power2::pow2(k) as int;
    vstd::arithmetic::power2::lemma_pow2_pos(k);
    vstd::arithmetic::div_mod::lemma_fundamental_div_mod(m, p);
    let q = m / p;
    let r = m % p;
    assert(q * p == p * q && (q + 1) * p == p * q + p) by (nonlinear_arith);
    assert(0 <= r < p) by (nonlinear_arith)
        requires
            p > 0,
            r == m % p,
    ;
}

/// What is a multiple is not changed by rounding.
proof fn lemma_nearest_exact(q: int, k: nat)
    requires
        0 <= q,
    ensures
        nearest(q * vstd::arithmetic::power2::pow2(k), k) == q,
{
    let p = vstd::arithmetic::power2::pow2(k) as int;
    vstd::arithmetic::power2::lemma_pow2_pos(k);
    vstd::arithmetic::div_mod::lemma_div_by_multiple(q, p);
    vstd::arithmetic::div_mod::lemma_mod_multiples_basic(q, p);
}

proof fn lemma_nearest_far(m: int, k: nat)
    requires
        0 <= m < 0x1_0000_0000_0000_0000,
        k >= 65,
    ensures
        nearest(m, k) == 0,
{
    vstd::arithmetic::power2::lemma2_to64();
    vstd::arithmetic::power2::lemma2_to64_rest();
    vstd::arithmetic::power2::lemma_pow2_unfold(65);
    if k > 65 {
        vstd::arithmetic::power2::lemma_pow2_strictly_increases(65, k);
    }
    let p = vstd::arithmetic::power2::pow2(k) as int;
    vstd::arithmetic::div_mod::lemma_basic_div(m, p);
    vstd::arithmetic::div_mod::lemma_small_mod(m as nat, p as nat);
}

fn round_off(m: u64, k: u32) -> (r: u64)
    requires
        k >= 1,
    ensures
        r == nearest(m as int, k as nat),
        r <= 0x8000_0000_0000_0000,
{
    proof {
        vstd::arithmetic::power2::lemma2_to64();
        vstd::arithmetic::power2::lemma2_to64_rest();
    }
    if k >= 65 {
        proof {
            lemma_nearest_far(m as int, k as nat);
        }
        0
    } else if k == 64 {
        if m > 0x8000_0000_0000_0000 {
            1
        } else {
            0
        }
    } else {
        proof {
            vstd::arithmetic::power2::lemma_pow2_strictly_increases(k as nat, 64);
            vstd::arithmetic::power2::lemma_pow2_unfold(k as nat);
            vstd::arithmetic::power2::lemma_pow2_pos((k - 1) as nat);
            vstd::bits::lemma_u64_shl_is_mul(1, k as u64);
        }
        let p: u64 = 1u64 << (k as u64);
        let q: u64 = m / p;
        let r: u64 = m % p;
        assert(q <= 0x7FFF_FFFF_FFFF_FFFF) by (nonlinear_arith)
            requires
                q == m / p,
                p >= 2,
                0 <= m < 0x1_0000_0000_0000_0000,
        ;
        if r > p - r || (r == p - r && q % 2 == 1) {
            q + 1
        } else {
            q
        }
    }
}

/// The double nearest to a number of 64 significant bits, `m` times two to the power
/// of `x`.
#[verifier::opaque]
pub open spec fn nearest_double(neg: bool, m: int, x: int) -> u64 {
    let sign: int = if neg { 0x8000_0000_0000_0000 } else { 0 };
    let e = x + 1086;
    if e >= 1 {
        let b = (e - 1) * 0x10_0000_0000_0000 + nearest(m, 11);
        (sign + if b > INF64 { INF64 as int } else { b }) as u64
    } else {
        (sign + nearest(m, (12 - e) as nat)) as u64
    }
}

fn encode_double(neg: bool, m: u64, x: i32) -> (r: u64)
    requires
        m >= 0x8000_0000_0000_0000,
        -0x10_0000 <= x <= 0x10_0000,
    ensures
        r == nearest_double(neg, m as int, x as int),
{
    proof {
        reveal(nearest_double);
        vstd::arithmetic::power2::lemma2_to64();
    }
    let sign: u64 = if neg {
        SIGN64
    } else {
        0
    };
    let e: i32 = x + 1086;
    if e >= 1 {
        let f: u64 = round_off(m, 11);
        assert(f <= 0x20_0000_0000_0000);
        if e > 0x7FF {
            sign + INF64
        } else {
            let b: u64 = (e - 1) as u64 * 0x10_0000_0000_0000 + f;
            if b > INF64 {
                sign + INF64
            } else {
                sign + b
            }
        }
    } else {
        proof {
            law_nearest(m as int, (12 - e) as nat);
            lemma_nearest_small(m as int, (12 - e) as nat);
        }
        sign + round_off(m, (12 - e) as u32)
    }
}

proof fn lemma_nearest_small(m: int, k: nat)
    requires
        0 <= m < 0x1_0000_0000_0000_0000,
        k >= 12,
    ensures
        0 <= nearest(m, k) <= 0x10_0000_0000_0000,
{
    vstd::arithmetic::power2::lemma2_to64();
    if k > 12 {
        vstd::arithmetic::power2::lemma_pow2_strictly_increases(12, k);
    }
    let p = vstd::arithmetic::power2::pow2(k) as int;
    let q = m / p;
    assert(0 <= q < 0x10_0000_0000_0000) by (nonlinear_arith)
        requires
            q == m / p,
            p >= 0x1000,
            0 <= m < 0x1_0000_0000_0000_0000,
    ;
}

/// The double of an extended number: the nearest one.
#[verifier::opaque]
pub open spec fn double_of_extended(m: u64, se: u16) -> u64 {
    let neg = se >= 0x8000;
    let sign: int = if neg { 0x8000_0000_0000_0000 } else { 0 };
    let e = (se % 0x8000) as int;
    if e == 0x7FFF {
        if m % 0x8000_0000_0000_0000 == 0 {
            (sign + INF64) as u64
        } else {
            0x7FF8_0000_0000_0000
        }
    } else if m == 0 {
        sign as u64
    } else {
        let (n, k) = normalized(m as int, 0x8000_0000_0000_0000);
        nearest_double(neg, n, e - k - 16446)
    }
}

/// An extended number, significand and then sign and exponent, as a double.
pub fn f80_to_f64(m: u64, se: u16) -> (r: u64)
    ensures
        r == double_of_extended(m, se),
{
    proof {
        reveal(double_of_extended);
    }
    let neg = se >= 0x8000;
    let sign: u64 = if neg {
        SIGN64
    } else {
        0
    };
    let e: u16 = se % 0x8000;
    if e == 0x7FFF {
        if m % 0x8000_0000_0000_0000 == 0 {
            sign + INF64
        } else {
            0x7FF8_0000_0000_0000
        }
    } else if m == 0 {
        sign
    } else {
        let p = normalize(m, 0x8000_0000_0000_0000);
        encode_double(neg, p.0, e as i32 - p.1 as i32 - 16446)
    }
}

/// A double that becomes an extended number and a double again is what it was,
/// unless it is a NaN; a NaN stays one.
pub proof fn law_extended_round_trip(v: u64)
    ensures
        !is_nan64(v) ==> double_of_extended(extended_of(v).0, extended_of(v).1) == v,
        is_nan64(v) ==> is_nan64(double_of_extended(extended_of(v).0, extended_of(v).1)),
{
    reveal(extended_of);
    reveal(double_of_extended);
    reveal(nearest_double);
    vstd::arithmetic::power2::lemma2_to64();
    vstd::arithmetic::power2::lemma2_to64_rest();
    let sign: int = if v >= SIGN64 { 0x8000 } else { 0 };
    let e = (v / 0x10_0000_0000_0000 % 0x800) as int;
    let f = (v % 0x10_0000_0000_0000) as int;
    let (m, se) = extended_of(v);
    if e == 0 {
        if f != 0 {
            lemma_normalized(f, 0x8000_0000_0000_0000, 1, 63);
            let (n, k) = normalized(f, 0x8000_0000_0000_0000);
            assert(normalized(m as int, 0x8000_0000_0000_0000) == (m as int, 0nat));
            if k < 12 {
                if k < 11 {
                    vstd::arithmetic::power2::lemma_pow2_strictly_increases(k, 11);
                }
                let p = vstd::arithmetic::power2::pow2(k) as int;
                assert(f * p < 0x8000_0000_0000_0000) by (nonlinear_arith)
                    requires
                        0 < f < 0x10_0000_0000_0000,
                        0 < p <= 0x800,
                ;
                assert(false);
            }
            lemma_nearest_exact(f, k);
            assert(se as int % 0x8000 == 15372 - k);
        }
    } else if e == 0x7FF {
        assert(se as int % 0x8000 == 0x7FFF);
        assert(m as int % 0x8000_0000_0000_0000 == f * 0x800);
    } else {
        assert(normalized(m as int, 0x8000_0000_0000_0000) == (m as int, 0nat));
        lemma_nearest_exact(0x10_0000_0000_0000 + f, 11);
        assert(m == (0x10_0000_0000_0000 + f) * 0x800);
        assert(se as int % 0x8000 == e + 15360);
    }
}

/// A 64-bit integer as a double: the nearest one.
#[verifier::opaque]
pub open spec fn double_of_int64(v: int) -> u64 {
    if v == 0 {
        0
    } else {
        let (m, k) = normalized(crate::bits::abs(v), 0x8000_0000_0000_0000);
        nearest_double(v < 0, m, -k)
    }
}

pub fn int64_to_double(v: i64) -> (r: u64)
    ensures
        r == double_of_int64(v as int),
{
    proof {
        reveal(double_of_int64);
    }
    if v == 0 {
        return 0;
    }
    let p = normalize(crate::bits::magnitude(v), 0x8000_0000_0000_0000);
    encode_double(v < 0, p.0, -(p.1 as i32))
}

/// The magnitude of a double rounded to an integer: 0 to nearest, 1 down, 2 up, 3
/// towards zero.
pub open spec fn rounded_magnitude(v: u64, rounding: u8) -> int {
    let (s, x) = parts64(v);
    if x >= 0 {
        s * vstd::arithmetic::power2::pow2(x as nat)
    } else {
        let p = vstd::arithmetic::power2::pow2((-x) as nat) as int;
        let away = (rounding == 1 && v >= SIGN64) || (rounding == 2 && v < SIGN64);
        if rounding == 0 {
            nearest(s, (-x) as nat)
        } else if away && s % p != 0 {
            s / p + 1
        } else {
            s / p
        }
    }
}

/// A double rounded to an integer of so many bytes; the least one for a NaN and for
/// what does not fit.
#[verifier::opaque]
pub open spec fn integer_of(v: u64, rounding: u8, bytes: u8) -> int {
    let top: int = if bytes == 2 {
        0x8000
    } else if bytes == 4 {
        0x8000_0000
    } else {
        0x8000_0000_0000_0000
    };
    let r = rounded_magnitude(v, rounding);
    if is_nan64(v) || r >= top {
        -top
    } else if v >= SIGN64 {
        -r
    } else {
        r
    }
}

/// The rounded magnitude, where it is no greater than two to the power of 63.
fn round_magnitude(v: u64, rounding: u8) -> (r: Option<u64>)
    ensures
        match r {
            Some(q) => q == rounded_magnitude(v, rounding) && q <= 0x8000_0000_0000_0000,
            None => rounded_magnitude(v, rounding) > 0x8000_0000_0000_0000,
        },
{
    let e: u64 = v / 0x10_0000_0000_0000 % 0x800;
    let f: u64 = v % 0x10_0000_0000_0000;
    proof {
        vstd::arithmetic::power2::lemma2_to64();
        vstd::arithmetic::power2::lemma2_to64_rest();
    }
    if e >= 1075 {
        let n: u64 = e - 1075;
        let s: u64 = f + 0x10_0000_0000_0000;
        if n > 11 {
            proof {
                if n > 12 {
                    vstd::arithmetic::power2::lemma_pow2_strictly_increases(12, n as nat);
                }
                let p = vstd::arithmetic::power2::pow2(n as nat) as int;
                assert(s * p > 0x8000_0000_0000_0000) by (nonlinear_arith)
                    requires
                        s >= 0x10_0000_0000_0000,
                        p >= 0x1000,
                ;
            }
            return None;
        }
        proof {
            if n < 11 {
                vstd::arithmetic::power2::lemma_pow2_strictly_increases(n as nat, 11);
            }
            let p = vstd::arithmetic::power2::pow2(n as nat) as int;
            assert(0 <= s * p <= 0xFFFF_FFFF_FFFF_F800) by (nonlinear_arith)
                requires
                    0 <= s < 0x20_0000_0000_0000,
                    0 < p <= 0x800,
            ;
            vstd::bits::lemma_u64_shl_is_mul(s, n);
        }
        let q: u64 = s << n;
        if q > 0x8000_0000_0000_0000 {
            return None;
        }
        return Some(q);
    }
    let s: u64 = if e == 0 {
        f
    } else {
        f + 0x10_0000_0000_0000
    };
    let k: u32 = if e == 0 {
        1074
    } else {
        (1075 - e) as u32
    };
    if rounding == 0 {
        return Some(round_off(s, k));
    }
    let away = (rounding == 1 && v >= SIGN64) || (rounding == 2 && v < SIGN64);
    if k >= 64 {
        proof {
            if k > 64 {
                vstd::arithmetic::power2::lemma_pow2_strictly_increases(64, k as nat);
            }
            let p = vstd::arithmetic::power2::pow2(k as nat) as int;
            vstd::arithmetic::div_mod::lemma_basic_div(s as int, p);
            vstd::arithmetic::div_mod::lemma_small_mod(s as nat, p as nat);
        }
        if away && s != 0 {
            Some(1)
        } else {
            Some(0)
        }
    } else {
        proof {
            vstd::arithmetic::power2::lemma_pow2_strictly_increases(k as nat, 64);
            vstd::arithmetic::power2::lemma_pow2_pos(k as nat);
            vstd::bits::lemma_u64_shl_is_mul(1, k as u64);
        }
        let p: u64 = 1u64 << (k as u64);
        assert(0 <= s / p <= s) by (nonlinear_arith)
            requires
                p > 0,
                0 <= s,
        ;
        if away && s % p != 0 {
            Some(s / p + 1)
        } else {
            Some(s / p)
        }
    }
}

/// A double as an integer of two, four or eight bytes, in the low bits.
pub fn to_int(v: u64, rounding: u8, bytes: u8) -> (r: i128)
    ensures
        r == integer_of(v, rounding, bytes),
        -0x8000_0000_0000_0000 <= r < 0x8000_0000_0000_0000,
{
    proof {
        reveal(integer_of);
    }
    let top: i128 = if bytes == 2 {
        0x8000
    } else if bytes == 4 {
        0x8000_0000
    } else {
        0x8000_0000_0000_0000
    };
    if is_nan64(v) {
        return -top;
    }
    match round_magnitude(v, rounding) {
        None => -top,
        Some(q) => {
            let r: i128 = q as i128;
            if r >= top {
                -top
            } else if v >= SIGN64 {
                -r
            } else {
                r
            }
        },
    }
}

/// A double rounded to an integral double. Minus one half becomes plus zero when
/// rounding to nearest; other numbers keep their sign.
#[verifier::opaque]
pub open spec fn integral(v: u64, rounding: u8) -> u64 {
    if parts64(v).1 >= 0 {
        v
    } else if rounding == 0 && v == 0xBFE0_0000_0000_0000 {
        0
    } else {
        let r = rounded_magnitude(v, rounding);
        if r == 0 {
            if v >= SIGN64 {
                SIGN64
            } else {
                0
            }
        } else if v >= SIGN64 {
            double_of(-r)
        } else {
            double_of(r)
        }
    }
}

proof fn lemma_rounded_small(v: u64, rounding: u8)
    requires
        parts64(v).1 < 0,
    ensures
        0 <= rounded_magnitude(v, rounding) <= 0x10_0000_0000_0000,
{
    let (s, x) = parts64(v);
    let k = (-x) as nat;
    vstd::arithmetic::power2::lemma2_to64();
    if k > 1 {
        vstd::arithmetic::power2::lemma_pow2_strictly_increases(1, k);
    }
    let p = vstd::arithmetic::power2::pow2(k) as int;
    let q = s / p;
    assert(0 <= q < 0x10_0000_0000_0000) by (nonlinear_arith)
        requires
            q == s / p,
            p >= 2,
            0 <= s < 0x20_0000_0000_0000,
    ;
}

pub fn round_integral(v: u64, rounding: u8) -> (r: u64)
    ensures
        r == integral(v, rounding),
{
    proof {
        reveal(integral);
    }
    if v / 0x10_0000_0000_0000 % 0x800 >= 1075 {
        return v;
    }
    if rounding == 0 && v == 0xBFE0_0000_0000_0000 {
        return 0;
    }
    proof {
        lemma_rounded_small(v, rounding);
    }
    let r: u64 = match round_magnitude(v, rounding) {
        Some(q) => q,
        None => 0,
    };
    if r == 0 {
        if v >= SIGN64 {
            SIGN64
        } else {
            0
        }
    } else if v >= SIGN64 {
        double_of_int(-(r as i64))
    } else {
        double_of_int(r as i64)
    }
}

/// The single nearest to a number of 64 significant bits, `m` times two to the power
/// of `x`.
#[verifier::opaque]
pub open spec fn nearest_single(neg: bool, m: int, x: int) -> u32 {
    let sign: int = if neg { 0x8000_0000 } else { 0 };
    let e = x + 190;
    if e >= 1 {
        let b = (e - 1) * 0x80_0000 + nearest(m, 40);
        (sign + if b > 0x7F80_0000 { 0x7F80_0000 } else { b }) as u32
    } else {
        (sign + nearest(m, (41 - e) as nat)) as u32
    }
}

proof fn lemma_nearest_low(m: int, k: nat, j: nat)
    requires
        0 <= m < 0x1_0000_0000_0000_0000,
        j == 40 || j == 41,
        k >= j,
    ensures
        0 <= nearest(m, k) <= (if j == 40 { 0x100_0000int } else { 0x80_0000int }),
{
    vstd::arithmetic::power2::lemma2_to64();
    vstd::arithmetic::power2::lemma2_to64_rest();
    if k > j {
        vstd::arithmetic::power2::lemma_pow2_strictly_increases(j, k);
    }
    let p = vstd::arithmetic::power2::pow2(k) as int;
    let q = m / p;
    if j == 40 {
        assert(0 <= q < 0x100_0000) by (nonlinear_arith)
            requires
                q == m / p,
                p >= 0x100_0000_0000,
                0 <= m < 0x1_0000_0000_0000_0000,
        ;
    } else {
        assert(0 <= q < 0x80_0000) by (nonlinear_arith)
            requires
                q == m / p,
                p >= 0x200_0000_0000,
                0 <= m < 0x1_0000_0000_0000_0000,
        ;
    }
}

fn encode_single(neg: bool, m: u64, x: i32) -> (r: u32)
    requires
        -0x10_0000 <= x <= 0x10_0000,
    ensures
        r == nearest_single(neg, m as int, x as int),
{
    proof {
        reveal(nearest_single);
    }
    let sign: u32 = if neg {
        0x8000_0000
    } else {
        0
    };
    let e: i32 = x + 190;
    if e >= 1 {
        proof {
            lemma_nearest_low(m as int, 40, 40);
        }
        let f: u32 = round_off(m, 40) as u32;
        if e > 0xFF {
            sign + 0x7F80_0000
        } else {
            let b: u32 = (e - 1) as u32 * 0x80_0000 + f;
            if b > 0x7F80_0000 {
                sign + 0x7F80_0000
            } else {
                sign + b
            }
        }
    } else {
        proof {
            lemma_nearest_low(m as int, (41 - e) as nat, 41);
        }
        sign + round_off(m, (41 - e) as u32) as u32
    }
}

/// A double as a single: the nearest one. A NaN stays one and becomes quiet.
#[verifier::opaque]
pub open spec fn single_of(v: u64) -> u32 {
    let neg = v >= SIGN64;
    let sign: int = if neg { 0x8000_0000 } else { 0 };
    let f = (v % 0x10_0000_0000_0000) as int;
    if magnitude64(v) == INF64 {
        (sign + 0x7F80_0000) as u32
    } else if is_nan64(v) {
        (sign + 0x7FC0_0000 + f / 0x2000_0000 % 0x40_0000) as u32
    } else if magnitude64(v) == 0 {
        sign as u32
    } else {
        let (s, x) = parts64(v);
        let (m, k) = normalized(s, 0x8000_0000_0000_0000);
        nearest_single(neg, m, x - k)
    }
}

pub fn narrow_double(v: u64) -> (r: u32)
    ensures
        r == single_of(v),
{
    proof {
        reveal(single_of);
    }
    let neg = v >= SIGN64;
    let sign: u32 = if neg {
        0x8000_0000
    } else {
        0
    };
    let f: u64 = v % 0x10_0000_0000_0000;
    if magnitude64(v) == INF64 {
        sign + 0x7F80_0000
    } else if is_nan64(v) {
        sign + 0x7FC0_0000 + (f / 0x2000_0000 % 0x40_0000) as u32
    } else if magnitude64(v) == 0 {
        sign
    } else {
        let q = split_double(v);
        let p = normalize(q.0, 0x8000_0000_0000_0000);
        encode_single(neg, p.0, q.1 - p.1 as i32)
    }
}

pub proof fn lemma_normalized_double(s: int)
    requires
        0x10_0000_0000_0000 <= s < 0x20_0000_0000_0000,
    ensures
        normalized(s, 0x8000_0000_0000_0000) == (s * 0x800, 11nat),
{
    reveal_with_fuel(normalized, 13);
}

/// The single of a double with these fields, in the range of normal singles.
proof fn lemma_single_normal(neg: bool, e: int, f: int, w: u64)
    requires
        0 < e < 0xFF,
        0 <= f < 0x80_0000,
        w == (if neg { 0x8000_0000_0000_0000int } else { 0 }) + (e + 896) * 0x10_0000_0000_0000 + f
            * 0x2000_0000,
    ensures
        single_of(w) == (if neg { 0x8000_0000int } else { 0 }) + e * 0x80_0000 + f,
{
    reveal(single_of);
    let sign: int = if neg { 0x8000_0000_0000_0000 } else { 0 };
    lemma_fields(sign, e + 896, f * 0x2000_0000);
    let s = f * 0x2000_0000 + 0x10_0000_0000_0000;
    assert(parts64(w) == (s, e - 179));
    lemma_normalized_double(s);
    assert(magnitude64(w) < INF64 && magnitude64(w) > 0);
    assert(single_of(w) == nearest_single(neg, s * 0x800, e - 190));
    assert(nearest(s * 0x800, 40) == f + 0x80_0000) by {
        vstd::arithmetic::power2::lemma2_to64();
        vstd::arithmetic::power2::lemma2_to64_rest();
        lemma_nearest_exact(f + 0x80_0000, 40);
        assert(s * 0x800 == (f + 0x80_0000) * 0x100_0000_0000);
    }
    reveal(nearest_single);
}

proof fn lemma_single_subnormal(neg: bool, f: int, w: u64)
    requires
        0 < f < 0x80_0000,
        w == (if neg { 0x8000_0000_0000_0000int } else { 0 }) + (897 - normalized(f, 0x80_0000).1)
            * 0x10_0000_0000_0000 + (normalized(f, 0x80_0000).0 - 0x80_0000) * 0x2000_0000,
    ensures
        single_of(w) == (if neg { 0x8000_0000int } else { 0 }) + f,
{
    reveal(single_of);
    let sign: int = if neg { 0x8000_0000_0000_0000 } else { 0 };
    let (m, k) = normalized(f, 0x80_0000);
    assert(0x80_0000 <= m < 0x100_0000 && 1 <= k <= 23 && m == f
        * vstd::arithmetic::power2::pow2(k)) by {
        vstd::arithmetic::power2::lemma2_to64();
        lemma_normalized(f, 0x80_0000, 1, 23);
    }
    lemma_fields(sign, 897 - k, (m - 0x80_0000) * 0x2000_0000);
    let s = m * 0x2000_0000;
    assert(parts64(w) == (s, -178 - k));
    lemma_normalized_double(s);
    assert(magnitude64(w) < INF64 && magnitude64(w) > 0);
    assert(single_of(w) == nearest_single(neg, s * 0x800, -189 - k));
    assert(nearest(s * 0x800, 40 + k) == f) by {
        vstd::arithmetic::power2::lemma2_to64();
        vstd::arithmetic::power2::lemma2_to64_rest();
        vstd::arithmetic::power2::lemma_pow2_adds(k, 40);
        let p = vstd::arithmetic::power2::pow2(k) as int;
        assert(f * (p * 0x100_0000_0000) == (f * p) * 0x100_0000_0000) by (nonlinear_arith);
        lemma_nearest_exact(f, 40 + k);
    }
    reveal(nearest_single);
}

/// A single that becomes a double and a single again is what it was, unless it is a
/// NaN.
pub proof fn law_single_round_trip(v: u32)
    requires
        v % 0x8000_0000 <= 0x7F80_0000,
    ensures
        single_of(widened(v)) == v,
{
    reveal(widened);
    let e = (v / 0x80_0000 % 0x100) as int;
    let f = (v % 0x80_0000) as int;
    let neg = v >= 0x8000_0000;
    if e == 0xFF || (e == 0 && f == 0) {
        reveal(single_of);
    } else if e != 0 {
        lemma_single_normal(neg, e, f, widened(v));
    } else {
        assert(0 <= normalized(f, 0x80_0000).1 <= 23 && 0x80_0000 <= normalized(f, 0x80_0000).0
            < 0x100_0000) by {
            vstd::arithmetic::power2::lemma2_to64();
            lemma_normalized(f, 0x80_0000, 1, 23);
        }
        lemma_single_subnormal(neg, f, widened(v));
    }
}

/// A 32-bit integer as a single: the nearest one.
#[verifier::opaque]
pub open spec fn single_of_int(v: int) -> u32 {
    if v == 0 {
        0
    } else {
        let (m, k) = normalized(crate::bits::abs(v), 0x8000_0000_0000_0000);
        nearest_single(v < 0, m, -k)
    }
}

pub fn int_to_single(v: i64) -> (r: u32)
    requires
        -0x8000_0000 <= v < 0x8000_0000,
    ensures
        r == single_of_int(v as int),
{
    proof {
        reveal(single_of_int);
    }
    if v == 0 {
        return 0;
    }
    let p = normalize(crate::bits::magnitude(v), 0x8000_0000_0000_0000);
    encode_single(v < 0, p.0, -(p.1 as i32))
}

/// An exponent brought into the range of normal doubles.
#[verifier::allow_in_spec]
pub fn normal_exponent(e: i32) -> i32
    returns
        (if e < -1022 {
            -1022i32
        } else if e > 1023 {
            1023i32
        } else {
            e
        }),
{
    if e < -1022 {
        -1022
    } else if e > 1023 {
        1023
    } else {
        e
    }
}

/// The double nearest to a double times a power of two, of an exponent in the range
/// of normal doubles. A NaN stays one and becomes quiet.
#[verifier::opaque]
pub open spec fn scaled_once(v: u64, e: i32) -> u64 {
    if is_nan64(v) {
        if v / 0x8_0000_0000_0000 % 2 == 1 {
            v
        } else {
            (v + 0x8_0000_0000_0000) as u64
        }
    } else if magnitude64(v) == INF64 || magnitude64(v) == 0 {
        v
    } else {
        let (s, x) = parts64(v);
        let (m, k) = normalized(s, 0x8000_0000_0000_0000);
        nearest_double(v >= SIGN64, m, x - k + normal_exponent(e))
    }
}

fn scale_once(v: u64, e: i32) -> (r: u64)
    ensures
        r == scaled_once(v, e),
{
    proof {
        reveal(scaled_once);
    }
    if is_nan64(v) {
        return if v / 0x8_0000_0000_0000 % 2 == 1 {
            v
        } else {
            v + 0x8_0000_0000_0000
        };
    }
    if magnitude64(v) == INF64 || magnitude64(v) == 0 {
        return v;
    }
    let q = split_double(v);
    let p = normalize(q.0, 0x8000_0000_0000_0000);
    encode_double(v >= SIGN64, p.0, q.1 - p.1 as i32 + normal_exponent(e))
}

/// A double times two to the power of `e`, in three steps of about a third of the
/// exponent each.
pub open spec fn scaled(v: u64, e: i32) -> u64 {
    let a = crate::bits::quotient(e as int, 3);
    let b = crate::bits::quotient(e - a, 2);
    scaled_once(scaled_once(scaled_once(v, a as i32), b as i32), (e - a - b) as i32)
}

pub fn scale2(v: u64, e: i32) -> (r: u64)
    ensures
        r == scaled(v, e),
{
    let a: i32 = third(e);
    let b: i32 = half(e - a);
    scale_once(scale_once(scale_once(v, a), b), e - a - b)
}

fn third(e: i32) -> (r: i32)
    ensures
        r == crate::bits::quotient(e as int, 3),
        e >= 0 ==> 0 <= r <= e,
        e < 0 ==> e <= r <= 0,
{
    if e < 0 {
        -(((-(e as i64)) as u64 / 3) as i32)
    } else {
        (e as u32 / 3) as i32
    }
}

fn half(e: i32) -> (r: i32)
    ensures
        r == crate::bits::quotient(e as int, 2),
        e >= 0 ==> 0 <= r <= e,
        e < 0 ==> e <= r <= 0,
{
    if e < 0 {
        -(((-(e as i64)) as u64 / 2) as i32)
    } else {
        (e as u32 / 2) as i32
    }
}

/// The exponent that FSCALE takes from a double.
#[verifier::opaque]
pub open spec fn scale_exponent(v: u64) -> i32 {
    let t = truncated(v);
    (if is_nan64(v) {
        0
    } else if t < -99999 {
        -99999
    } else if t > 99999 {
        99999
    } else {
        t
    }) as i32
}

pub fn exponent_for_scale(v: u64) -> (r: i32)
    ensures
        r == scale_exponent(v),
        -99999 <= r <= 99999,
{
    proof {
        reveal(scale_exponent);
    }
    let t: i64 = truncate(v);
    if is_nan64(v) {
        0
    } else if t < -99999 {
        -99999
    } else if t > 99999 {
        99999
    } else {
        t as i32
    }
}

} // verus!
