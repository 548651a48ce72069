//! Integer vectors: a 64-bit or 128-bit register as lanes of 8, 16, 32 or 64 bits.
//!
//! A 64-bit register is the low half of a 128-bit one whose high half is zero. An
//! operation is given by what each lane of its result is ([`lane_value`]).

use vstd::prelude::*;
use crate::cpu::float::{int_to_single, narrow_double, order64, truncate, widen, FloatOrder};

verus! {

/// The operations on vectors. `a` is the destination operand and `b` the source.
#[derive(Clone, Copy, Debug, PartialEq, Eq, Structural)]
pub enum LaneOp {
    Add,
    Sub,
    /// Sums and differences that stay at the end of the unsigned or signed range.
    AddUnsigned,
    SubUnsigned,
    AddSigned,
    SubSigned,
    MinUnsigned,
    MaxUnsigned,
    MinSigned,
    MaxSigned,
    /// Rounded average.
    Average,
    /// All ones where the lanes are equal, or the first is greater as signed.
    Equal,
    Greater,
    /// Low and high half of a product.
    MulLow,
    MulHighSigned,
    MulHighUnsigned,
    And,
    AndNot,
    Or,
    Xor,
    /// Shifts by the source as one number.
    ShiftRight,
    ShiftLeft,
    ShiftRightSigned,
    /// The low, or high, lanes of both operands in turn.
    UnpackLow,
    UnpackHigh,
    /// Lanes of twice the width, brought into the signed or unsigned range.
    PackSigned,
    PackUnsigned,
    /// Sum of the products of pairs of 16-bit lanes.
    MulAdd,
    /// Sum of the differences of eight bytes.
    SumDifferences,
    /// Product of the low doublewords.
    MulWide,
    /// Four lanes of the source, each chosen by two bits of the selector.
    Shuffle { sel: u8 },
    /// The same for the low or high four of eight lanes.
    ShuffleLow { sel: u8 },
    ShuffleHigh { sel: u8 },
    /// Two lanes of the destination, then two of the source.
    ShuffleTwo { sel: u8 },
    /// The destination with one lane replaced.
    Insert { at: u8, value: u16 },
    /// All ones where a predicate holds of the lanes as floating-point numbers.
    Test { predicate: u8 },
    /// Singles of the source without their fraction, as integers.
    ToInt,
    /// Integers of the source as singles.
    FromInt,
    /// The low singles of the source as doubles.
    Widen,
    /// The doubles of the source as singles.
    Narrow,
}

/// Whether a predicate holds of two numbers in that order: 0 equal, 1 less, 2 less
/// or equal, 3 unordered, and 4 to 7 the opposites.
#[verifier::allow_in_spec]
pub fn holds(predicate: u8, order: FloatOrder) -> bool
    returns
        (if predicate % 4 == 0 {
            (order == FloatOrder::Equal) != (predicate >= 4)
        } else if predicate % 4 == 1 {
            (order == FloatOrder::Less) != (predicate >= 4)
        } else if predicate % 4 == 2 {
            (order == FloatOrder::Less || order == FloatOrder::Equal) != (predicate >= 4)
        } else {
            (order == FloatOrder::Unordered) != (predicate >= 4)
        }),
{
    if predicate % 4 == 0 {
        (order == FloatOrder::Equal) != (predicate >= 4)
    } else if predicate % 4 == 1 {
        (order == FloatOrder::Less) != (predicate >= 4)
    } else if predicate % 4 == 2 {
        (order == FloatOrder::Less || order == FloatOrder::Equal) != (predicate >= 4)
    } else {
        (order == FloatOrder::Unordered) != (predicate >= 4)
    }
}

/// How two lanes compare as singles or doubles.
pub open spec fn float_lanes_order(a: u128, b: u128, i: u32, w: u32) -> FloatOrder {
    if w == 32 {
        crate::cpu::float::order_of64(
            crate::cpu::float::widened(lane(a, i, 32) as u32),
            crate::cpu::float::widened(lane(b, i, 32) as u32),
        )
    } else {
        crate::cpu::float::order_of64(lane(a, i, 64), lane(b, i, 64))
    }
}

pub fn order_float_lanes(a: u128, b: u128, i: u32, w: u32) -> (r: FloatOrder)
    requires
        i < 0x1000,
    ensures
        r == float_lanes_order(a, b, i, w),
{
    if w == 32 {
        order64(widen(lane(a, i, 32) as u32), widen(lane(b, i, 32) as u32))
    } else {
        order64(lane(a, i, 64), lane(b, i, 64))
    }
}

/// The largest value of a lane.
#[verifier::allow_in_spec]
pub fn lane_max(w: u32) -> u64
    returns
        (if w == 8 {
            0xFFu64
        } else if w == 16 {
            0xFFFFu64
        } else if w == 32 {
            0xFFFF_FFFFu64
        } else {
            0xFFFF_FFFF_FFFF_FFFFu64
        }),
{
    if w == 8 {
        0xFF
    } else if w == 16 {
        0xFFFF
    } else if w == 32 {
        0xFFFF_FFFF
    } else {
        0xFFFF_FFFF_FFFF_FFFF
    }
}

/// A lane of width `w`. There are no lanes beyond the register.
#[verifier::allow_in_spec]
pub fn lane(v: u128, i: u32, w: u32) -> u64
    requires
        w <= 64,
        i < 0x1000,
    returns
        (if i * w < 128 {
            ((v >> ((i * w) as u32)) & lane_max(w) as u128) as u64
        } else {
            0u64
        }),
{
    assert(i * w <= 0x1000 * 64) by (nonlinear_arith)
        requires
            i < 0x1000,
            w <= 64,
    ;
    if i * w < 128 {
        ((v >> (i * w)) & lane_max(w) as u128) as u64
    } else {
        0
    }
}

/// A lane as a signed number.
pub open spec fn lane_signed(x: u64, w: u32) -> int {
    if 2 * x > lane_max(w) {
        x - lane_max(w) - 1
    } else {
        x as int
    }
}

/// A number that left the range of a lane by less than one turn, brought back.
pub open spec fn turned(v: int, w: u32) -> u64 {
    (if v < 0 {
        v + lane_max(w) + 1
    } else if v > lane_max(w) {
        v - lane_max(w) - 1
    } else {
        v
    }) as u64
}

/// The nearest signed number that a lane can hold, as a lane.
pub open spec fn signed_limit(v: int, w: u32) -> u64 {
    let top = (lane_max(w) / 2) as int;
    turned(if v > top { top } else if v < -top - 1 { -top - 1 } else { v }, w)
}

/// A lane shifted right with its sign.
#[verifier::allow_in_spec]
pub fn shift_signed(x: u64, n: u32, w: u32) -> u64
    requires
        n < 64,
        x <= lane_max(w),
    returns
        (if 2 * x > lane_max(w) {
            (lane_max(w) - (((lane_max(w) - x) as u64) >> n)) as u64
        } else {
            x >> n
        }),
{
    let max: u64 = lane_max(w);
    if x > max / 2 {
        let d: u64 = max - x;
        proof {
            lemma_shift_right(d, n);
        }
        max - (d >> n)
    } else {
        x >> n
    }
}

proof fn lemma_shift_right(x: u64, n: u32)
    by (bit_vector)
    ensures
        x >> n <= x,
{
}

/// What an operation on each pair of lanes gives.
#[verifier::opaque]
pub open spec fn pair_value(op: LaneOp, x: u64, y: u64, w: u32) -> u64 {
    let max = lane_max(w);
    let sx = lane_signed(x, w);
    let sy = lane_signed(y, w);
    match op {
        LaneOp::Add => turned(x + y, w),
        LaneOp::Sub => turned(x - y, w),
        LaneOp::AddUnsigned => if x + y > max { max } else { (x + y) as u64 },
        LaneOp::SubUnsigned => if x < y { 0 } else { (x - y) as u64 },
        LaneOp::AddSigned => signed_limit(sx + sy, w),
        LaneOp::SubSigned => signed_limit(sx - sy, w),
        LaneOp::MinUnsigned => if x < y { x } else { y },
        LaneOp::MaxUnsigned => if x < y { y } else { x },
        LaneOp::MinSigned => if sx < sy { x } else { y },
        LaneOp::MaxSigned => if sx < sy { y } else { x },
        LaneOp::Average => ((x + y + 1) / 2) as u64,
        LaneOp::Equal => if x == y { max } else { 0 },
        LaneOp::Greater => if sx > sy { max } else { 0 },
        LaneOp::MulLow => ((x * y) % 0x1_0000) as u64,
        LaneOp::MulHighSigned => ((sx * sy) / 0x1_0000 % 0x1_0000) as u64,
        LaneOp::MulHighUnsigned => ((x * y) / 0x1_0000) as u64,
        LaneOp::And => x & y,
        LaneOp::AndNot => !x & y,
        LaneOp::Or => x | y,
        LaneOp::Xor => x ^ y,
        _ => 0,
    }
}

/// Two bits of a selector.
#[verifier::allow_in_spec]
pub fn chosen(sel: u8, i: u32) -> u32
    returns
        (if i == 0 {
            (sel % 4) as u32
        } else if i == 1 {
            (sel / 4 % 4) as u32
        } else if i == 2 {
            (sel / 16 % 4) as u32
        } else {
            (sel / 64) as u32
        }),
{
    (if i == 0 {
        sel % 4
    } else if i == 1 {
        sel / 4 % 4
    } else if i == 2 {
        sel / 16 % 4
    } else {
        sel / 64
    }) as u32
}

/// How far two bytes are apart.
#[verifier::allow_in_spec]
pub fn distance(a: u128, b: u128, i: u32) -> (r: u64)
    requires
        i < 0x1000,
    ensures
        r <= 0xFF,
    returns
        (if lane(a, i, 8) < lane(b, i, 8) {
            (lane(b, i, 8) - lane(a, i, 8)) as u64
        } else {
            (lane(a, i, 8) - lane(b, i, 8)) as u64
        }),
{
    proof {
        lemma_lane_range(a, i, 8);
        lemma_lane_range(b, i, 8);
    }
    let x: u64 = lane(a, i, 8);
    let y: u64 = lane(b, i, 8);
    if x < y {
        y - x
    } else {
        x - y
    }
}

/// Lane `i` of the result, which has `n` lanes of width `w`.
#[verifier::opaque]
pub open spec fn lane_value(op: LaneOp, a: u128, b: u128, i: u32, w: u32, n: u32) -> u64 {
    let half = n / 2;
    match op {
        LaneOp::ShiftRight => if lane(b, 0, 64) >= w {
            0
        } else {
            lane(a, i, w) >> (lane(b, 0, 64) as u32)
        },
        LaneOp::ShiftLeft => if lane(b, 0, 64) >= w {
            0
        } else {
            (lane(a, i, w) << (lane(b, 0, 64) as u32)) & lane_max(w)
        },
        LaneOp::ShiftRightSigned => shift_signed(
            lane(a, i, w),
            (if lane(b, 0, 64) >= w { w - 1 } else { lane(b, 0, 64) as int }) as u32,
            w,
        ),
        LaneOp::UnpackLow => if i % 2 == 0 {
            lane(a, i / 2, w)
        } else {
            lane(b, i / 2, w)
        },
        LaneOp::UnpackHigh => if i % 2 == 0 {
            lane(a, (half + i / 2) as u32, w)
        } else {
            lane(b, (half + i / 2) as u32, w)
        },
        LaneOp::PackSigned => signed_limit(
            lane_signed(
                if i < half { lane(a, i, (2 * w) as u32) } else {
                    lane(b, (i - half) as u32, (2 * w) as u32)
                },
                (2 * w) as u32,
            ),
            w,
        ),
        LaneOp::PackUnsigned => {
            let v = lane_signed(
                if i < half { lane(a, i, (2 * w) as u32) } else {
                    lane(b, (i - half) as u32, (2 * w) as u32)
                },
                (2 * w) as u32,
            );
            (if v < 0 { 0 } else if v > lane_max(w) { lane_max(w) as int } else { v }) as u64
        },
        LaneOp::MulAdd => {
            let k = (2 * i) as u32;
            let l = (2 * i + 1) as u32;
            ((lane_signed(lane(a, k, 16), 16) * lane_signed(lane(b, k, 16), 16) + lane_signed(
                lane(a, l, 16),
                16,
            ) * lane_signed(lane(b, l, 16), 16)) % 0x1_0000_0000) as u64
        },
        LaneOp::SumDifferences => (distance(a, b, (8 * i) as u32) + distance(
            a,
            b,
            (8 * i + 1) as u32,
        ) + distance(a, b, (8 * i + 2) as u32) + distance(a, b, (8 * i + 3) as u32) + distance(
            a,
            b,
            (8 * i + 4) as u32,
        ) + distance(a, b, (8 * i + 5) as u32) + distance(a, b, (8 * i + 6) as u32) + distance(
            a,
            b,
            (8 * i + 7) as u32,
        )) as u64,
        LaneOp::MulWide => (lane(a, (2 * i) as u32, 32) * lane(b, (2 * i) as u32, 32)) as u64,
        LaneOp::Shuffle { sel } => lane(b, chosen(sel, i), w),
        LaneOp::ShuffleLow { sel } => if i < 4 {
            lane(b, chosen(sel, i), w)
        } else {
            lane(b, i, w)
        },
        LaneOp::ShuffleHigh { sel } => if i < 4 {
            lane(b, i, w)
        } else {
            lane(b, (4 + chosen(sel, (i - 4) as u32)) as u32, w)
        },
        LaneOp::ShuffleTwo { sel } => if i < 2 {
            lane(a, chosen(sel, i), w)
        } else {
            lane(b, chosen(sel, i), w)
        },
        LaneOp::Insert { at, value } => if i == at {
            value as u64
        } else {
            lane(a, i, w)
        },
        LaneOp::Test { predicate } => if holds(predicate, float_lanes_order(a, b, i, w)) {
            lane_max(w)
        } else {
            0
        },
        LaneOp::ToInt => (crate::cpu::float::truncated(
            crate::cpu::float::widened(lane(b, i, 32) as u32),
        ) % 0x1_0000_0000) as u64,
        LaneOp::FromInt => crate::cpu::float::single_of_int(
            crate::bits::signed32(lane(b, i, 32) as u32) as int,
        ) as u64,
        LaneOp::Widen => crate::cpu::float::widened(lane(b, i, 32) as u32),
        LaneOp::Narrow => crate::cpu::float::single_of(lane(b, i, 64)) as u64,
        _ => pair_value(op, lane(a, i, w), lane(b, i, w), w),
    }
}

/// The first `k` lanes of a result.
#[verifier::opaque]
pub open spec fn lanes_upto(op: LaneOp, a: u128, b: u128, w: u32, n: u32, k: nat) -> u128
    decreases k,
{
    if k == 0 {
        0
    } else {
        lanes_upto(op, a, b, w, n, (k - 1) as nat) | ((lane_value(
            op,
            a,
            b,
            (k - 1) as u32,
            w,
            n,
        ) as u128) << (((k - 1) * w) as u32))
    }
}

/// The result of an operation: a vector of `n` lanes of width `w`.
pub open spec fn lanes(op: LaneOp, a: u128, b: u128, w: u32, n: u32) -> u128 {
    lanes_upto(op, a, b, w, n, n as nat)
}

/// The widths that an operation works on.
pub open spec fn fits(op: LaneOp, w: u32, n: u32) -> bool {
    &&& w == 8 || w == 16 || w == 32 || w == 64
    &&& n <= 16
    &&& n * w <= 128
    &&& match op {
        LaneOp::Average => w <= 16,
        LaneOp::MulLow | LaneOp::MulHighSigned | LaneOp::MulHighUnsigned => w == 16,
        LaneOp::And | LaneOp::AndNot | LaneOp::Or | LaneOp::Xor => w == 64,
        LaneOp::PackSigned | LaneOp::PackUnsigned => w <= 16,
        LaneOp::MulAdd => w == 32,
        LaneOp::SumDifferences | LaneOp::MulWide => w == 64,
        LaneOp::Insert { .. } => w == 16,
        LaneOp::Test { .. } => w >= 32,
        LaneOp::ToInt | LaneOp::FromInt | LaneOp::Narrow => w == 32,
        LaneOp::Widen => w == 64,
        _ => true,
    }
}

proof fn lemma_lane_fits(v: u128, s: u32, m: u64)
    by (bit_vector)
    ensures
        ((v >> s) & m as u128) as u64 <= m,
{
}

/// A lane is no larger than its width allows.
pub proof fn lemma_lane_range(v: u128, i: u32, w: u32)
    ensures
        lane(v, i, w) <= lane_max(w),
{
    lemma_lane_fits(v, (i * w) as u32, lane_max(w));
}

proof fn lemma_products(x: int, y: int)
    requires
        -0x8000 <= x <= 0xFFFF,
        -0x8000 <= y <= 0xFFFF,
    ensures
        -0x7FFF_8000 <= x * y <= 0xFFFE_0001,
        -0x8000 <= x < 0x8000 && -0x8000 <= y < 0x8000 ==> -0x3FFF_8000 <= x * y <= 0x4000_0000,
        0 <= x && 0 <= y ==> 0 <= x * y,
{
    assert(-0x7FFF_8000 <= x * y <= 0xFFFE_0001) by (nonlinear_arith)
        requires
            -0x8000 <= x <= 0xFFFF,
            -0x8000 <= y <= 0xFFFF,
    ;
    if -0x8000 <= x < 0x8000 && -0x8000 <= y < 0x8000 {
        assert(-0x3FFF_8000 <= x * y <= 0x4000_0000) by (nonlinear_arith)
            requires
                -0x8000 <= x < 0x8000,
                -0x8000 <= y < 0x8000,
        ;
    }
    if 0 <= x && 0 <= y {
        assert(0 <= x * y) by (nonlinear_arith)
            requires
                0 <= x,
                0 <= y,
        ;
    }
}

/// A lane as a signed number.
fn signed_lane(x: u64, w: u32) -> (r: i128)
    ensures
        r == lane_signed(x, w),
{
    let max: u64 = lane_max(w);
    if x > max / 2 {
        x as i128 - max as i128 - 1
    } else {
        x as i128
    }
}

fn turn_back(v: i128, w: u32) -> (r: u64)
    requires
        -lane_max(w) - 1 <= v <= 2 * lane_max(w) + 1,
    ensures
        r == turned(v as int, w),
        r <= lane_max(w),
{
    let max: i128 = lane_max(w) as i128;
    if v < 0 {
        (v + max + 1) as u64
    } else if v > max {
        (v - max - 1) as u64
    } else {
        v as u64
    }
}

fn limit_signed(v: i128, w: u32) -> (r: u64)
    ensures
        r == signed_limit(v as int, w),
        r <= lane_max(w),
{
    let top: i128 = (lane_max(w) / 2) as i128;
    let c: i128 = if v > top {
        top
    } else if v < -top - 1 {
        -top - 1
    } else {
        v
    };
    turn_back(c, w)
}

fn pair(op: LaneOp, x: u64, y: u64, w: u32) -> (r: u64)
    requires
        fits(op, w, 1),
        x <= lane_max(w),
        y <= lane_max(w),
    ensures
        r == pair_value(op, x, y, w),
        r <= lane_max(w),
{
    proof {
        reveal(pair_value);
        if w == 16 {
            lemma_products(x as int, y as int);
            lemma_products(lane_signed(x, w), lane_signed(y, w));
        }
    }
    let max: u64 = lane_max(w);
    let sx: i128 = signed_lane(x, w);
    let sy: i128 = signed_lane(y, w);
    match op {
        LaneOp::Add => turn_back(x as i128 + y as i128, w),
        LaneOp::Sub => turn_back(x as i128 - y as i128, w),
        LaneOp::AddUnsigned => {
            if x > max - y {
                max
            } else {
                x + y
            }
        },
        LaneOp::SubUnsigned => {
            if x < y {
                0
            } else {
                x - y
            }
        },
        LaneOp::AddSigned => limit_signed(sx + sy, w),
        LaneOp::SubSigned => limit_signed(sx - sy, w),
        LaneOp::MinUnsigned => {
            if x < y {
                x
            } else {
                y
            }
        },
        LaneOp::MaxUnsigned => {
            if x < y {
                y
            } else {
                x
            }
        },
        LaneOp::MinSigned => {
            if sx < sy {
                x
            } else {
                y
            }
        },
        LaneOp::MaxSigned => {
            if sx < sy {
                y
            } else {
                x
            }
        },
        LaneOp::Average => (x + y + 1) / 2,
        LaneOp::Equal => {
            if x == y {
                max
            } else {
                0
            }
        },
        LaneOp::Greater => {
            if sx > sy {
                max
            } else {
                0
            }
        },
        LaneOp::MulLow => (x * y) % 0x1_0000,
        LaneOp::MulHighSigned => {
            let p: i64 = sx as i64 * sy as i64;
            (crate::bits::low32(p) / 0x1_0000) as u64
        },
        LaneOp::MulHighUnsigned => (x * y) / 0x1_0000,
        LaneOp::And => x & y,
        LaneOp::AndNot => !x & y,
        LaneOp::Or => x | y,
        LaneOp::Xor => x ^ y,
        _ => 0,
    }
}

fn wide_signed(a: u128, b: u128, i: u32, half: u32, w: u32) -> (r: i128)
    requires
        w == 16 || w == 32,
        i < 16,
    ensures
        r == lane_signed(
            if i < half {
                lane(a, i, w)
            } else {
                lane(b, (i - half) as u32, w)
            },
            w,
        ),
{
    let v: u64 = if i < half {
        lane(a, i, w)
    } else {
        lane(b, i - half, w)
    };
    signed_lane(v, w)
}

proof fn lemma_masked(x: u64, m: u64)
    by (bit_vector)
    ensures
        x & m <= m,
{
}

fn one_lane(op: LaneOp, a: u128, b: u128, i: u32, w: u32, n: u32) -> (r: u64)
    requires
        fits(op, w, n),
        i < n,
    ensures
        r == lane_value(op, a, b, i, w, n),
        r <= lane_max(w),
{
    proof {
        reveal(lane_value);
        lemma_lane_range(a, i, w);
        lemma_lane_range(b, i, w);
    }
    let half: u32 = n / 2;
    match op {
        LaneOp::ShiftRight => {
            let c: u64 = lane(b, 0, 64);
            let x: u64 = lane(a, i, w);
            if c >= w as u64 {
                0
            } else {
                proof {
                    lemma_shift_right(x, c as u32);
                }
                x >> (c as u32)
            }
        },
        LaneOp::ShiftLeft => {
            let c: u64 = lane(b, 0, 64);
            let x: u64 = lane(a, i, w);
            if c >= w as u64 {
                0
            } else {
                proof {
                    lemma_masked(x << (c as u32), lane_max(w));
                }
                (x << (c as u32)) & lane_max(w)
            }
        },
        LaneOp::ShiftRightSigned => {
            let c: u64 = lane(b, 0, 64);
            let k: u32 = if c >= w as u64 {
                w - 1
            } else {
                c as u32
            };
            let x: u64 = lane(a, i, w);
            proof {
                lemma_shift_right(x, k);
                lemma_shift_right((lane_max(w) - x) as u64, k);
            }
            shift_signed(x, k, w)
        },
        LaneOp::UnpackLow => {
            proof {
                lemma_lane_range(a, i / 2, w);
                lemma_lane_range(b, i / 2, w);
            }
            if i % 2 == 0 {
                lane(a, i / 2, w)
            } else {
                lane(b, i / 2, w)
            }
        },
        LaneOp::UnpackHigh => {
            proof {
                lemma_lane_range(a, (half + i / 2) as u32, w);
                lemma_lane_range(b, (half + i / 2) as u32, w);
            }
            if i % 2 == 0 {
                lane(a, half + i / 2, w)
            } else {
                lane(b, half + i / 2, w)
            }
        },
        LaneOp::PackSigned => limit_signed(wide_signed(a, b, i, half, 2 * w), w),
        LaneOp::PackUnsigned => {
            let v: i128 = wide_signed(a, b, i, half, 2 * w);
            if v < 0 {
                0
            } else if v > lane_max(w) as i128 {
                lane_max(w)
            } else {
                v as u64
            }
        },
        LaneOp::MulAdd => {
            let k: u32 = 2 * i;
            let l: u32 = 2 * i + 1;
            proof {
                lemma_lane_range(a, k, 16);
                lemma_lane_range(b, k, 16);
                lemma_lane_range(a, l, 16);
                lemma_lane_range(b, l, 16);
                lemma_products(lane_signed(lane(a, k, 16), 16), lane_signed(lane(b, k, 16), 16));
                lemma_products(lane_signed(lane(a, l, 16), 16), lane_signed(lane(b, l, 16), 16));
            }
            let p: i64 = signed_lane(lane(a, k, 16), 16) as i64 * signed_lane(
                lane(b, k, 16),
                16,
            ) as i64;
            let q: i64 = signed_lane(lane(a, l, 16), 16) as i64 * signed_lane(
                lane(b, l, 16),
                16,
            ) as i64;
            crate::bits::low32(p + q) as u64
        },
        LaneOp::SumDifferences => {
            assert(n <= 2) by (nonlinear_arith)
                requires
                    w == 64,
                    n * w <= 128,
            ;
            sum_differences(a, b, i)
        },
        LaneOp::MulWide => {
            proof {
                lemma_lane_range(a, (2 * i) as u32, 32);
                lemma_lane_range(b, (2 * i) as u32, 32);
            }
            let x: u64 = lane(a, 2 * i, 32);
            let y: u64 = lane(b, 2 * i, 32);
            assert(0 <= x * y <= 0xFFFF_FFFE_0000_0001) by (nonlinear_arith)
                requires
                    0 <= x <= 0xFFFF_FFFF,
                    0 <= y <= 0xFFFF_FFFF,
            ;
            x * y
        },
        LaneOp::Shuffle { sel } => {
            proof {
                lemma_lane_range(b, chosen(sel, i), w);
            }
            lane(b, chosen(sel, i), w)
        },
        LaneOp::ShuffleLow { sel } => {
            proof {
                lemma_lane_range(b, chosen(sel, i), w);
            }
            if i < 4 {
                lane(b, chosen(sel, i), w)
            } else {
                lane(b, i, w)
            }
        },
        LaneOp::ShuffleHigh { sel } => {
            if i < 4 {
                lane(b, i, w)
            } else {
                let k: u32 = 4 + chosen(sel, i - 4);
                proof {
                    lemma_lane_range(b, k, w);
                }
                lane(b, k, w)
            }
        },
        LaneOp::ShuffleTwo { sel } => {
            proof {
                lemma_lane_range(a, chosen(sel, i), w);
                lemma_lane_range(b, chosen(sel, i), w);
            }
            if i < 2 {
                lane(a, chosen(sel, i), w)
            } else {
                lane(b, chosen(sel, i), w)
            }
        },
        LaneOp::Insert { at, value } => {
            if i == at as u32 {
                value as u64
            } else {
                lane(a, i, w)
            }
        },
        LaneOp::Test { predicate } => {
            if holds(predicate, order_float_lanes(a, b, i, w)) {
                lane_max(w)
            } else {
                0
            }
        },
        LaneOp::ToInt => crate::bits::low32(truncate(widen(lane(b, i, 32) as u32))) as u64,
        LaneOp::FromInt => int_to_single(crate::bits::signed32(lane(b, i, 32) as u32)) as u64,
        LaneOp::Widen => widen(lane(b, i, 32) as u32),
        LaneOp::Narrow => narrow_double(lane(b, i, 64)) as u64,
        _ => pair(op, lane(a, i, w), lane(b, i, w), w),
    }
}

fn sum_differences(a: u128, b: u128, i: u32) -> (r: u64)
    requires
        i < 2,
    ensures
        r == distance(a, b, (8 * i) as u32) + distance(a, b, (8 * i + 1) as u32) + distance(
            a,
            b,
            (8 * i + 2) as u32,
        ) + distance(a, b, (8 * i + 3) as u32) + distance(a, b, (8 * i + 4) as u32) + distance(
            a,
            b,
            (8 * i + 5) as u32,
        ) + distance(a, b, (8 * i + 6) as u32) + distance(a, b, (8 * i + 7) as u32),
{
    let d0: u64 = distance(a, b, 8 * i);
    let d1: u64 = distance(a, b, 8 * i + 1);
    let d2: u64 = distance(a, b, 8 * i + 2);
    let d3: u64 = distance(a, b, 8 * i + 3);
    let d4: u64 = distance(a, b, 8 * i + 4);
    let d5: u64 = distance(a, b, 8 * i + 5);
    let d6: u64 = distance(a, b, 8 * i + 6);
    let d7: u64 = distance(a, b, 8 * i + 7);
    d0 + d1 + d2 + d3 + d4 + d5 + d6 + d7
}

/// Carries out an operation on vectors.
pub fn vector(op: LaneOp, a: u128, b: u128, w: u32, n: u32) -> (r: u128)
    requires
        fits(op, w, n),
    ensures
        r == lanes(op, a, b, w, n),
{
    let mut r: u128 = 0;
    let mut k: u32 = 0;
    proof {
        reveal(lanes_upto);
    }
    while k < n
        invariant
            fits(op, w, n),
            k <= n,
            r == lanes_upto(op, a, b, w, n, k as nat),
        decreases n - k,
    {
        assert(k * w < n * w && 0 <= k * w) by (nonlinear_arith)
            requires
                0 <= k < n,
                w > 0,
        ;
        let x: u64 = one_lane(op, a, b, k, w, n);
        proof {
            reveal_with_fuel(lanes_upto, 2);
        }
        r = r | ((x as u128) << (k * w));
        k = k + 1;
    }
    r
}

proof fn lemma_lane_put(acc: u128, x: u64, i: u32, j: u32, w: u32, mask: u64)
    by (bit_vector)
    requires
        (w == 8 && mask == 0xFFu64) || (w == 16 && mask == 0xFFFFu64) || (w == 32 && mask
            == 0xFFFF_FFFFu64) || (w == 64 && mask == 0xFFFF_FFFF_FFFF_FFFFu64),
        i < 16,
        i * w < 128,
        x <= mask,
        acc >> ((i * w) as u32) == 0,
    ensures
        j < i ==> ((acc | ((x as u128) << ((i * w) as u32))) >> ((j * w) as u32)) & mask as u128 == (
        acc >> ((j * w) as u32)) & mask as u128,
        ((acc | ((x as u128) << ((i * w) as u32))) >> ((i * w) as u32)) & mask as u128 == x as u128,
        i * w + w < 128 ==> (acc | ((x as u128) << ((i * w) as u32))) >> ((i * w + w) as u32) == 0,
{
}

proof fn lemma_upto(op: LaneOp, a: u128, b: u128, w: u32, n: u32, k: u32)
    requires
        fits(op, w, n),
        k <= n,
        forall|i: u32| i < n ==> #[trigger] lane_value(op, a, b, i, w, n) <= lane_max(w),
    ensures
        k * w < 128 ==> lanes_upto(op, a, b, w, n, k as nat) >> ((k * w) as u32) == 0,
        forall|i: u32|
            i < k ==> lane(lanes_upto(op, a, b, w, n, k as nat), i, w) == #[trigger] lane_value(
                op,
                a,
                b,
                i,
                w,
                n,
            ),
    decreases k,
{
    reveal_with_fuel(lanes_upto, 2);
    if k == 0 {
        assert(0u128 >> 0u32 == 0) by (bit_vector);
    } else {
        let p = (k - 1) as u32;
        lemma_upto(op, a, b, w, n, p);
        let acc = lanes_upto(op, a, b, w, n, p as nat);
        let x = lane_value(op, a, b, p, w, n);
        assert(p * w < n * w && k * w == p * w + w) by (nonlinear_arith)
            requires
                0 <= p < n,
                k == p + 1,
                w > 0,
        ;
        lemma_lane_put(acc, x, p, 0, w, lane_max(w));
        assert forall|i: u32| i < k implies lane(lanes_upto(op, a, b, w, n, k as nat), i, w)
            == #[trigger] lane_value(op, a, b, i, w, n) by {
            assert(i * w <= p * w) by (nonlinear_arith)
                requires
                    0 <= i <= p,
                    w > 0,
            ;
            lemma_lane_put(acc, x, p, i, w, lane_max(w));
        }
    }
}

proof fn lemma_pair_range(op: LaneOp, x: u64, y: u64, w: u32)
    requires
        fits(op, w, 1),
        x <= lane_max(w),
        y <= lane_max(w),
    ensures
        pair_value(op, x, y, w) <= lane_max(w),
{
    reveal(pair_value);
    if w == 16 {
        lemma_products(x as int, y as int);
        lemma_products(lane_signed(x, w), lane_signed(y, w));
    }
}

proof fn lemma_value_range(op: LaneOp, a: u128, b: u128, i: u32, w: u32, n: u32)
    requires
        fits(op, w, n),
        i < n,
    ensures
        lane_value(op, a, b, i, w, n) <= lane_max(w),
{
    reveal(lane_value);
    assert forall|v: u128, j: u32, x: u32| #[trigger] lane(v, j, x) <= lane_max(x) by {
        lemma_lane_range(v, j, x);
    }
    let x = lane(a, i, w);
    lemma_pair_range(op, x, lane(b, i, w), w);
    lemma_shift_right(x, lane(b, 0, 64) as u32);
    lemma_masked(x << (lane(b, 0, 64) as u32), lane_max(w));
    let k = (if lane(b, 0, 64) >= w { w - 1 } else { lane(b, 0, 64) as int }) as u32;
    lemma_shift_right(x, k);
    lemma_shift_right((lane_max(w) - x) as u64, k);
    if op is MulWide {
        let p = lane(a, (2 * i) as u32, 32);
        let q = lane(b, (2 * i) as u32, 32);
        assert(0 <= p * q <= 0xFFFF_FFFE_0000_0001) by (nonlinear_arith)
            requires
                0 <= p <= 0xFFFF_FFFF,
                0 <= q <= 0xFFFF_FFFF,
        ;
    }
}

/// Each lane of a result is the operation on the lanes of the operands.
pub proof fn law_lanes(op: LaneOp, a: u128, b: u128, w: u32, n: u32, i: u32)
    requires
        fits(op, w, n),
        i < n,
    ensures
        lane(lanes(op, a, b, w, n), i, w) == lane_value(op, a, b, i, w, n),
{
    assert forall|k: u32| k < n implies #[trigger] lane_value(op, a, b, k, w, n) <= lane_max(w) by {
        lemma_value_range(op, a, b, k, w, n);
    }
    lemma_upto(op, a, b, w, n, n);
}

/// The sign bits of the first `k` lanes as one number.
pub open spec fn signs_upto(v: u128, w: u32, k: nat) -> u32
    decreases k,
{
    if k == 0 {
        0
    } else {
        let x = lane(v, (k - 1) as u32, w);
        signs_upto(v, w, (k - 1) as nat) | (if 2 * x > lane_max(w) {
            1u32 << ((k - 1) as u32)
        } else {
            0u32
        })
    }
}

/// The sign bits of `n` lanes, lane 0 in bit 0.
pub fn signs(v: u128, w: u32, n: u32) -> (r: u32)
    requires
        w == 8 || w == 32 || w == 64,
        n <= 16,
    ensures
        r == signs_upto(v, w, n as nat),
{
    let mut r: u32 = 0;
    let mut k: u32 = 0;
    while k < n
        invariant
            w == 8 || w == 32 || w == 64,
            n <= 16,
            k <= n,
            r == signs_upto(v, w, k as nat),
        decreases n - k,
    {
        let x: u64 = lane(v, k, w);
        if x > lane_max(w) / 2 {
            r = r | (1u32 << k);
        } else {
            proof {
                lemma_or_zero(r);
            }
        }
        k = k + 1;
    }
    r
}

proof fn lemma_or_zero(r: u32)
    by (bit_vector)
    ensures
        r | 0 == r,
{
}

} // verus!
