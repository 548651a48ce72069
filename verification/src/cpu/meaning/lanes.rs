//! Instructions on vectors, lane by lane, as numbers.

use vstd::prelude::*;
use crate::cpu::fpu::Fpu;
use crate::cpu::mmx::lane_count;
use crate::cpu::operand::{Decoder, Operand};
use crate::cpu::state::Cpu;
use crate::cpu::vector::{lane, LaneOp};
use crate::machine::State;

verus! {

/// The number of values of a lane.
pub open spec fn size(w: int) -> int {
    if w == 8 {
        0x100
    } else if w == 16 {
        0x1_0000
    } else if w == 32 {
        0x1_0000_0000
    } else {
        0x1_0000_0000_0000_0000
    }
}

/// Lane `i` of a number: what is left of it after `i` lanes, and then its low lane.
#[verifier::opaque]
pub open spec fn part(v: int, i: int, w: int) -> int
    decreases i,
{
    if i <= 0 {
        v % size(w)
    } else {
        part(v / size(w), i - 1, w)
    }
}

/// A lane as a signed number.
pub open spec fn sign(x: int, n: int) -> int {
    if 2 * x >= n {
        x - n
    } else {
        x
    }
}

/// A number held to what a lane can be as a signed number.
pub open spec fn held(x: int, n: int) -> int {
    if x < -(n / 2) {
        -(n / 2)
    } else if x >= n / 2 {
        n / 2 - 1
    } else {
        x
    }
}

proof fn lemma_shifts(v: u128)
    by (bit_vector)
    ensures
        v >> 0 == v,
        v >> 8 == v / 0x100,
        v >> 16 == v / 0x1_0000,
        v >> 32 == v / 0x1_0000_0000,
        v >> 64 == v / 0x1_0000_0000_0000_0000,
        (v & 0xFF) as u64 == v % 0x100,
        (v & 0xFFFF) as u64 == v % 0x1_0000,
        (v & 0xFFFF_FFFF) as u64 == v % 0x1_0000_0000,
        (v & 0xFFFF_FFFF_FFFF_FFFF) as u64 == v % 0x1_0000_0000_0000_0000,
{
}

proof fn lemma_shift_twice(v: u128, a: u32, b: u32)
    requires
        a + b < 128,
    ensures
        v >> ((a + b) as u32) == (v >> a) >> b,
{
    vstd::bits::lemma_u128_shr_is_div(v, (a + b) as u128);
    vstd::bits::lemma_u128_shr_is_div(v, a as u128);
    vstd::bits::lemma_u128_shr_is_div(v >> a, b as u128);
    let (p, q) = (
        vstd::arithmetic::power2::pow2(a as nat) as int,
        vstd::arithmetic::power2::pow2(b as nat) as int,
    );
    vstd::arithmetic::power2::lemma_pow2_adds(a as nat, b as nat);
    vstd::arithmetic::power2::lemma_pow2_pos(a as nat);
    vstd::arithmetic::power2::lemma_pow2_pos(b as nat);
    vstd::arithmetic::div_mod::lemma_div_denominator(v as int, p, q);
}

/// A lane of a vector is that lane as a number.
pub proof fn lemma_part(v: u128, i: u32, w: u32)
    requires
        w == 8 || w == 16 || w == 32 || w == 64,
        i * w < 128,
        i < 16,
    ensures
        lane(v, i, w) == part(v as int, i as int, w as int),
        0 <= part(v as int, i as int, w as int) < size(w as int),
    decreases i,
{
    reveal(part);
    lemma_shifts(v);
    if i == 0 {
        assert(i * w == 0) by (nonlinear_arith)
            requires
                i == 0,
        ;
    } else {
        let rest = v >> w;
        let k = (i - 1) as u32;
        assert(i * w == k * w + w) by (nonlinear_arith)
            requires
                k == i - 1,
        ;
        lemma_shift_twice(v, w, (k * w) as u32);
        lemma_part(rest, k, w);
    }
}

/// The width of the lanes of an opcode that takes two lanes to one.
pub open spec fn paired(op: u8) -> int {
    if op == 0x64 || op == 0x74 || op == 0xD8 || op == 0xDA || op == 0xDC || op == 0xDE || op == 0xF8
        || op == 0xFC || op == 0xE0 || op == 0xE8 || op == 0xEC {
        8
    } else if op == 0x65 || op == 0x75 || op == 0xF9 || op == 0xFD || op == 0xD5 || op == 0xD9 || op
        == 0xDD || op == 0xE3 || op == 0xE4 || op == 0xE5 || op == 0xE9 || op == 0xEA || op == 0xED
        || op == 0xEE {
        16
    } else if op == 0x66 || op == 0x76 || op == 0xFA || op == 0xFE {
        32
    } else if op == 0xD4 || op == 0xFB {
        64
    } else {
        0
    }
}

/// What the opcodes make of a lane `x` of the destination and a lane `y` of the source,
/// each one of `n` values. 64 to 66 give all ones where `x` is greater as a signed number,
/// 74 to 76 where the two are equal, and zero elsewhere. FC to FE and D4 add, F8 to FB
/// subtract; DC and DD, D8 and D9 do so and stop at the end of the range, EC and ED, E8
/// and E9 at the ends of the signed range. DA is the smaller and DE the larger, EA and EE
/// of signed numbers; E0 and E3 the average, rounded up. D5 is the low half of the
/// product, E4 the high half, and E5 that of the signed product.
#[verifier::opaque]
pub open spec fn pair_law(op: u8, x: int, y: int, r: int, n: int) -> bool {
    let (p, q) = (sign(x, n), sign(y, n));
    &&& 0 <= r < n
    &&& 0x64 <= op <= 0x66 ==> r == if p > q { n - 1 } else { 0 }
    &&& 0x74 <= op <= 0x76 ==> r == if x == y { n - 1 } else { 0 }
    &&& 0xFC <= op <= 0xFE || op == 0xD4 ==> r == (x + y) % n
    &&& 0xF8 <= op <= 0xFB ==> r == (x - y) % n
    &&& op == 0xDC || op == 0xDD ==> r == if x + y < n { x + y } else { n - 1 }
    &&& op == 0xD8 || op == 0xD9 ==> r == if x > y { x - y } else { 0 }
    &&& op == 0xEC || op == 0xED ==> sign(r, n) == held(p + q, n)
    &&& op == 0xE8 || op == 0xE9 ==> sign(r, n) == held(p - q, n)
    &&& op == 0xDA ==> r == if x < y { x } else { y }
    &&& op == 0xDE ==> r == if x > y { x } else { y }
    &&& op == 0xEA ==> sign(r, n) == if p < q { p } else { q }
    &&& op == 0xEE ==> sign(r, n) == if p > q { p } else { q }
    &&& op == 0xE0 || op == 0xE3 ==> r == (x + y + 1) / 2
    &&& op == 0xD5 ==> r == (x * y) % n
    &&& op == 0xE4 ==> r == (x * y) / n
    &&& op == 0xE5 ==> r == (p * q) / n % n
}

/// The operation of an opcode that takes pairs of lanes.
spec fn kind(op: u8) -> LaneOp {
    if 0x64 <= op <= 0x66 {
        LaneOp::Greater
    } else if 0x74 <= op <= 0x76 {
        LaneOp::Equal
    } else if 0xFC <= op <= 0xFE || op == 0xD4 {
        LaneOp::Add
    } else if 0xF8 <= op <= 0xFB {
        LaneOp::Sub
    } else if op == 0xDC || op == 0xDD {
        LaneOp::AddUnsigned
    } else if op == 0xD8 || op == 0xD9 {
        LaneOp::SubUnsigned
    } else if op == 0xEC || op == 0xED {
        LaneOp::AddSigned
    } else if op == 0xE8 || op == 0xE9 {
        LaneOp::SubSigned
    } else if op == 0xDA {
        LaneOp::MinUnsigned
    } else if op == 0xDE {
        LaneOp::MaxUnsigned
    } else if op == 0xEA {
        LaneOp::MinSigned
    } else if op == 0xEE {
        LaneOp::MaxSigned
    } else if op == 0xE0 || op == 0xE3 {
        LaneOp::Average
    } else if op == 0xD5 {
        LaneOp::MulLow
    } else if op == 0xE4 {
        LaneOp::MulHighUnsigned
    } else {
        LaneOp::MulHighSigned
    }
}

proof fn lemma_tables(op: u8)
    requires
        paired(op) > 0,
    ensures
        crate::cpu::mmx::shared_lanes(op) == Some((kind(op), paired(op) as u32))
            || crate::cpu::mmx::shared_lanes(op) is None && crate::cpu::mmx::mmx_only_lanes(op)
            == Some((kind(op), paired(op) as u32)),
{
}

proof fn lemma_sums(x: u64, y: u64, w: u32)
    requires
        w == 8 || w == 16 || w == 32 || w == 64,
        x < size(w as int),
        y < size(w as int),
    ensures
        crate::cpu::vector::pair_value(LaneOp::Add, x, y, w) == (x + y) % size(w as int),
        crate::cpu::vector::pair_value(LaneOp::Sub, x, y, w) == (x - y) % size(w as int),
{
    reveal(crate::cpu::vector::pair_value);
    if w == 8 {
    } else if w == 16 {
    } else if w == 32 {
    } else {
    }
}

proof fn lemma_held(x: u64, y: u64, w: u32)
    requires
        w == 8 || w == 16,
        x < size(w as int),
        y < size(w as int),
    ensures
        ({
            let n = size(w as int);
            let (p, q) = (sign(x as int, n), sign(y as int, n));
            let a = crate::cpu::vector::pair_value(LaneOp::AddSigned, x, y, w) as int;
            let b = crate::cpu::vector::pair_value(LaneOp::SubSigned, x, y, w) as int;
            &&& 0 <= a < n
            &&& 0 <= b < n
            &&& sign(a, n) == held(p + q, n)
            &&& sign(b, n) == held(p - q, n)
        }),
{
    reveal(crate::cpu::vector::pair_value);
    if w == 8 {
    } else {
    }
}

proof fn lemma_products(x: u64, y: u64)
    requires
        x < 0x1_0000,
        y < 0x1_0000,
    ensures
        ({
            let (p, q) = (sign(x as int, 0x1_0000), sign(y as int, 0x1_0000));
            &&& crate::cpu::vector::pair_value(LaneOp::MulLow, x, y, 16) == (x * y) % 0x1_0000
            &&& crate::cpu::vector::pair_value(LaneOp::MulHighUnsigned, x, y, 16) == (x * y)
                / 0x1_0000
            &&& (x * y) / 0x1_0000 < 0x1_0000
            &&& crate::cpu::vector::pair_value(LaneOp::MulHighSigned, x, y, 16) == (p * q)
                / 0x1_0000 % 0x1_0000
        }),
{
    reveal(crate::cpu::vector::pair_value);
    assert(0 <= x * y < 0x1_0000 * 0x1_0000) by (nonlinear_arith)
        requires
            0 <= x < 0x1_0000,
            0 <= y < 0x1_0000,
    ;
}

proof fn lemma_choices(x: u64, y: u64, w: u32)
    requires
        w == 8 || w == 16 || w == 32 || w == 64,
        x < size(w as int),
        y < size(w as int),
    ensures
        ({
            let n = size(w as int);
            let (p, q) = (sign(x as int, n), sign(y as int, n));
            &&& crate::cpu::vector::pair_value(LaneOp::Greater, x, y, w) == if p > q {
                n - 1
            } else {
                0
            }
            &&& crate::cpu::vector::pair_value(LaneOp::Equal, x, y, w) == if x == y {
                n - 1
            } else {
                0
            }
            &&& crate::cpu::vector::pair_value(LaneOp::AddUnsigned, x, y, w) == if x + y < n {
                x + y
            } else {
                n - 1
            }
            &&& crate::cpu::vector::pair_value(LaneOp::SubUnsigned, x, y, w) == if x > y {
                x - y
            } else {
                0
            }
            &&& crate::cpu::vector::pair_value(LaneOp::MinUnsigned, x, y, w) == if x < y {
                x
            } else {
                y
            }
            &&& crate::cpu::vector::pair_value(LaneOp::MaxUnsigned, x, y, w) == if x > y {
                x
            } else {
                y
            }
            &&& crate::cpu::vector::pair_value(LaneOp::MinSigned, x, y, w) == if p < q {
                x
            } else {
                y
            }
            &&& crate::cpu::vector::pair_value(LaneOp::MaxSigned, x, y, w) == if p < q {
                y
            } else {
                x
            }
            &&& w <= 16 ==> crate::cpu::vector::pair_value(LaneOp::Average, x, y, w) == (x + y + 1)
                / 2
        }),
{
    reveal(crate::cpu::vector::pair_value);
}

proof fn lemma_pair(op: u8, x: u64, y: u64, w: u32)
    requires
        paired(op) == w,
        w > 0,
        x < size(w as int),
        y < size(w as int),
    ensures
        pair_law(
            op,
            x as int,
            y as int,
            crate::cpu::vector::pair_value(kind(op), x, y, w) as int,
            size(w as int),
        ),
{
    reveal(pair_law);
    lemma_sums(x, y, w);
    lemma_choices(x, y, w);
    if w <= 16 {
        lemma_held(x, y, w);
    }
    if w == 16 {
        lemma_products(x, y);
    }
}

/// A vector of so many bits whose lanes an opcode made of those of two others.
pub open spec fn lanewise(op: u8, a: int, b: int, r: int, bits: int) -> bool {
    let w = paired(op);
    forall|i: int|
        0 <= i && i * w < bits ==> pair_law(
            op,
            part(a, i, w),
            part(b, i, w),
            #[trigger] part(r, i, w),
            size(w),
        )
}

proof fn lemma_lanewise(op: u8, a: u128, b: u128, bits: u32)
    requires
        paired(op) > 0,
        bits == 64 || bits == 128,
    ensures
        ({
            let w = paired(op) as u32;
            lanewise(
                op,
                a as int,
                b as int,
                crate::cpu::vector::lanes(kind(op), a, b, w, lane_count(bits, w)) as int,
                bits as int,
            )
        }),
{
    let w = paired(op) as u32;
    let n = lane_count(bits, w);
    let r = crate::cpu::vector::lanes(kind(op), a, b, w, n);
    assert forall|i: int| 0 <= i && i * w < bits implies pair_law(
        op,
        part(a as int, i, w as int),
        part(b as int, i, w as int),
        #[trigger] part(r as int, i, w as int),
        size(w as int),
    ) by {
        assert(i < n && i < 16) by (nonlinear_arith)
            requires
                0 <= i,
                i * w < bits,
                w == 8 && n * 8 == bits || w == 16 && n * 16 == bits || w == 32 && n * 32 == bits
                    || w == 64 && n * 64 == bits,
                bits <= 128,
        ;
        let k = i as u32;
        lemma_part(a, k, w);
        lemma_part(b, k, w);
        lemma_part(r, k, w);
        lemma_tables(op);
        crate::cpu::mmx::lemma_tables_fit(op, 0, bits);
        crate::cpu::vector::law_lanes(kind(op), a, b, w, n, k);
        assert(crate::cpu::vector::lane_value(kind(op), a, b, k, w, n)
            == crate::cpu::vector::pair_value(kind(op), lane(a, k, w), lane(b, k, w), w)) by {
            reveal(crate::cpu::vector::lane_value);
        }
        lemma_pair(op, lane(a, k, w), lane(b, k, w), w);
    }
}

impl State {
    /// The 64-bit source of a vector instruction: a register, or eight bytes of memory.
    pub open spec fn quad_operand(self, rm: Operand) -> int {
        match rm {
            Operand::Reg(r) => self.cpu.fpu.mm_value(r) as int,
            Operand::Mem { addr, .. } => self.read32(addr).1 + 0x1_0000_0000 * self.read32(
                addr.wrapping_add(4),
            ).1,
        }
    }
}

/// An instruction on the 64-bit vectors, without a prefix.
pub open spec fn quads(s: State, t: State, d: Decoder, v: State, op: u8) -> bool {
    &&& crate::cpu::meaning::system::second(s, t, d, v, op)
    &&& s.profile.has_fpu
    &&& d.rep is None
    &&& !d.p66
}

/// One 64-bit vector was changed, the stack put at its start with no register empty, and
/// nothing else happened.
pub open spec fn one_quad(s: State, u: State, r: int) -> bool {
    &&& u.cpu.fpu.top == 0
    &&& u.cpu.fpu.empty == 0
    &&& forall|q: usize|
        q < 8 && q != r ==> #[trigger] u.cpu.fpu.mm_value(q) == s.cpu.fpu.mm_value(q)
    &&& crate::cpu::meaning::x87::but_stack(s, u)
}

proof fn lemma_quad_read(s: State, x: State, rm: Operand)
    requires
        crate::cpu::meaning::begun(s, x),
    ensures
        crate::cpu::meaning::begun(s, x.read_mm(rm).0),
        x.read_mm(rm).1 == s.quad_operand(rm),
{
    reveal(State::read_mm);
    if rm is Mem {
        crate::cpu::meaning::x87::lemma_long(s, x, rm->addr);
    }
}

proof fn lemma_one_quad(s: State, x: State, r: usize, v: u64)
    requires
        crate::cpu::meaning::begun(s, x),
        r < 8,
    ensures
        ({
            let u = x.with_mm(r, v).mmx_done().0;
            &&& u.cpu.fpu.mm_value(r) == v
            &&& one_quad(s, u, r as int)
        }),
{
    let u = x.with_mm(r, v).mmx_done().0;
    assert forall|q: usize| q < 8 && q != r implies #[trigger] u.cpu.fpu.mm_value(q)
        == s.cpu.fpu.mm_value(q) by {
        crate::cpu::fpu::law_mm_read_back(s.cpu.fpu, r, q, v);
    }
    crate::cpu::fpu::law_mm_read_back(s.cpu.fpu, r, r, v);
}

/// The opcodes 0F 64 to 66, 74 to 76, D4, D5, D8 to DA, DC to DE, E0, E3 to E5, E8 to EA,
/// EC to EE and F8 to FE on 64-bit vectors: each lane of the destination becomes what
/// [`pair_law`] says of the lanes of the destination and the source before.
pub proof fn law_quad_pairs(s: State, t: State, d: Decoder, v: State, op: u8, u: State)
    requires
        quads(s, t, d, v, op),
        paired(op) > 0,
        s.step() == Some(u),
    ensures
        lanewise(
            op,
            s.cpu.fpu.mm_value(v.field() as usize) as int,
            s.quad_operand(v.named(d)),
            u.cpu.fpu.mm_value(v.field() as usize) as int,
            64,
        ),
        one_quad(s, u, v.field()),
{
    crate::cpu::meaning::system::lemma_second(s, t, d, v, op);
    crate::cpu::meaning::lemma_modrm(v, d);
    let (x, reg, rm) = v.modrm(d);
    lemma_quad_read(s, x, rm);
    let (y, b) = x.read_mm(rm);
    let a = s.cpu.fpu.mm_value(reg);
    let r = crate::cpu::mmx::mmx_result(kind(op), paired(op) as u32, a, b);
    lemma_tables(op);
    assert(s.step() == Some(v.step_mmx(d, op).0) && v.step_mmx(d, op) == v.mmx_lanes(
        d,
        kind(op),
        paired(op) as u32,
    )) by {
        reveal(State::mmx_lanes);
        reveal(State::step_mmx);
        reveal(State::step_0f);
        reveal(State::twobyte_total);
        reveal(State::vector_ops);
    }
    reveal(State::mmx_lanes);
    lemma_one_quad(s, y, reg, r);
    lemma_lanewise(op, a as u128, b as u128, 64);
    let w = paired(op);
    let whole = crate::cpu::vector::lanes(
        kind(op),
        a as u128,
        b as u128,
        w as u32,
        lane_count(64, w as u32),
    );
    lemma_low_half(whole, w);
    assert(r == whole as int % 0x1_0000_0000_0000_0000);
    assert forall|i: int| 0 <= i && i * w < 64 implies pair_law(
        op,
        part(a as int, i, w),
        part(b as int, i, w),
        #[trigger] part(r as int, i, w),
        size(w),
    ) by {
        assert(part(whole as int, i, w) == part(r as int, i, w));
    }
}

/// `n` to the power `k`.
spec fn power(n: int, k: nat) -> int
    decreases k,
{
    if k == 0 {
        1
    } else {
        n * power(n, (k - 1) as nat)
    }
}

/// The low lanes of a number are those of what is left when its high lanes are dropped.
proof fn lemma_part_low(v: int, i: int, w: int, k: nat)
    requires
        0 <= i < k,
        v >= 0,
    ensures
        power(size(w), k) > 0,
        part(v % power(size(w), k), i, w) == part(v, i, w),
    decreases k,
{
    reveal(part);
    let n = size(w);
    let m = power(n, (k - 1) as nat);
    lemma_power_positive(n, (k - 1) as nat);
    lemma_power_positive(n, k);
    vstd::arithmetic::div_mod::lemma_mod_breakdown(v, n, m);
    let r = n * ((v / n) % m) + v % n;
    vstd::arithmetic::div_mod::lemma_fundamental_div_mod_converse(r, n, (v / n) % m, v % n);
    if i > 0 {
        assert(v / n >= 0) by (nonlinear_arith)
            requires
                v >= 0,
                n > 0,
        ;
        lemma_part_low(v / n, i - 1, w, (k - 1) as nat);
    }
}

proof fn lemma_power_positive(n: int, k: nat)
    requires
        n > 0,
    ensures
        power(n, k) > 0,
    decreases k,
{
    if k > 0 {
        lemma_power_positive(n, (k - 1) as nat);
        let m = power(n, (k - 1) as nat);
        assert(n * m > 0) by (nonlinear_arith)
            requires
                n > 0,
                m > 0,
        ;
    }
}

/// Lanes of 64 bits of a vector are lanes of its low half.
proof fn lemma_low_half(v: u128, w: int)
    requires
        w == 8 || w == 16 || w == 32 || w == 64,
    ensures
        forall|i: int| 0 <= i && i * w < 64 ==> #[trigger] part(
            v as int % 0x1_0000_0000_0000_0000,
            i,
            w,
        ) == part(v as int, i, w),
{
    let k: nat = if w == 8 {
        8
    } else if w == 16 {
        4
    } else if w == 32 {
        2
    } else {
        1
    };
    reveal_with_fuel(power, 9);
    assert(power(size(w), k) == 0x1_0000_0000_0000_0000);
    assert forall|i: int| 0 <= i && i * w < 64 implies #[trigger] part(
        v as int % 0x1_0000_0000_0000_0000,
        i,
        w,
    ) == part(v as int, i, w) by {
        lemma_part_low(v as int, i, w, k);
    }
}

} // verus!
