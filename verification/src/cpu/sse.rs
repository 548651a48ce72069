//! SSE and SSE2: vectors of 128 bits.
//!
//! The same opcode is a different instruction under the prefixes 66, F3 and F2.
//! There is no check of alignment and no exception. Sums, products and the like are
//! asked of the floating-point unit (see [`crate::cpu::float`]).

use vstd::prelude::*;
use crate::cpu::float::{
    double_of_int, int_to_single, narrow_double, order64, truncate, widen, Arith, FloatOp,
    FloatOrder, FloatThen, SseFormat,
};
use crate::cpu::fpu::{ask, read64, restore_all, save_all, write64};
use crate::cpu::mmx::{immediate_shift, lane_count, low_half, shared_lanes};
use crate::cpu::operand::{direct32, fetch8, modrm, set_direct32, Decoder, Operand};
use crate::cpu::state::{Cpu, AF, CF, OF, PF, SF, ZF};
use crate::cpu::vector::{signs, vector, LaneOp};
use crate::machine::{Machine, State};

verus! {

/// The prefix that selects among the instructions of an opcode.
#[derive(Clone, Copy, Debug, PartialEq, Eq, Structural)]
pub enum Pfx {
    /// Packed singles.
    Plain,
    /// Packed doubles, or integers.
    P66,
    /// A scalar single.
    F3,
    /// A scalar double.
    F2,
}

/// The prefix of an instruction. A REP prefix goes before 66.
#[verifier::allow_in_spec]
pub fn pfx(d: &Decoder) -> Pfx
    returns
        (if d.rep == Some(0xF3u8) {
            Pfx::F3
        } else if d.rep == Some(0xF2u8) {
            Pfx::F2
        } else if d.p66 {
            Pfx::P66
        } else {
            Pfx::Plain
        }),
{
    match d.rep {
        Some(0xF3) => Pfx::F3,
        Some(0xF2) => Pfx::F2,
        _ => {
            if d.p66 {
                Pfx::P66
            } else {
                Pfx::Plain
            }
        },
    }
}

#[verifier::allow_in_spec]
pub fn format_of(p: Pfx) -> SseFormat
    returns
        (match p {
            Pfx::Plain => SseFormat::PackedSingle,
            Pfx::P66 => SseFormat::PackedDouble,
            Pfx::F3 => SseFormat::ScalarSingle,
            Pfx::F2 => SseFormat::ScalarDouble,
        }),
{
    match p {
        Pfx::Plain => SseFormat::PackedSingle,
        Pfx::P66 => SseFormat::PackedDouble,
        Pfx::F3 => SseFormat::ScalarSingle,
        Pfx::F2 => SseFormat::ScalarDouble,
    }
}

/// A vector of two halves.
#[verifier::allow_in_spec]
pub fn halves(lo: u64, hi: u64) -> u128
    returns
        (lo + 0x1_0000_0000_0000_0000 * hi) as u128,
{
    lo as u128 + 0x1_0000_0000_0000_0000 * hi as u128
}

/// The high half of a vector.
#[verifier::allow_in_spec]
pub fn high_half(v: u128) -> u64
    returns
        (v / 0x1_0000_0000_0000_0000) as u64,
{
    (v / 0x1_0000_0000_0000_0000) as u64
}

/// The low doubleword of a vector.
#[verifier::allow_in_spec]
pub fn low_word(v: u128) -> u32
    returns
        (v % 0x1_0000_0000) as u32,
{
    (v % 0x1_0000_0000) as u32
}

/// A vector is its halves.
pub proof fn law_halves(v: u128, lo: u64, hi: u64)
    ensures
        halves(low_half(v), high_half(v)) == v,
        low_half(halves(lo, hi)) == lo,
        high_half(halves(lo, hi)) == hi,
{
}

/// The operations on integer vectors, and on the bits of any.
#[verifier::allow_in_spec]
pub fn sse_lanes(op: u8, p: Pfx) -> Option<(LaneOp, u32)>
    returns
        (if op == 0x54 {
            Some((LaneOp::And, 64u32))
        } else if op == 0x55 {
            Some((LaneOp::AndNot, 64u32))
        } else if op == 0x56 {
            Some((LaneOp::Or, 64u32))
        } else if op == 0x57 {
            Some((LaneOp::Xor, 64u32))
        } else if op == 0x6C {
            Some((LaneOp::UnpackLow, 64u32))
        } else if op == 0x6D {
            Some((LaneOp::UnpackHigh, 64u32))
        } else if op == 0xF6 && p != Pfx::P66 {
            None
        } else {
            shared_lanes(op)
        }),
{
    if op == 0x54 {
        Some((LaneOp::And, 64))
    } else if op == 0x55 {
        Some((LaneOp::AndNot, 64))
    } else if op == 0x56 {
        Some((LaneOp::Or, 64))
    } else if op == 0x57 {
        Some((LaneOp::Xor, 64))
    } else if op == 0x6C {
        Some((LaneOp::UnpackLow, 64))
    } else if op == 0x6D {
        Some((LaneOp::UnpackHigh, 64))
    } else if op == 0xF6 && p != Pfx::P66 {
        None
    } else {
        shared_lanes(op)
    }
}

/// The arithmetic on floating-point numbers.
#[verifier::allow_in_spec]
pub fn sse_arith(op: u8) -> Option<Arith>
    returns
        (if op == 0x51 {
            Some(Arith::Sqrt)
        } else if op == 0x58 {
            Some(Arith::Add)
        } else if op == 0x59 {
            Some(Arith::Mul)
        } else if op == 0x5C {
            Some(Arith::Sub)
        } else if op == 0x5D {
            Some(Arith::Min)
        } else if op == 0x5E {
            Some(Arith::Div)
        } else if op == 0x5F {
            Some(Arith::Max)
        } else {
            None
        }),
{
    if op == 0x51 {
        Some(Arith::Sqrt)
    } else if op == 0x58 {
        Some(Arith::Add)
    } else if op == 0x59 {
        Some(Arith::Mul)
    } else if op == 0x5C {
        Some(Arith::Sub)
    } else if op == 0x5D {
        Some(Arith::Min)
    } else if op == 0x5E {
        Some(Arith::Div)
    } else if op == 0x5F {
        Some(Arith::Max)
    } else {
        None
    }
}

impl Cpu {
    /// The flags after a comparison of scalars.
    pub open spec fn after_comis(self, order: FloatOrder) -> Cpu {
        let un = order == FloatOrder::Unordered;
        self.with_flag(ZF, un || order == FloatOrder::Equal).with_flag(PF, un).with_flag(
            CF,
            un || order == FloatOrder::Less,
        ).with_flag(SF, false).with_flag(OF, false).with_flag(AF, false)
    }
}

impl State {
    pub open spec fn with_xmm(self, r: usize, v: u128) -> State {
        self.with_cpu(self.cpu.with_xmm(r, v))
    }

    #[verifier::opaque]
    pub open spec fn read128(self, a: u32) -> (State, u128) {
        let (s, lo) = self.read64(a);
        let (t, hi) = s.read64(a.wrapping_add(8));
        (t, halves(lo, hi))
    }

    #[verifier::opaque]
    pub open spec fn write128(self, a: u32, v: u128) -> State {
        self.write64(a, low_half(v)).write64(a.wrapping_add(8), high_half(v))
    }

    /// A source operand of 128, 64 or 32 bits.
    #[verifier::opaque]
    pub open spec fn rm128(self, rm: Operand) -> (State, u128) {
        match rm {
            Operand::Reg(r) => (self, self.cpu.xmm[r as int]),
            Operand::Mem { addr, .. } => self.read128(addr),
        }
    }

    #[verifier::opaque]
    pub open spec fn rm64(self, rm: Operand) -> (State, u64) {
        match rm {
            Operand::Reg(r) => (self, low_half(self.cpu.xmm[r as int])),
            Operand::Mem { addr, .. } => self.read64(addr),
        }
    }

    #[verifier::opaque]
    pub open spec fn rm32(self, rm: Operand) -> (State, u32) {
        match rm {
            Operand::Reg(r) => (self, low_word(self.cpu.xmm[r as int])),
            Operand::Mem { addr, .. } => self.read32(addr),
        }
    }

    /// Stores a whole vector.
    #[verifier::opaque]
    pub open spec fn store128(self, rm: Operand, v: u128) -> State {
        match rm {
            Operand::Reg(r) => self.with_xmm(r, v),
            Operand::Mem { addr, .. } => self.write128(addr, v),
        }
    }

    /// Opcodes 10 and 11: a load and a store of a vector or a scalar. A scalar from
    /// memory clears the rest of the register.
    #[verifier::opaque]
    pub open spec fn sse_mov(self, d: Decoder, store: bool) -> State {
        let p = pfx(&d);
        let (s, reg, rm) = self.modrm(d);
        let own = s.cpu.xmm[reg as int];
        if p == Pfx::Plain || p == Pfx::P66 {
            if store {
                s.store128(rm, own)
            } else {
                let (t, v) = s.rm128(rm);
                t.with_xmm(reg, v)
            }
        } else {
            match rm {
                Operand::Reg(r) => {
                    let (to, from) = if store { (r, reg) } else { (reg, r) };
                    let v = s.cpu.xmm[from as int];
                    s.with_cpu(
                        if p == Pfx::F3 {
                            s.cpu.with_xmm_low32(to, low_word(v))
                        } else {
                            s.cpu.with_xmm_low64(to, low_half(v))
                        },
                    )
                },
                Operand::Mem { addr, .. } => if p == Pfx::F3 {
                    if store {
                        s.write32(addr, low_word(own))
                    } else {
                        let (t, v) = s.read32(addr);
                        t.with_xmm(reg, v as u128)
                    }
                } else {
                    if store {
                        s.write64(addr, low_half(own))
                    } else {
                        let (t, v) = s.read64(addr);
                        t.with_xmm(reg, v as u128)
                    }
                },
            }
        }
    }

    /// Opcodes 12, 13, 16 and 17: one half of a vector.
    #[verifier::opaque]
    pub open spec fn sse_half(self, d: Decoder, op: u8) -> State {
        let (s, reg, rm) = self.modrm(d);
        if op == 0x12 {
            let (t, v) = s.rm64(rm);
            t.with_cpu(t.cpu.with_xmm_low64(reg, v))
        } else if op == 0x16 {
            let (t, v) = s.rm64(rm);
            t.with_xmm(reg, halves(low_half(t.cpu.xmm[reg as int]), v))
        } else {
            match rm {
                Operand::Reg(_) => s,
                Operand::Mem { addr, .. } => s.write64(
                    addr,
                    if op == 0x13 {
                        low_half(s.cpu.xmm[reg as int])
                    } else {
                        high_half(s.cpu.xmm[reg as int])
                    },
                ),
            }
        }
    }

    /// The other moves.
    #[verifier::opaque]
    pub open spec fn sse_move(self, d: Decoder, op: u8) -> (State, bool) {
        let p = pfx(&d);
        let whole = p == Pfx::P66 || p == Pfx::F3;
        let (s, reg, rm) = self.modrm(d);
        let own = s.cpu.xmm[reg as int];
        if op == 0x28 || (op == 0x6F && whole) {
            let (t, v) = s.rm128(rm);
            (t.with_xmm(reg, v), true)
        } else if op == 0x29 || (op == 0x7F && whole) {
            (s.store128(rm, own), true)
        } else if op == 0x2B || op == 0xE7 {
            match rm {
                Operand::Reg(_) => (s, true),
                Operand::Mem { addr, .. } => (s.write128(addr, own), true),
            }
        } else if op == 0x6E && p == Pfx::P66 {
            let (t, v) = s.direct32(rm);
            (t.with_xmm(reg, v as u128), true)
        } else if op == 0x7E && p == Pfx::P66 {
            (s.with_direct32(rm, low_word(own)), true)
        } else if op == 0x7E && p == Pfx::F3 {
            let (t, v) = s.rm64(rm);
            (t.with_xmm(reg, v as u128), true)
        } else if op == 0xD6 && p == Pfx::P66 {
            match rm {
                Operand::Reg(r) => (s.with_xmm(r, low_half(own) as u128), true),
                Operand::Mem { addr, .. } => (s.write64(addr, low_half(own)), true),
            }
        } else {
            (self, false)
        }
    }

    /// An operation on the destination and the source.
    #[verifier::opaque]
    pub open spec fn sse_vector(self, d: Decoder, op: LaneOp, w: u32) -> State {
        let (s, reg, rm) = self.modrm(d);
        let (t, b) = s.rm128(rm);
        t.with_xmm(
            reg,
            crate::cpu::vector::lanes(op, t.cpu.xmm[reg as int], b, w, lane_count(128, w)),
        )
    }

    /// Sign bits to a general register.
    #[verifier::opaque]
    pub open spec fn sse_signs(self, d: Decoder, w: u32) -> (State, bool) {
        let (s, reg, rm) = self.modrm(d);
        match rm {
            Operand::Mem { .. } => (s, false),
            Operand::Reg(r) => (
                s.with_cpu(
                    s.cpu.with_reg(
                        reg,
                        crate::cpu::vector::signs_upto(
                            s.cpu.xmm[r as int],
                            w,
                            lane_count(128, w) as nat,
                        ),
                    ),
                ),
                true,
            ),
        }
    }

    /// Shuffles by an immediate.
    #[verifier::opaque]
    pub open spec fn sse_shuffle(self, d: Decoder, op: u8) -> (State, bool) {
        let p = pfx(&d);
        let (s, reg, rm) = self.modrm(d);
        let (t, b) = s.rm128(rm);
        let (u, sel) = t.fetch8();
        let a = u.cpu.xmm[reg as int];
        if op == 0xC6 {
            (
                u.with_xmm(
                    reg,
                    crate::cpu::vector::lanes(LaneOp::ShuffleTwo { sel }, a, b, 32, 4),
                ),
                true,
            )
        } else if p == Pfx::P66 {
            (
                u.with_xmm(
                    reg,
                    crate::cpu::vector::lanes(LaneOp::Shuffle { sel }, a, b, 32, 4),
                ),
                true,
            )
        } else if p == Pfx::F2 {
            (
                u.with_xmm(
                    reg,
                    crate::cpu::vector::lanes(LaneOp::ShuffleLow { sel }, a, b, 16, 8),
                ),
                true,
            )
        } else if p == Pfx::F3 {
            (
                u.with_xmm(
                    reg,
                    crate::cpu::vector::lanes(LaneOp::ShuffleHigh { sel }, a, b, 16, 8),
                ),
                true,
            )
        } else {
            (u, false)
        }
    }

    /// Shifts by an immediate, of lanes or of the whole vector by bytes.
    #[verifier::opaque]
    pub open spec fn sse_shift(self, d: Decoder, op: u8) -> (State, bool) {
        let (s, slot, rm) = self.modrm(d);
        let (t, n) = s.fetch8();
        match rm {
            Operand::Mem { .. } => (t, false),
            Operand::Reg(r) => {
                let v = t.cpu.xmm[r as int];
                if op == 0x73 && slot == 3 {
                    (t.with_xmm(r, if n >= 16 { 0 } else { v >> ((8 * n) as u32) }), true)
                } else if op == 0x73 && slot == 7 {
                    (t.with_xmm(r, if n >= 16 { 0 } else { v << ((8 * n) as u32) }), true)
                } else {
                    match immediate_shift(op, slot) {
                        None => (t, false),
                        Some((f, w)) => (
                            t.with_xmm(
                                r,
                                crate::cpu::vector::lanes(f, v, n as u128, w, lane_count(128, w)),
                            ),
                            true,
                        ),
                    }
                }
            },
        }
    }

    /// A source operand in the width of a format.
    #[verifier::opaque]
    pub open spec fn rm_format(self, rm: Operand, p: Pfx) -> (State, u128) {
        match p {
            Pfx::Plain | Pfx::P66 => self.rm128(rm),
            Pfx::F3 => {
                let (s, v) = self.rm32(rm);
                (s, v as u128)
            },
            Pfx::F2 => {
                let (s, v) = self.rm64(rm);
                (s, v as u128)
            },
        }
    }

    /// Arithmetic: the unit is asked for all lanes or the low one.
    #[verifier::opaque]
    pub open spec fn sse_float(self, d: Decoder, op: Arith) -> State {
        let p = pfx(&d);
        let (s, reg, rm) = self.modrm(d);
        let (t, b) = s.rm_format(rm, p);
        t.float_asked(
            FloatOp::Lanes { op, format: format_of(p) },
            t.cpu.xmm[reg as int],
            b,
            target_of(p, reg),
        )
    }

    /// Integer to scalar.
    #[verifier::opaque]
    pub open spec fn sse_from_int(self, d: Decoder) -> (State, bool) {
        let p = pfx(&d);
        let (s, reg, rm) = self.modrm(d);
        let (t, v) = s.direct32(rm);
        if p == Pfx::F3 {
            (
                t.with_cpu(
                    t.cpu.with_xmm_low32(
                        reg,
                        crate::cpu::float::single_of_int(crate::bits::signed32(v) as int),
                    ),
                ),
                true,
            )
        } else if p == Pfx::F2 {
            (
                t.with_cpu(
                    t.cpu.with_xmm_low64(
                        reg,
                        crate::cpu::float::double_of(crate::bits::signed32(v) as int),
                    ),
                ),
                true,
            )
        } else {
            (t, false)
        }
    }

    /// Scalar to integer. Both opcodes drop the fraction.
    #[verifier::opaque]
    pub open spec fn sse_to_int(self, d: Decoder) -> (State, bool) {
        let p = pfx(&d);
        let (s, reg, rm) = self.modrm(d);
        if p == Pfx::F3 || p == Pfx::F2 {
            let (t, v) = if p == Pfx::F3 {
                let (t, w) = s.rm32(rm);
                (t, crate::cpu::float::widened(w))
            } else {
                s.rm64(rm)
            };
            (
                t.with_cpu(
                    t.cpu.with_reg(
                        reg,
                        (crate::cpu::float::truncated(v) % 0x1_0000_0000) as u32,
                    ),
                ),
                true,
            )
        } else {
            (s, false)
        }
    }

    /// Singles to doubles and back.
    #[verifier::opaque]
    pub open spec fn sse_convert(self, d: Decoder) -> State {
        let p = pfx(&d);
        let (s, reg, rm) = self.modrm(d);
        match p {
            Pfx::F3 => {
                let (t, v) = s.rm32(rm);
                t.with_cpu(t.cpu.with_xmm_low64(reg, crate::cpu::float::widened(v)))
            },
            Pfx::F2 => {
                let (t, v) = s.rm64(rm);
                t.with_cpu(t.cpu.with_xmm_low32(reg, crate::cpu::float::single_of(v)))
            },
            Pfx::Plain => {
                let (t, v) = s.rm128(rm);
                t.with_xmm(reg, crate::cpu::vector::lanes(LaneOp::Widen, 0, v, 64, 2))
            },
            Pfx::P66 => {
                let (t, v) = s.rm128(rm);
                t.with_xmm(reg, crate::cpu::vector::lanes(LaneOp::Narrow, 0, v, 32, 2))
            },
        }
    }

    /// Four integers to singles and back.
    #[verifier::opaque]
    pub open spec fn sse_convert_ints(self, d: Decoder) -> (State, bool) {
        let p = pfx(&d);
        let (s, reg, rm) = self.modrm(d);
        if p == Pfx::F2 {
            (s, false)
        } else {
            let (t, v) = s.rm128(rm);
            if p == Pfx::Plain {
                (t.with_xmm(reg, crate::cpu::vector::lanes(LaneOp::FromInt, 0, v, 32, 4)), true)
            } else {
                (t.with_xmm(reg, crate::cpu::vector::lanes(LaneOp::ToInt, 0, v, 32, 4)), true)
            }
        }
    }

    /// A comparison of scalars into the flags.
    #[verifier::opaque]
    pub open spec fn sse_compare(self, d: Decoder) -> State {
        let (s, reg, rm) = self.modrm(d);
        let own = s.cpu.xmm[reg as int];
        if pfx(&d) == Pfx::P66 {
            let (t, v) = s.rm64(rm);
            t.with_cpu(t.cpu.after_comis(crate::cpu::float::order_of64(low_half(own), v)))
        } else {
            let (t, v) = s.rm32(rm);
            t.with_cpu(
                t.cpu.after_comis(
                    crate::cpu::float::order_of64(
                        crate::cpu::float::widened(low_word(own)),
                        crate::cpu::float::widened(v),
                    ),
                ),
            )
        }
    }

    /// A comparison into a mask. The source is read in each of its three widths.
    #[verifier::opaque]
    pub open spec fn sse_test(self, d: Decoder) -> State {
        let p = pfx(&d);
        let (s, reg, rm) = self.modrm(d);
        let (s1, b) = s.rm128(rm);
        let (s2, b32) = s1.rm32(rm);
        let (s3, b64) = s2.rm64(rm);
        let (t, imm) = s3.fetch8();
        let f = LaneOp::Test { predicate: (imm % 8) as u8 };
        let a = t.cpu.xmm[reg as int];
        match p {
            Pfx::Plain => t.with_xmm(reg, crate::cpu::vector::lanes(f, a, b, 32, 4)),
            Pfx::P66 => t.with_xmm(reg, crate::cpu::vector::lanes(f, a, b, 64, 2)),
            Pfx::F3 => t.with_cpu(
                t.cpu.with_xmm_low32(
                    reg,
                    low_word(crate::cpu::vector::lanes(f, a, b32 as u128, 32, 1)),
                ),
            ),
            Pfx::F2 => t.with_cpu(
                t.cpu.with_xmm_low64(
                    reg,
                    low_half(crate::cpu::vector::lanes(f, a, b64 as u128, 64, 1)),
                ),
            ),
        }
    }

    /// The instructions on floating-point numbers.
    #[verifier::opaque]
    pub open spec fn sse_numbers(self, d: Decoder, op: u8) -> (State, bool) {
        if let Some(f) = sse_arith(op) {
            (self.sse_float(d, f), true)
        } else if op == 0x2A {
            self.sse_from_int(d)
        } else if op == 0x2C || op == 0x2D {
            self.sse_to_int(d)
        } else if op == 0x5A {
            (self.sse_convert(d), true)
        } else if op == 0x5B {
            self.sse_convert_ints(d)
        } else if op == 0x2E || op == 0x2F {
            (self.sse_compare(d), true)
        } else if op == 0xC2 {
            (self.sse_test(d), true)
        } else {
            self.sse_move(d, op)
        }
    }

    /// One SSE instruction, and whether the opcode was one.
    #[verifier::opaque]
    pub open spec fn step_sse(self, d: Decoder, op: u8) -> (State, bool) {
        let p = pfx(&d);
        if let Some((f, w)) = sse_lanes(op, p) {
            (self.sse_vector(d, f, w), true)
        } else if op == 0x10 || op == 0x11 {
            (self.sse_mov(d, op == 0x11), true)
        } else if (op == 0x12 || op == 0x13 || op == 0x16 || op == 0x17) && (p == Pfx::Plain || p
            == Pfx::P66) {
            (self.sse_half(d, op), true)
        } else if op == 0xD7 && p == Pfx::P66 {
            self.sse_signs(d, 8)
        } else if op == 0x50 {
            self.sse_signs(d, if p == Pfx::P66 { 64 } else { 32 })
        } else if op == 0x70 || (op == 0xC6 && p == Pfx::Plain) {
            self.sse_shuffle(d, op)
        } else if 0x71 <= op <= 0x73 && p == Pfx::P66 {
            self.sse_shift(d, op)
        } else {
            self.sse_numbers(d, op)
        }
    }

    /// Zeros from byte `k` to the end of a save area.
    #[verifier::opaque]
    pub open spec fn zeroed_from(self, a: u32, k: nat) -> State
        decreases 512 - k,
    {
        if k >= 512 {
            self
        } else {
            self.write8(a.wrapping_add(k as u32), 0).zeroed_from(a, k + 1)
        }
    }

    /// Vectors `k` to 7 to a save area.
    #[verifier::opaque]
    pub open spec fn xmm_saved_from(self, a: u32, k: nat) -> State
        decreases 8 - k,
    {
        if k >= 8 {
            self
        } else {
            self.write128(
                a.wrapping_add((160 + 16 * k) as u32),
                self.cpu.xmm[k as int],
            ).xmm_saved_from(a, k + 1)
        }
    }

    /// Vectors `k` to 7 from a save area.
    #[verifier::opaque]
    pub open spec fn xmm_loaded_from(self, a: u32, k: nat) -> State
        decreases 8 - k,
    {
        if k >= 8 {
            self
        } else {
            let (s, v) = self.read128(a.wrapping_add((160 + 16 * k) as u32));
            s.with_xmm(k as usize, v).xmm_loaded_from(a, k + 1)
        }
    }

    /// FXSAVE: 512 bytes with the control word, the control of SSE, the stack
    /// registers of the FPU and the vectors.
    #[verifier::opaque]
    pub open spec fn fxsave(self, a: u32) -> State {
        let s = self.zeroed_from(a, 0);
        s.write16(a, s.cpu.fpu_cw).write16(a.wrapping_add(2), 0).write8(
            a.wrapping_add(4),
            0,
        ).write32(a.wrapping_add(24), s.cpu.mxcsr).write32(
            a.wrapping_add(28),
            0xFFFF,
        ).save_from(a.wrapping_add(32), 16, 0).xmm_saved_from(a, 0)
    }

    /// FXRSTOR.
    #[verifier::opaque]
    pub open spec fn fxrstor(self, a: u32) -> State {
        let (s, cw) = self.read16(a);
        let s1 = s.with_cpu(Cpu { fpu_cw: cw, ..s.cpu });
        let (t, mx) = s1.read32(a.wrapping_add(24));
        t.with_cpu(Cpu { mxcsr: mx, ..t.cpu }).restored_from(
            a.wrapping_add(32),
            16,
            0,
        ).xmm_loaded_from(a, 0)
    }

    /// The group of `0F AE`, and whether the instruction was one.
    #[verifier::opaque]
    pub open spec fn grp_0fae(self, d: Decoder) -> (State, bool) {
        let (s, slot, rm) = self.modrm(d);
        match rm {
            Operand::Reg(_) => (s, slot >= 5),
            Operand::Mem { addr, .. } => if slot == 0 {
                (s.fxsave(addr), true)
            } else if slot == 1 {
                (s.fxrstor(addr), true)
            } else if slot == 2 {
                let (t, v) = s.read32(addr);
                (t.with_cpu(Cpu { mxcsr: v, ..t.cpu }), true)
            } else if slot == 3 {
                (s.write32(addr, s.cpu.mxcsr), true)
            } else {
                (s, false)
            },
        }
    }
}

/// Where the result of arithmetic goes: all of a register or its low lane.
#[verifier::allow_in_spec]
pub fn target_of(p: Pfx, reg: usize) -> FloatThen
    returns
        (match p {
            Pfx::Plain | Pfx::P66 => FloatThen::Xmm { reg },
            Pfx::F3 => FloatThen::XmmLow32 { reg },
            Pfx::F2 => FloatThen::XmmLow64 { reg },
        }),
{
    match p {
        Pfx::Plain | Pfx::P66 => FloatThen::Xmm { reg },
        Pfx::F3 => FloatThen::XmmLow32 { reg },
        Pfx::F2 => FloatThen::XmmLow64 { reg },
    }
}

fn read128(m: &mut Machine, a: u32) -> (v: u128)
    ensures
        (final(m)@, v) == old(m)@.read128(a),
{
    proof {
        reveal(State::read128);
    }
    let lo: u64 = read64(m, a);
    let hi: u64 = read64(m, a.wrapping_add(8));
    halves(lo, hi)
}

fn write128(m: &mut Machine, a: u32, v: u128)
    ensures
        final(m)@ == old(m)@.write128(a, v),
{
    proof {
        reveal(State::write128);
    }
    write64(m, a, low_half(v));
    write64(m, a.wrapping_add(8), high_half(v));
}

fn rm128(m: &mut Machine, rm: &Operand) -> (v: u128)
    requires
        rm.wf(),
    ensures
        (final(m)@, v) == old(m)@.rm128(*rm),
{
    proof {
        reveal(State::rm128);
    }
    match *rm {
        Operand::Reg(r) => m.cpu.xmm[r],
        Operand::Mem { addr, .. } => read128(m, addr),
    }
}

fn rm64(m: &mut Machine, rm: &Operand) -> (v: u64)
    requires
        rm.wf(),
    ensures
        (final(m)@, v) == old(m)@.rm64(*rm),
{
    proof {
        reveal(State::rm64);
    }
    match *rm {
        Operand::Reg(r) => low_half(m.cpu.xmm[r]),
        Operand::Mem { addr, .. } => read64(m, addr),
    }
}

fn rm32(m: &mut Machine, rm: &Operand) -> (v: u32)
    requires
        rm.wf(),
    ensures
        (final(m)@, v) == old(m)@.rm32(*rm),
{
    proof {
        reveal(State::rm32);
    }
    match *rm {
        Operand::Reg(r) => low_word(m.cpu.xmm[r]),
        Operand::Mem { addr, .. } => m.read32(addr),
    }
}

fn store128(m: &mut Machine, rm: &Operand, v: u128)
    requires
        rm.wf(),
    ensures
        final(m)@ == old(m)@.store128(*rm, v),
{
    proof {
        reveal(State::store128);
    }
    match *rm {
        Operand::Reg(r) => {
            m.cpu.xmm[r] = v;
        },
        Operand::Mem { addr, .. } => write128(m, addr, v),
    }
}

fn sse_mov(m: &mut Machine, d: &Decoder, store: bool)
    requires
        d.wf(),
    ensures
        final(m)@ == old(m)@.sse_mov(*d, store),
{
    proof {
        reveal(State::sse_mov);
    }
    let p = pfx(d);
    let (reg, rm) = modrm(m, d);
    let own: u128 = m.cpu.xmm[reg];
    if p == Pfx::Plain || p == Pfx::P66 {
        if store {
            store128(m, &rm, own);
        } else {
            let v: u128 = rm128(m, &rm);
            m.cpu.xmm[reg] = v;
        }
        return;
    }
    match rm {
        Operand::Reg(r) => {
            let (to, from) = if store {
                (r, reg)
            } else {
                (reg, r)
            };
            let v: u128 = m.cpu.xmm[from];
            if p == Pfx::F3 {
                m.cpu.set_xmm_low32(to, low_word(v));
            } else {
                m.cpu.set_xmm_low64(to, low_half(v));
            }
        },
        Operand::Mem { addr, .. } => {
            if p == Pfx::F3 {
                if store {
                    m.write32(addr, low_word(own));
                } else {
                    let v: u32 = m.read32(addr);
                    m.cpu.xmm[reg] = v as u128;
                }
            } else {
                if store {
                    write64(m, addr, low_half(own));
                } else {
                    let v: u64 = read64(m, addr);
                    m.cpu.xmm[reg] = v as u128;
                }
            }
        },
    }
}

fn sse_half(m: &mut Machine, d: &Decoder, op: u8)
    requires
        d.wf(),
    ensures
        final(m)@ == old(m)@.sse_half(*d, op),
{
    proof {
        reveal(State::sse_half);
    }
    let (reg, rm) = modrm(m, d);
    if op == 0x12 {
        let v: u64 = rm64(m, &rm);
        m.cpu.set_xmm_low64(reg, v);
    } else if op == 0x16 {
        let v: u64 = rm64(m, &rm);
        m.cpu.xmm[reg] = halves(low_half(m.cpu.xmm[reg]), v);
    } else {
        match rm {
            Operand::Reg(_) => {},
            Operand::Mem { addr, .. } => {
                let own: u128 = m.cpu.xmm[reg];
                let v: u64 = if op == 0x13 {
                    low_half(own)
                } else {
                    high_half(own)
                };
                write64(m, addr, v);
            },
        }
    }
}

fn sse_move(m: &mut Machine, d: &Decoder, op: u8) -> (took: bool)
    requires
        d.wf(),
    ensures
        (final(m)@, took) == old(m)@.sse_move(*d, op),
{
    proof {
        reveal(State::sse_move);
    }
    let p = pfx(d);
    let whole = p == Pfx::P66 || p == Pfx::F3;
    let known = op == 0x28 || op == 0x29 || op == 0x2B || op == 0xE7 || ((op == 0x6F || op == 0x7F)
        && whole) || ((op == 0x6E || op == 0xD6) && p == Pfx::P66) || (op == 0x7E && whole);
    if !known {
        return false;
    }
    let (reg, rm) = modrm(m, d);
    let own: u128 = m.cpu.xmm[reg];
    if op == 0x28 || op == 0x6F {
        let v: u128 = rm128(m, &rm);
        m.cpu.xmm[reg] = v;
    } else if op == 0x29 || op == 0x7F {
        store128(m, &rm, own);
    } else if op == 0x2B || op == 0xE7 {
        match rm {
            Operand::Reg(_) => {},
            Operand::Mem { addr, .. } => write128(m, addr, own),
        }
    } else if op == 0x6E {
        let v: u32 = direct32(m, &rm);
        m.cpu.xmm[reg] = v as u128;
    } else if op == 0x7E && p == Pfx::P66 {
        set_direct32(m, &rm, low_word(own));
    } else if op == 0x7E {
        let v: u64 = rm64(m, &rm);
        m.cpu.xmm[reg] = v as u128;
    } else {
        match rm {
            Operand::Reg(r) => {
                m.cpu.xmm[r] = low_half(own) as u128;
            },
            Operand::Mem { addr, .. } => write64(m, addr, low_half(own)),
        }
    }
    true
}

fn sse_vector(m: &mut Machine, d: &Decoder, op: LaneOp, w: u32)
    requires
        d.wf(),
        crate::cpu::vector::fits(op, w, lane_count(128, w)),
    ensures
        final(m)@ == old(m)@.sse_vector(*d, op, w),
{
    proof {
        reveal(State::sse_vector);
    }
    let (reg, rm) = modrm(m, d);
    let b: u128 = rm128(m, &rm);
    m.cpu.xmm[reg] = vector(op, m.cpu.xmm[reg], b, w, lane_count(128, w));
}

fn sse_signs(m: &mut Machine, d: &Decoder, w: u32) -> (took: bool)
    requires
        d.wf(),
        w == 8 || w == 32 || w == 64,
    ensures
        (final(m)@, took) == old(m)@.sse_signs(*d, w),
{
    proof {
        reveal(State::sse_signs);
    }
    let (reg, rm) = modrm(m, d);
    match rm {
        Operand::Mem { .. } => false,
        Operand::Reg(r) => {
            let v: u32 = signs(m.cpu.xmm[r], w, lane_count(128, w));
            m.cpu.set_reg32(reg, v);
            true
        },
    }
}

fn sse_shuffle(m: &mut Machine, d: &Decoder, op: u8) -> (took: bool)
    requires
        d.wf(),
    ensures
        (final(m)@, took) == old(m)@.sse_shuffle(*d, op),
{
    proof {
        reveal(State::sse_shuffle);
    }
    let p = pfx(d);
    let (reg, rm) = modrm(m, d);
    let b: u128 = rm128(m, &rm);
    let sel: u8 = fetch8(m);
    let a: u128 = m.cpu.xmm[reg];
    if op == 0xC6 {
        m.cpu.xmm[reg] = vector(LaneOp::ShuffleTwo { sel }, a, b, 32, 4);
    } else if p == Pfx::P66 {
        m.cpu.xmm[reg] = vector(LaneOp::Shuffle { sel }, a, b, 32, 4);
    } else if p == Pfx::F2 {
        m.cpu.xmm[reg] = vector(LaneOp::ShuffleLow { sel }, a, b, 16, 8);
    } else if p == Pfx::F3 {
        m.cpu.xmm[reg] = vector(LaneOp::ShuffleHigh { sel }, a, b, 16, 8);
    } else {
        return false;
    }
    true
}

fn sse_shift(m: &mut Machine, d: &Decoder, op: u8) -> (took: bool)
    requires
        d.wf(),
    ensures
        (final(m)@, took) == old(m)@.sse_shift(*d, op),
{
    proof {
        reveal(State::sse_shift);
    }
    let (slot, rm) = modrm(m, d);
    let n: u8 = fetch8(m);
    match rm {
        Operand::Mem { .. } => {
            return false;
        },
        Operand::Reg(r) => {
            let v: u128 = m.cpu.xmm[r];
            if op == 0x73 && slot == 3 {
                m.cpu.xmm[r] = if n >= 16 {
                    0
                } else {
                    v >> (8 * n as u32)
                };
            } else if op == 0x73 && slot == 7 {
                m.cpu.xmm[r] = if n >= 16 {
                    0
                } else {
                    v << (8 * n as u32)
                };
            } else {
                proof {
                    crate::cpu::mmx::lemma_tables_fit(op, slot, 128);
                }
                match immediate_shift(op, slot) {
                    None => {
                        return false;
                    },
                    Some((f, w)) => {
                        m.cpu.xmm[r] = vector(f, v, n as u128, w, lane_count(128, w));
                    },
                }
            }
        },
    }
    true
}

fn rm_format(m: &mut Machine, rm: &Operand, p: Pfx) -> (v: u128)
    requires
        rm.wf(),
    ensures
        (final(m)@, v) == old(m)@.rm_format(*rm, p),
{
    proof {
        reveal(State::rm_format);
    }
    match p {
        Pfx::Plain | Pfx::P66 => rm128(m, rm),
        Pfx::F3 => rm32(m, rm) as u128,
        Pfx::F2 => rm64(m, rm) as u128,
    }
}

fn sse_float(m: &mut Machine, d: &Decoder, op: Arith)
    requires
        d.wf(),
    ensures
        final(m)@ == old(m)@.sse_float(*d, op),
{
    proof {
        reveal(State::sse_float);
    }
    let p = pfx(d);
    let (reg, rm) = modrm(m, d);
    let b: u128 = rm_format(m, &rm, p);
    let a: u128 = m.cpu.xmm[reg];
    ask(m, FloatOp::Lanes { op, format: format_of(p) }, a, b, target_of(p, reg));
}

fn sse_from_int(m: &mut Machine, d: &Decoder) -> (took: bool)
    requires
        d.wf(),
    ensures
        (final(m)@, took) == old(m)@.sse_from_int(*d),
{
    proof {
        reveal(State::sse_from_int);
    }
    let p = pfx(d);
    let (reg, rm) = modrm(m, d);
    let v: u32 = direct32(m, &rm);
    if p == Pfx::F3 {
        m.cpu.set_xmm_low32(reg, int_to_single(crate::bits::signed32(v)));
        true
    } else if p == Pfx::F2 {
        m.cpu.set_xmm_low64(reg, double_of_int(crate::bits::signed32(v)));
        true
    } else {
        false
    }
}

fn sse_to_int(m: &mut Machine, d: &Decoder) -> (took: bool)
    requires
        d.wf(),
    ensures
        (final(m)@, took) == old(m)@.sse_to_int(*d),
{
    proof {
        reveal(State::sse_to_int);
    }
    let p = pfx(d);
    let (reg, rm) = modrm(m, d);
    if p != Pfx::F3 && p != Pfx::F2 {
        return false;
    }
    let v: u64 = if p == Pfx::F3 {
        widen(rm32(m, &rm))
    } else {
        rm64(m, &rm)
    };
    m.cpu.set_reg32(reg, crate::bits::low32(truncate(v)));
    true
}

fn sse_convert(m: &mut Machine, d: &Decoder)
    requires
        d.wf(),
    ensures
        final(m)@ == old(m)@.sse_convert(*d),
{
    proof {
        reveal(State::sse_convert);
    }
    let p = pfx(d);
    let (reg, rm) = modrm(m, d);
    match p {
        Pfx::F3 => {
            let v: u64 = widen(rm32(m, &rm));
            m.cpu.set_xmm_low64(reg, v);
        },
        Pfx::F2 => {
            let v: u64 = rm64(m, &rm);
            m.cpu.set_xmm_low32(reg, narrow_double(v));
        },
        Pfx::Plain => {
            let v: u128 = rm128(m, &rm);
            m.cpu.xmm[reg] = vector(LaneOp::Widen, 0, v, 64, 2);
        },
        Pfx::P66 => {
            let v: u128 = rm128(m, &rm);
            m.cpu.xmm[reg] = vector(LaneOp::Narrow, 0, v, 32, 2);
        },
    }
}

fn sse_convert_ints(m: &mut Machine, d: &Decoder) -> (took: bool)
    requires
        d.wf(),
    ensures
        (final(m)@, took) == old(m)@.sse_convert_ints(*d),
{
    proof {
        reveal(State::sse_convert_ints);
    }
    let p = pfx(d);
    let (reg, rm) = modrm(m, d);
    if p == Pfx::F2 {
        return false;
    }
    let v: u128 = rm128(m, &rm);
    if p == Pfx::Plain {
        m.cpu.xmm[reg] = vector(LaneOp::FromInt, 0, v, 32, 4);
    } else {
        m.cpu.xmm[reg] = vector(LaneOp::ToInt, 0, v, 32, 4);
    }
    true
}

fn comis(c: &mut Cpu, order: FloatOrder)
    ensures
        *final(c) == old(c).after_comis(order),
{
    let un = order == FloatOrder::Unordered;
    c.set_flag(ZF, un || order == FloatOrder::Equal);
    c.set_flag(PF, un);
    c.set_flag(CF, un || order == FloatOrder::Less);
    c.set_flag(SF, false);
    c.set_flag(OF, false);
    c.set_flag(AF, false);
}

fn sse_compare(m: &mut Machine, d: &Decoder)
    requires
        d.wf(),
    ensures
        final(m)@ == old(m)@.sse_compare(*d),
{
    proof {
        reveal(State::sse_compare);
    }
    let (reg, rm) = modrm(m, d);
    let own: u128 = m.cpu.xmm[reg];
    let order = if pfx(d) == Pfx::P66 {
        order64(low_half(own), rm64(m, &rm))
    } else {
        order64(widen(low_word(own)), widen(rm32(m, &rm)))
    };
    comis(&mut m.cpu, order);
}

fn sse_test(m: &mut Machine, d: &Decoder)
    requires
        d.wf(),
    ensures
        final(m)@ == old(m)@.sse_test(*d),
{
    proof {
        reveal(State::sse_test);
    }
    let p = pfx(d);
    let (reg, rm) = modrm(m, d);
    let b: u128 = rm128(m, &rm);
    let b32: u32 = rm32(m, &rm);
    let b64: u64 = rm64(m, &rm);
    let imm: u8 = fetch8(m);
    let f = LaneOp::Test { predicate: imm % 8 };
    let a: u128 = m.cpu.xmm[reg];
    match p {
        Pfx::Plain => {
            m.cpu.xmm[reg] = vector(f, a, b, 32, 4);
        },
        Pfx::P66 => {
            m.cpu.xmm[reg] = vector(f, a, b, 64, 2);
        },
        Pfx::F3 => m.cpu.set_xmm_low32(reg, low_word(vector(f, a, b32 as u128, 32, 1))),
        Pfx::F2 => m.cpu.set_xmm_low64(reg, low_half(vector(f, a, b64 as u128, 64, 1))),
    }
}

fn sse_numbers(m: &mut Machine, d: &Decoder, op: u8) -> (took: bool)
    requires
        d.wf(),
    ensures
        (final(m)@, took) == old(m)@.sse_numbers(*d, op),
{
    proof {
        reveal(State::sse_numbers);
    }
    if let Some(f) = sse_arith(op) {
        sse_float(m, d, f);
        true
    } else if op == 0x2A {
        sse_from_int(m, d)
    } else if op == 0x2C || op == 0x2D {
        sse_to_int(m, d)
    } else if op == 0x5A {
        sse_convert(m, d);
        true
    } else if op == 0x5B {
        sse_convert_ints(m, d)
    } else if op == 0x2E || op == 0x2F {
        sse_compare(m, d);
        true
    } else if op == 0xC2 {
        sse_test(m, d);
        true
    } else {
        sse_move(m, d, op)
    }
}

/// Executes one SSE instruction, its opcode already read; `false` if there is no
/// such instruction.
pub fn step_sse(m: &mut Machine, d: &Decoder, op: u8) -> (took: bool)
    requires
        d.wf(),
    ensures
        (final(m)@, took) == old(m)@.step_sse(*d, op),
{
    proof {
        reveal(State::step_sse);
        crate::cpu::mmx::lemma_tables_fit(op, 0, 128);
    }
    let p = pfx(d);
    if let Some((f, w)) = sse_lanes(op, p) {
        sse_vector(m, d, f, w);
        true
    } else if op == 0x10 || op == 0x11 {
        sse_mov(m, d, op == 0x11);
        true
    } else if (op == 0x12 || op == 0x13 || op == 0x16 || op == 0x17) && (p == Pfx::Plain || p
        == Pfx::P66) {
        sse_half(m, d, op);
        true
    } else if op == 0xD7 && p == Pfx::P66 {
        sse_signs(m, d, 8)
    } else if op == 0x50 {
        sse_signs(
            m,
            d,
            if p == Pfx::P66 {
                64
            } else {
                32
            },
        )
    } else if op == 0x70 || (op == 0xC6 && p == Pfx::Plain) {
        sse_shuffle(m, d, op)
    } else if 0x71 <= op && op <= 0x73 && p == Pfx::P66 {
        sse_shift(m, d, op)
    } else {
        sse_numbers(m, d, op)
    }
}

fn zero_area(m: &mut Machine, a: u32)
    ensures
        final(m)@ == old(m)@.zeroed_from(a, 0),
{
    let mut k: u32 = 0;
    while k < 512
        invariant
            k <= 512,
            m@.zeroed_from(a, k as nat) == old(m)@.zeroed_from(a, 0),
        decreases 512 - k,
    {
        proof {
            reveal_with_fuel(State::zeroed_from, 2);
        }
        m.write8(a.wrapping_add(k), 0);
        k = k + 1;
    }
    proof {
        reveal_with_fuel(State::zeroed_from, 2);
    }
}

fn save_xmm(m: &mut Machine, a: u32)
    ensures
        final(m)@ == old(m)@.xmm_saved_from(a, 0),
{
    let mut k: usize = 0;
    while k < 8
        invariant
            k <= 8,
            m@.xmm_saved_from(a, k as nat) == old(m)@.xmm_saved_from(a, 0),
        decreases 8 - k,
    {
        proof {
            reveal_with_fuel(State::xmm_saved_from, 2);
        }
        let v: u128 = m.cpu.xmm[k];
        write128(m, a.wrapping_add(160 + 16 * k as u32), v);
        k = k + 1;
    }
    proof {
        reveal_with_fuel(State::xmm_saved_from, 2);
    }
}

fn load_xmm(m: &mut Machine, a: u32)
    ensures
        final(m)@ == old(m)@.xmm_loaded_from(a, 0),
{
    let mut k: usize = 0;
    while k < 8
        invariant
            k <= 8,
            m@.xmm_loaded_from(a, k as nat) == old(m)@.xmm_loaded_from(a, 0),
        decreases 8 - k,
    {
        proof {
            reveal_with_fuel(State::xmm_loaded_from, 2);
        }
        let v: u128 = read128(m, a.wrapping_add(160 + 16 * k as u32));
        m.cpu.xmm[k] = v;
        k = k + 1;
    }
    proof {
        reveal_with_fuel(State::xmm_loaded_from, 2);
    }
}

fn fxsave(m: &mut Machine, a: u32)
    ensures
        final(m)@ == old(m)@.fxsave(a),
{
    proof {
        reveal(State::fxsave);
    }
    zero_area(m, a);
    let cw: u16 = m.cpu.fpu_cw;
    let mx: u32 = m.cpu.mxcsr;
    m.write16(a, cw);
    m.write16(a.wrapping_add(2), 0);
    m.write8(a.wrapping_add(4), 0);
    m.write32(a.wrapping_add(24), mx);
    m.write32(a.wrapping_add(28), 0xFFFF);
    save_all(m, a.wrapping_add(32), 16);
    save_xmm(m, a);
}

fn fxrstor(m: &mut Machine, a: u32)
    ensures
        final(m)@ == old(m)@.fxrstor(a),
{
    proof {
        reveal(State::fxrstor);
    }
    let cw: u16 = m.read16(a);
    m.cpu.fpu_cw = cw;
    let mx: u32 = m.read32(a.wrapping_add(24));
    m.cpu.mxcsr = mx;
    restore_all(m, a.wrapping_add(32), 16);
    load_xmm(m, a);
}

/// Executes an instruction of the group `0F AE`; `false` if there is no such
/// instruction.
pub fn grp_0fae(m: &mut Machine, d: &Decoder) -> (took: bool)
    requires
        d.wf(),
    ensures
        (final(m)@, took) == old(m)@.grp_0fae(*d),
{
    proof {
        reveal(State::grp_0fae);
    }
    let (slot, rm) = modrm(m, d);
    match rm {
        Operand::Reg(_) => slot >= 5,
        Operand::Mem { addr, .. } => {
            if slot == 0 {
                fxsave(m, addr);
                true
            } else if slot == 1 {
                fxrstor(m, addr);
                true
            } else if slot == 2 {
                let v: u32 = m.read32(addr);
                m.cpu.mxcsr = v;
                true
            } else if slot == 3 {
                let v: u32 = m.cpu.mxcsr;
                m.write32(addr, v);
                true
            } else {
                false
            }
        },
    }
}

} // verus!
