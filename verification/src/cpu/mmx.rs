//! MMX: vectors of 64 bits in the significands of the FPU registers.
//!
//! These are the instructions without a prefix; with one, the same opcodes work on
//! the registers of SSE. Every MMX instruction but EMMS puts the FPU stack at its
//! start with all registers in use.

use vstd::prelude::*;
use crate::cpu::fpu::{read64, write64};
use crate::cpu::operand::{
    direct16, direct32, fetch8, modrm, segment_of, set_direct32, Decoder, Operand,
};
use crate::cpu::sse::{pfx, Pfx};
use crate::cpu::state::{DI, DS};
use crate::cpu::vector::{lane, signs, vector, LaneOp};
use crate::machine::{Machine, State};

verus! {

/// The operation and lane width of the opcodes that combine two vectors in the same
/// way in MMX and SSE.
#[verifier::allow_in_spec]
pub fn shared_lanes(op: u8) -> Option<(LaneOp, u32)>
    returns
        (if op == 0x60 {
            Some((LaneOp::UnpackLow, 8u32))
        } else if op == 0x61 {
            Some((LaneOp::UnpackLow, 16u32))
        } else if op == 0x62 {
            Some((LaneOp::UnpackLow, 32u32))
        } else if op == 0x63 {
            Some((LaneOp::PackSigned, 8u32))
        } else if op == 0x64 {
            Some((LaneOp::Greater, 8u32))
        } else if op == 0x65 {
            Some((LaneOp::Greater, 16u32))
        } else if op == 0x66 {
            Some((LaneOp::Greater, 32u32))
        } else if op == 0x67 {
            Some((LaneOp::PackUnsigned, 8u32))
        } else if op == 0x68 {
            Some((LaneOp::UnpackHigh, 8u32))
        } else if op == 0x69 {
            Some((LaneOp::UnpackHigh, 16u32))
        } else if op == 0x6A {
            Some((LaneOp::UnpackHigh, 32u32))
        } else if op == 0x6B {
            Some((LaneOp::PackSigned, 16u32))
        } else if op == 0x74 {
            Some((LaneOp::Equal, 8u32))
        } else if op == 0x75 {
            Some((LaneOp::Equal, 16u32))
        } else if op == 0x76 {
            Some((LaneOp::Equal, 32u32))
        } else if op == 0xD1 {
            Some((LaneOp::ShiftRight, 16u32))
        } else if op == 0xD2 {
            Some((LaneOp::ShiftRight, 32u32))
        } else if op == 0xD3 {
            Some((LaneOp::ShiftRight, 64u32))
        } else if op == 0xD4 {
            Some((LaneOp::Add, 64u32))
        } else if op == 0xD8 {
            Some((LaneOp::SubUnsigned, 8u32))
        } else if op == 0xDA {
            Some((LaneOp::MinUnsigned, 8u32))
        } else if op == 0xDB {
            Some((LaneOp::And, 64u32))
        } else if op == 0xDC {
            Some((LaneOp::AddUnsigned, 8u32))
        } else if op == 0xDE {
            Some((LaneOp::MaxUnsigned, 8u32))
        } else if op == 0xDF {
            Some((LaneOp::AndNot, 64u32))
        } else if op == 0xEB {
            Some((LaneOp::Or, 64u32))
        } else if op == 0xEF {
            Some((LaneOp::Xor, 64u32))
        } else if op == 0xF1 {
            Some((LaneOp::ShiftLeft, 16u32))
        } else if op == 0xF2 {
            Some((LaneOp::ShiftLeft, 32u32))
        } else if op == 0xF3 {
            Some((LaneOp::ShiftLeft, 64u32))
        } else if op == 0xF6 {
            Some((LaneOp::SumDifferences, 64u32))
        } else if op == 0xF8 {
            Some((LaneOp::Sub, 8u32))
        } else if op == 0xF9 {
            Some((LaneOp::Sub, 16u32))
        } else if op == 0xFA {
            Some((LaneOp::Sub, 32u32))
        } else if op == 0xFB {
            Some((LaneOp::Sub, 64u32))
        } else if op == 0xFC {
            Some((LaneOp::Add, 8u32))
        } else if op == 0xFD {
            Some((LaneOp::Add, 16u32))
        } else if op == 0xFE {
            Some((LaneOp::Add, 32u32))
        } else {
            None
        }),
{
    if op == 0x60 {
        Some((LaneOp::UnpackLow, 8))
    } else if op == 0x61 {
        Some((LaneOp::UnpackLow, 16))
    } else if op == 0x62 {
        Some((LaneOp::UnpackLow, 32))
    } else if op == 0x63 {
        Some((LaneOp::PackSigned, 8))
    } else if op == 0x64 {
        Some((LaneOp::Greater, 8))
    } else if op == 0x65 {
        Some((LaneOp::Greater, 16))
    } else if op == 0x66 {
        Some((LaneOp::Greater, 32))
    } else if op == 0x67 {
        Some((LaneOp::PackUnsigned, 8))
    } else if op == 0x68 {
        Some((LaneOp::UnpackHigh, 8))
    } else if op == 0x69 {
        Some((LaneOp::UnpackHigh, 16))
    } else if op == 0x6A {
        Some((LaneOp::UnpackHigh, 32))
    } else if op == 0x6B {
        Some((LaneOp::PackSigned, 16))
    } else if op == 0x74 {
        Some((LaneOp::Equal, 8))
    } else if op == 0x75 {
        Some((LaneOp::Equal, 16))
    } else if op == 0x76 {
        Some((LaneOp::Equal, 32))
    } else if op == 0xD1 {
        Some((LaneOp::ShiftRight, 16))
    } else if op == 0xD2 {
        Some((LaneOp::ShiftRight, 32))
    } else if op == 0xD3 {
        Some((LaneOp::ShiftRight, 64))
    } else if op == 0xD4 {
        Some((LaneOp::Add, 64))
    } else if op == 0xD8 {
        Some((LaneOp::SubUnsigned, 8))
    } else if op == 0xDA {
        Some((LaneOp::MinUnsigned, 8))
    } else if op == 0xDB {
        Some((LaneOp::And, 64))
    } else if op == 0xDC {
        Some((LaneOp::AddUnsigned, 8))
    } else if op == 0xDE {
        Some((LaneOp::MaxUnsigned, 8))
    } else if op == 0xDF {
        Some((LaneOp::AndNot, 64))
    } else if op == 0xEB {
        Some((LaneOp::Or, 64))
    } else if op == 0xEF {
        Some((LaneOp::Xor, 64))
    } else if op == 0xF1 {
        Some((LaneOp::ShiftLeft, 16))
    } else if op == 0xF2 {
        Some((LaneOp::ShiftLeft, 32))
    } else if op == 0xF3 {
        Some((LaneOp::ShiftLeft, 64))
    } else if op == 0xF6 {
        Some((LaneOp::SumDifferences, 64))
    } else if op == 0xF8 {
        Some((LaneOp::Sub, 8))
    } else if op == 0xF9 {
        Some((LaneOp::Sub, 16))
    } else if op == 0xFA {
        Some((LaneOp::Sub, 32))
    } else if op == 0xFB {
        Some((LaneOp::Sub, 64))
    } else if op == 0xFC {
        Some((LaneOp::Add, 8))
    } else if op == 0xFD {
        Some((LaneOp::Add, 16))
    } else if op == 0xFE {
        Some((LaneOp::Add, 32))
    } else {
        None
    }
}

/// The operations that only MMX has.
#[verifier::allow_in_spec]
pub fn mmx_only_lanes(op: u8) -> Option<(LaneOp, u32)>
    returns
        (if op == 0xD5 {
            Some((LaneOp::MulLow, 16u32))
        } else if op == 0xD9 {
            Some((LaneOp::SubUnsigned, 16u32))
        } else if op == 0xDD {
            Some((LaneOp::AddUnsigned, 16u32))
        } else if op == 0xE0 {
            Some((LaneOp::Average, 8u32))
        } else if op == 0xE1 {
            Some((LaneOp::ShiftRightSigned, 16u32))
        } else if op == 0xE2 {
            Some((LaneOp::ShiftRightSigned, 32u32))
        } else if op == 0xE3 {
            Some((LaneOp::Average, 16u32))
        } else if op == 0xE4 {
            Some((LaneOp::MulHighUnsigned, 16u32))
        } else if op == 0xE5 {
            Some((LaneOp::MulHighSigned, 16u32))
        } else if op == 0xE8 {
            Some((LaneOp::SubSigned, 8u32))
        } else if op == 0xE9 {
            Some((LaneOp::SubSigned, 16u32))
        } else if op == 0xEA {
            Some((LaneOp::MinSigned, 16u32))
        } else if op == 0xEC {
            Some((LaneOp::AddSigned, 8u32))
        } else if op == 0xED {
            Some((LaneOp::AddSigned, 16u32))
        } else if op == 0xEE {
            Some((LaneOp::MaxSigned, 16u32))
        } else if op == 0xF4 {
            Some((LaneOp::MulWide, 64u32))
        } else if op == 0xF5 {
            Some((LaneOp::MulAdd, 32u32))
        } else {
            None
        }),
{
    if op == 0xD5 {
        Some((LaneOp::MulLow, 16))
    } else if op == 0xD9 {
        Some((LaneOp::SubUnsigned, 16))
    } else if op == 0xDD {
        Some((LaneOp::AddUnsigned, 16))
    } else if op == 0xE0 {
        Some((LaneOp::Average, 8))
    } else if op == 0xE1 {
        Some((LaneOp::ShiftRightSigned, 16))
    } else if op == 0xE2 {
        Some((LaneOp::ShiftRightSigned, 32))
    } else if op == 0xE3 {
        Some((LaneOp::Average, 16))
    } else if op == 0xE4 {
        Some((LaneOp::MulHighUnsigned, 16))
    } else if op == 0xE5 {
        Some((LaneOp::MulHighSigned, 16))
    } else if op == 0xE8 {
        Some((LaneOp::SubSigned, 8))
    } else if op == 0xE9 {
        Some((LaneOp::SubSigned, 16))
    } else if op == 0xEA {
        Some((LaneOp::MinSigned, 16))
    } else if op == 0xEC {
        Some((LaneOp::AddSigned, 8))
    } else if op == 0xED {
        Some((LaneOp::AddSigned, 16))
    } else if op == 0xEE {
        Some((LaneOp::MaxSigned, 16))
    } else if op == 0xF4 {
        Some((LaneOp::MulWide, 64))
    } else if op == 0xF5 {
        Some((LaneOp::MulAdd, 32))
    } else {
        None
    }
}

/// The shifts by an immediate: opcode and the register field of ModRM.
#[verifier::allow_in_spec]
pub fn immediate_shift(op: u8, slot: usize) -> Option<(LaneOp, u32)>
    returns
        (if op == 0x71 && slot == 2 {
            Some((LaneOp::ShiftRight, 16u32))
        } else if op == 0x71 && slot == 4 {
            Some((LaneOp::ShiftRightSigned, 16u32))
        } else if op == 0x71 && slot == 6 {
            Some((LaneOp::ShiftLeft, 16u32))
        } else if op == 0x72 && slot == 2 {
            Some((LaneOp::ShiftRight, 32u32))
        } else if op == 0x72 && slot == 4 {
            Some((LaneOp::ShiftRightSigned, 32u32))
        } else if op == 0x72 && slot == 6 {
            Some((LaneOp::ShiftLeft, 32u32))
        } else if op == 0x73 && slot == 2 {
            Some((LaneOp::ShiftRight, 64u32))
        } else if op == 0x73 && slot == 6 {
            Some((LaneOp::ShiftLeft, 64u32))
        } else {
            None
        }),
{
    if op == 0x71 && slot == 2 {
        Some((LaneOp::ShiftRight, 16))
    } else if op == 0x71 && slot == 4 {
        Some((LaneOp::ShiftRightSigned, 16))
    } else if op == 0x71 && slot == 6 {
        Some((LaneOp::ShiftLeft, 16))
    } else if op == 0x72 && slot == 2 {
        Some((LaneOp::ShiftRight, 32))
    } else if op == 0x72 && slot == 4 {
        Some((LaneOp::ShiftRightSigned, 32))
    } else if op == 0x72 && slot == 6 {
        Some((LaneOp::ShiftLeft, 32))
    } else if op == 0x73 && slot == 2 {
        Some((LaneOp::ShiftRight, 64))
    } else if op == 0x73 && slot == 6 {
        Some((LaneOp::ShiftLeft, 64))
    } else {
        None
    }
}

/// How many lanes a register of so many bits has.
#[verifier::allow_in_spec]
pub fn lane_count(bits: u32, w: u32) -> u32
    returns
        (if w == 8 {
            (bits / 8) as u32
        } else if w == 16 {
            (bits / 16) as u32
        } else if w == 32 {
            (bits / 32) as u32
        } else {
            (bits / 64) as u32
        }),
{
    if w == 8 {
        bits / 8
    } else if w == 16 {
        bits / 16
    } else if w == 32 {
        bits / 32
    } else {
        bits / 64
    }
}

proof fn lemma_count(bits: u32, w: u32)
    requires
        bits == 64 || bits == 128,
        w == 8 || w == 16 || w == 32 || w == 64,
    ensures
        lane_count(bits, w) * w == bits,
        lane_count(bits, w) <= 16,
{
    if w == 8 {
    } else if w == 16 {
    } else if w == 32 {
    } else {
    }
}

/// The operations of the tables work on the lanes that the tables say.
pub proof fn lemma_tables_fit(op: u8, slot: usize, bits: u32)
    requires
        bits == 64 || bits == 128,
    ensures
        shared_lanes(op) matches Some(p) ==> crate::cpu::vector::fits(
            p.0,
            p.1,
            lane_count(bits, p.1),
        ),
        mmx_only_lanes(op) matches Some(p) ==> crate::cpu::vector::fits(
            p.0,
            p.1,
            lane_count(bits, p.1),
        ),
        immediate_shift(op, slot) matches Some(p) ==> crate::cpu::vector::fits(
            p.0,
            p.1,
            lane_count(bits, p.1),
        ),
{
    lemma_count(bits, 8);
    lemma_count(bits, 16);
    lemma_count(bits, 32);
    lemma_count(bits, 64);
}

/// The low half of a vector.
#[verifier::allow_in_spec]
pub fn low_half(v: u128) -> u64
    returns
        (v % 0x1_0000_0000_0000_0000) as u64,
{
    (v % 0x1_0000_0000_0000_0000) as u64
}

/// What an operation gives on vectors of 64 bits.
pub open spec fn mmx_result(op: LaneOp, w: u32, a: u64, b: u64) -> u64 {
    low_half(crate::cpu::vector::lanes(op, a as u128, b as u128, w, lane_count(64, w)))
}

impl State {
    pub open spec fn with_mm(self, r: usize, v: u64) -> State {
        self.with_fpu(self.cpu.fpu.with_mm(r, v))
    }

    pub open spec fn mmx_done(self) -> (State, bool) {
        (self.with_fpu(self.cpu.fpu.mmx_touched()), true)
    }

    /// A source operand of 64 bits.
    #[verifier::opaque]
    pub open spec fn read_mm(self, rm: Operand) -> (State, u64) {
        match rm {
            Operand::Reg(r) => (self, self.cpu.fpu.mm_value(r)),
            Operand::Mem { addr, .. } => self.read64(addr),
        }
    }

    /// Bytes `k` to 7 of a vector to memory, where a mask says so.
    #[verifier::opaque]
    pub open spec fn masked_store(
        self,
        data: u64,
        mask: u64,
        seg: usize,
        off: u32,
        k: nat,
    ) -> State
        decreases 8 - k,
    {
        if k >= 8 {
            self
        } else {
            let s = if lane(mask as u128, k as u32, 8) >= 0x80 {
                self.write8(
                    self.cpu.lin(seg, off.wrapping_add(k as u32)),
                    lane(data as u128, k as u32, 8) as u8,
                )
            } else {
                self
            };
            s.masked_store(data, mask, seg, off, k + 1)
        }
    }

    /// An operation on the destination and the source.
    #[verifier::opaque]
    pub open spec fn mmx_lanes(self, d: Decoder, op: LaneOp, w: u32) -> (State, bool) {
        let (s, reg, rm) = self.modrm(d);
        let (t, b) = s.read_mm(rm);
        t.with_mm(reg, mmx_result(op, w, t.cpu.fpu.mm_value(reg), b)).mmx_done()
    }

    /// The moves.
    #[verifier::opaque]
    pub open spec fn mmx_move(self, d: Decoder, op: u8) -> (State, bool) {
        let (s, reg, rm) = self.modrm(d);
        let own = s.cpu.fpu.mm_value(reg);
        if op == 0x6E {
            let (t, v) = s.direct32(rm);
            t.with_mm(reg, v as u64).mmx_done()
        } else if op == 0x7E {
            s.with_direct32(rm, (own % 0x1_0000_0000) as u32).mmx_done()
        } else if op == 0x6F {
            let (t, v) = s.read_mm(rm);
            t.with_mm(reg, v).mmx_done()
        } else {
            match rm {
                Operand::Reg(r) => if op == 0x7F {
                    s.with_mm(r, own).mmx_done()
                } else {
                    (s, false)
                },
                Operand::Mem { addr, .. } => s.write64(addr, own).mmx_done(),
            }
        }
    }

    /// What takes an immediate: insertion, extraction, shuffle and shifts.
    #[verifier::opaque]
    pub open spec fn mmx_immediate(self, d: Decoder, op: u8) -> (State, bool) {
        let (s, reg, rm) = self.modrm(d);
        if op == 0xC4 {
            let (t, v) = s.direct16(rm);
            let (u, imm) = t.fetch8();
            u.with_mm(
                reg,
                mmx_result(
                    LaneOp::Insert { at: (imm % 4) as u8, value: v },
                    16,
                    u.cpu.fpu.mm_value(reg),
                    0,
                ),
            ).mmx_done()
        } else if op == 0xC5 {
            match rm {
                Operand::Mem { .. } => (s, false),
                Operand::Reg(r) => {
                    let (t, imm) = s.fetch8();
                    t.with_cpu(
                        t.cpu.with_reg(
                            reg,
                            lane(t.cpu.fpu.mm_value(r) as u128, (imm % 4) as u32, 16) as u32,
                        ),
                    ).mmx_done()
                },
            }
        } else if op == 0x70 {
            let (t, v) = s.read_mm(rm);
            let (u, imm) = t.fetch8();
            u.with_mm(reg, mmx_result(LaneOp::Shuffle { sel: imm }, 16, 0, v)).mmx_done()
        } else {
            let (t, n) = s.fetch8();
            match (rm, immediate_shift(op, reg)) {
                (Operand::Reg(r), Some((f, w))) => t.with_mm(
                    r,
                    mmx_result(f, w, t.cpu.fpu.mm_value(r), n as u64),
                ).mmx_done(),
                _ => (t, false),
            }
        }
    }

    /// Sign bits to a register, and the store under a mask.
    #[verifier::opaque]
    pub open spec fn mmx_mask(self, d: Decoder, op: u8) -> (State, bool) {
        let (s, reg, rm) = self.modrm(d);
        match rm {
            Operand::Mem { .. } => (s, false),
            Operand::Reg(r) => {
                let v = s.cpu.fpu.mm_value(r);
                if op == 0xD7 {
                    s.with_cpu(
                        s.cpu.with_reg(
                            reg,
                            crate::cpu::vector::signs_upto(v as u128, 8, 8),
                        ),
                    ).mmx_done()
                } else {
                    s.masked_store(
                        s.cpu.fpu.mm_value(reg),
                        v,
                        segment_of(&d, DS),
                        s.cpu.regs[DI as int],
                        0,
                    ).mmx_done()
                }
            },
        }
    }

    /// One MMX instruction, and whether the opcode was one.
    #[verifier::opaque]
    pub open spec fn step_mmx(self, d: Decoder, op: u8) -> (State, bool) {
        if !self.profile.has_fpu || pfx(&d) != Pfx::Plain {
            (self, false)
        } else if let Some((f, w)) = shared_lanes(op) {
            self.mmx_lanes(d, f, w)
        } else if let Some((f, w)) = mmx_only_lanes(op) {
            self.mmx_lanes(d, f, w)
        } else if op == 0x6E || op == 0x7E || op == 0x6F || op == 0x7F || op == 0xE7 {
            self.mmx_move(d, op)
        } else if op == 0xC4 || op == 0xC5 || 0x70 <= op <= 0x73 {
            self.mmx_immediate(d, op)
        } else if op == 0xD7 || op == 0xF7 {
            self.mmx_mask(d, op)
        } else if op == 0x77 {
            (self.with_fpu(crate::cpu::fpu::Fpu { empty: 0xFF, ..self.cpu.fpu }), true)
        } else {
            (self, false)
        }
    }
}

fn read_mm(m: &mut Machine, rm: &Operand) -> (v: u64)
    requires
        rm.wf(),
    ensures
        (final(m)@, v) == old(m)@.read_mm(*rm),
{
    proof {
        reveal(State::read_mm);
    }
    match *rm {
        Operand::Reg(r) => m.cpu.fpu.mm(r),
        Operand::Mem { addr, .. } => read64(m, addr),
    }
}

fn result(op: LaneOp, w: u32, a: u64, b: u64) -> (r: u64)
    requires
        crate::cpu::vector::fits(op, w, lane_count(64, w)),
    ensures
        r == mmx_result(op, w, a, b),
{
    low_half(vector(op, a as u128, b as u128, w, lane_count(64, w)))
}

fn mmx_lanes(m: &mut Machine, d: &Decoder, op: LaneOp, w: u32) -> (took: bool)
    requires
        d.wf(),
        crate::cpu::vector::fits(op, w, lane_count(64, w)),
    ensures
        (final(m)@, took) == old(m)@.mmx_lanes(*d, op, w),
{
    proof {
        reveal(State::mmx_lanes);
    }
    let (reg, rm) = modrm(m, d);
    let b: u64 = read_mm(m, &rm);
    let v: u64 = result(op, w, m.cpu.fpu.mm(reg), b);
    m.cpu.fpu.set_mm(reg, v);
    m.cpu.fpu.mmx_touch();
    true
}

fn masked_store(m: &mut Machine, data: u64, mask: u64, seg: usize, off: u32)
    requires
        seg < 6,
    ensures
        final(m)@ == old(m)@.masked_store(data, mask, seg, off, 0),
{
    let mut k: u32 = 0;
    while k < 8
        invariant
            seg < 6,
            k <= 8,
            m@.masked_store(data, mask, seg, off, k as nat) == old(m)@.masked_store(
                data,
                mask,
                seg,
                off,
                0,
            ),
        decreases 8 - k,
    {
        proof {
            reveal_with_fuel(State::masked_store, 2);
        }
        if lane(mask as u128, k, 8) >= 0x80 {
            let a: u32 = m.cpu.lin(seg, off.wrapping_add(k));
            m.write8(a, lane(data as u128, k, 8) as u8);
        }
        k = k + 1;
    }
    proof {
        reveal_with_fuel(State::masked_store, 2);
    }
}

fn mmx_move(m: &mut Machine, d: &Decoder, op: u8) -> (took: bool)
    requires
        d.wf(),
    ensures
        (final(m)@, took) == old(m)@.mmx_move(*d, op),
{
    proof {
        reveal(State::mmx_move);
    }
    let (reg, rm) = modrm(m, d);
    let own: u64 = m.cpu.fpu.mm(reg);
    if op == 0x6E {
        let v: u32 = direct32(m, &rm);
        m.cpu.fpu.set_mm(reg, v as u64);
    } else if op == 0x7E {
        set_direct32(m, &rm, (own % 0x1_0000_0000) as u32);
    } else if op == 0x6F {
        let v: u64 = read_mm(m, &rm);
        m.cpu.fpu.set_mm(reg, v);
    } else {
        match rm {
            Operand::Reg(r) => {
                if op != 0x7F {
                    return false;
                }
                m.cpu.fpu.set_mm(r, own);
            },
            Operand::Mem { addr, .. } => write64(m, addr, own),
        }
    }
    m.cpu.fpu.mmx_touch();
    true
}

fn mmx_immediate(m: &mut Machine, d: &Decoder, op: u8) -> (took: bool)
    requires
        d.wf(),
    ensures
        (final(m)@, took) == old(m)@.mmx_immediate(*d, op),
{
    proof {
        reveal(State::mmx_immediate);
    }
    let (reg, rm) = modrm(m, d);
    if op == 0xC4 {
        let v: u16 = direct16(m, &rm);
        let imm: u8 = fetch8(m);
        let x: u64 = result(
            LaneOp::Insert { at: imm % 4, value: v },
            16,
            m.cpu.fpu.mm(reg),
            0,
        );
        m.cpu.fpu.set_mm(reg, x);
    } else if op == 0xC5 {
        match rm {
            Operand::Mem { .. } => {
                return false;
            },
            Operand::Reg(r) => {
                let imm: u8 = fetch8(m);
                let v: u32 = lane(m.cpu.fpu.mm(r) as u128, (imm % 4) as u32, 16) as u32;
                m.cpu.set_reg32(reg, v);
            },
        }
    } else if op == 0x70 {
        let v: u64 = read_mm(m, &rm);
        let imm: u8 = fetch8(m);
        let x: u64 = result(LaneOp::Shuffle { sel: imm }, 16, 0, v);
        m.cpu.fpu.set_mm(reg, x);
    } else {
        let n: u8 = fetch8(m);
        proof {
            lemma_tables_fit(op, reg, 64);
        }
        match (rm, immediate_shift(op, reg)) {
            (Operand::Reg(r), Some((f, w))) => {
                let x: u64 = result(f, w, m.cpu.fpu.mm(r), n as u64);
                m.cpu.fpu.set_mm(r, x);
            },
            _ => {
                return false;
            },
        }
    }
    m.cpu.fpu.mmx_touch();
    true
}

fn mmx_mask(m: &mut Machine, d: &Decoder, op: u8) -> (took: bool)
    requires
        d.wf(),
    ensures
        (final(m)@, took) == old(m)@.mmx_mask(*d, op),
{
    proof {
        reveal(State::mmx_mask);
    }
    let (reg, rm) = modrm(m, d);
    match rm {
        Operand::Mem { .. } => {
            return false;
        },
        Operand::Reg(r) => {
            let v: u64 = m.cpu.fpu.mm(r);
            if op == 0xD7 {
                m.cpu.set_reg32(reg, signs(v as u128, 8, 8));
            } else {
                let data: u64 = m.cpu.fpu.mm(reg);
                let off: u32 = m.cpu.regs[DI];
                masked_store(m, data, v, segment_of(d, DS), off);
            }
        },
    }
    m.cpu.fpu.mmx_touch();
    true
}

/// Executes one MMX instruction, its opcode already read; `false` if there is no
/// such instruction.
pub fn step_mmx(m: &mut Machine, d: &Decoder, op: u8) -> (took: bool)
    requires
        d.wf(),
    ensures
        (final(m)@, took) == old(m)@.step_mmx(*d, op),
{
    proof {
        reveal(State::step_mmx);
        lemma_tables_fit(op, 0, 64);
    }
    if !m.profile.has_fpu || pfx(d) != Pfx::Plain {
        return false;
    }
    if let Some((f, w)) = shared_lanes(op) {
        mmx_lanes(m, d, f, w)
    } else if let Some((f, w)) = mmx_only_lanes(op) {
        mmx_lanes(m, d, f, w)
    } else if op == 0x6E || op == 0x7E || op == 0x6F || op == 0x7F || op == 0xE7 {
        mmx_move(m, d, op)
    } else if op == 0xC4 || op == 0xC5 || (0x70 <= op && op <= 0x73) {
        mmx_immediate(m, d, op)
    } else if op == 0xD7 || op == 0xF7 {
        mmx_mask(m, d, op)
    } else if op == 0x77 {
        m.cpu.fpu.emms();
        true
    } else {
        false
    }
}

} // verus!
