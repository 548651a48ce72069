//! Decoding without any effect: bytes of physical memory to a [`Uop`].
//!
//! Addresses are not resolved; an operand says how its address is made. Only the
//! bytes up to the end of the page are looked at, and sixteen of them at the most.

use vstd::prelude::*;
use crate::cpu::dcache::{MemRef, Rm, Uop};
use crate::cpu::operand::sext8_32;
use crate::machine::{le16, le32, Machine};

verus! {

/// How many bytes of code can be seen from an address on.
pub open spec fn window(mem: Seq<u8>, pa: u32) -> int {
    let page = 0x1000 - pa % 0x1000;
    let seen = if page < 16 { page } else { 16 };
    if pa >= mem.len() {
        0
    } else if mem.len() - pa < seen {
        mem.len() - pa
    } else {
        seen
    }
}

/// Byte `i` of the code at an address.
pub open spec fn code(mem: Seq<u8>, pa: u32, i: int) -> Option<u8> {
    if 0 <= i < window(mem, pa) {
        Some(mem[pa + i])
    } else {
        None
    }
}

/// The doubleword at byte `i`.
pub open spec fn code32(mem: Seq<u8>, pa: u32, i: int) -> Option<u32> {
    match (code(mem, pa, i), code(mem, pa, i + 1), code(mem, pa, i + 2), code(mem, pa, i + 3)) {
        (Some(a), Some(b), Some(c), Some(d)) => Some(le32(le16(a, b), le16(c, d))),
        _ => None,
    }
}

/// What the prefixes said.
#[derive(Clone, Copy, Debug, PartialEq, Eq, Structural)]
pub struct Prefixes {
    pub seg: Option<u8>,
    pub o16: bool,
    pub rep: Option<u8>,
}

/// The segment register that a prefix names.
#[verifier::allow_in_spec]
pub fn segment_prefix(x: u8) -> Option<u8>
    returns
        (if x == 0x26 {
            Some(0u8)
        } else if x == 0x2E {
            Some(1u8)
        } else if x == 0x36 {
            Some(2u8)
        } else if x == 0x3E {
            Some(3u8)
        } else if x == 0x64 {
            Some(4u8)
        } else if x == 0x65 {
            Some(5u8)
        } else {
            None
        }),
{
    if x == 0x26 {
        Some(0u8)
    } else if x == 0x2E {
        Some(1u8)
    } else if x == 0x36 {
        Some(2u8)
    } else if x == 0x3E {
        Some(3u8)
    } else if x == 0x64 {
        Some(4u8)
    } else if x == 0x65 {
        Some(5u8)
    } else {
        None
    }
}

/// What a prefix byte adds; nothing for a byte that is no prefix that can be cached.
#[verifier::allow_in_spec]
pub fn prefix_added(p: Prefixes, x: u8) -> Option<Prefixes>
    returns
        (if x == 0x66 {
            Some(Prefixes { o16: true, ..p })
        } else if x == 0xF2 || x == 0xF3 {
            Some(Prefixes { rep: Some(x), ..p })
        } else {
            match segment_prefix(x) {
                Some(s) => Some(Prefixes { seg: Some(s), ..p }),
                None => None,
            }
        }),
{
    if x == 0x66 {
        Some(Prefixes { o16: true, ..p })
    } else if x == 0xF2 || x == 0xF3 {
        Some(Prefixes { rep: Some(x), ..p })
    } else {
        match segment_prefix(x) {
            Some(s) => Some(Prefixes { seg: Some(s), ..p }),
            None => None,
        }
    }
}

/// The string instructions that can be cached.
#[verifier::allow_in_spec]
pub fn is_string(op: u8) -> bool
    returns
        ((0xA4 <= op && op <= 0xA7) || (0xAA <= op && op <= 0xAF)),
{
    (0xA4 <= op && op <= 0xA7) || (0xAA <= op && op <= 0xAF)
}

/// Whether an opcode has a ModRM byte.
#[verifier::allow_in_spec]
pub fn has_modrm(two: bool, op: u8) -> bool
    returns
        (if two {
            (0x90 <= op && op <= 0x9F) || op == 0xAF || op == 0xB6 || op == 0xB7
        } else {
            (op < 0x40 && op % 8 <= 3) || op == 0x80 || op == 0x81 || op == 0x83 || op == 0x84 || op
                == 0x85 || (0x88 <= op && op <= 0x8B) || op == 0x8D || op == 0xC1 || op == 0xD1 || op
                == 0xD3 || op == 0xC6 || op == 0xC7 || op == 0xF6 || op == 0xF7 || op == 0xFF
        }),
{
    if two {
        (0x90 <= op && op <= 0x9F) || op == 0xAF || op == 0xB6 || op == 0xB7
    } else {
        (op < 0x40 && op % 8 <= 3) || op == 0x80 || op == 0x81 || op == 0x83 || op == 0x84 || op
            == 0x85 || (0x88 <= op && op <= 0x8B) || op == 0x8D || op == 0xC1 || op == 0xD1 || op
            == 0xD3 || op == 0xC6 || op == 0xC7 || op == 0xF6 || op == 0xF7 || op == 0xFF
    }
}

/// Bytes of the immediate of an opcode, given the register field of its ModRM byte.
#[verifier::allow_in_spec]
pub fn imm_size(two: bool, op: u8, reg: u8) -> u8
    returns
        (if two {
            if 0x80 <= op && op <= 0x8F {
                4u8
            } else {
                0u8
            }
        } else if (op < 0x40 && op % 8 == 4) || op == 0x6A || (0x70 <= op && op <= 0x7F) || op == 0x80 || op
            == 0x83 || op == 0xC1 || op == 0xC6 || op == 0xEB || (op == 0xF6 && reg <= 1) {
            1u8
        } else if (op < 0x40 && op % 8 == 5) || op == 0x68 || op == 0x81 || (0xA0 <= op && op <= 0xA3) || (
        0xB8 <= op && op <= 0xBF) || op == 0xC7 || op == 0xE8 || op == 0xE9 || (op == 0xF7 && reg <= 1) {
            4u8
        } else {
            0u8
        }),
{
    if two {
        if 0x80 <= op && op <= 0x8F {
            4u8
        } else {
            0u8
        }
    } else if (op < 0x40 && op % 8 == 4) || op == 0x6A || (0x70 <= op && op <= 0x7F) || op == 0x80 || op
        == 0x83 || op == 0xC1 || op == 0xC6 || op == 0xEB || (op == 0xF6 && reg <= 1) {
        1u8
    } else if (op < 0x40 && op % 8 == 5) || op == 0x68 || op == 0x81 || (0xA0 <= op && op <= 0xA3) || (
    0xB8 <= op && op <= 0xBF) || op == 0xC7 || op == 0xE8 || op == 0xE9 || (op == 0xF7 && reg <= 1) {
        4u8
    } else {
        0u8
    }
}

/// The data segment that the prefixes choose.
#[verifier::allow_in_spec]
pub fn data_segment(seg: Option<u8>) -> u8
    returns
        (match seg {
            Some(s) => s,
            None => 3u8,
        }),
{
    match seg {
        Some(s) => s,
        None => 3u8,
    }
}

/// The segment that the prefixes name; -1 for none.
#[verifier::allow_in_spec]
pub fn named_segment(seg: Option<u8>) -> i8
    returns
        (match seg {
            Some(s) => s as i8,
            None => -1i8,
        }),
{
    match seg {
        Some(s) => s as i8,
        None => -1i8,
    }
}

/// The last opcodes of the one-byte table.
#[verifier::allow_in_spec]
pub fn build_late(op: u8, reg: u8, rm: Rm, imm: u32) -> Option<Uop>
    returns
        (if op == 0xC1 {
            Some(Uop::ShiftRmImm { kind: reg, rm, count: imm as u8 })
        } else if op == 0xD1 {
            Some(Uop::ShiftRmImm { kind: reg, rm, count: 1 })
        } else if op == 0xD3 {
            Some(Uop::ShiftRmCl { kind: reg, rm })
        } else if op == 0xC3 {
            Some(Uop::Ret)
        } else if op == 0xC6 {
            Some(Uop::MovRm8Imm { rm, imm: imm as u8 })
        } else if op == 0xC7 {
            Some(Uop::MovRmImm { rm, imm })
        } else if op == 0xC9 {
            Some(Uop::Leave)
        } else if op == 0xF6 && reg <= 3 {
            Some(Uop::Grp3b { kind: reg, rm, imm: imm as u8 })
        } else if op == 0xF7 && reg <= 3 {
            Some(Uop::Grp3w { kind: reg, rm, imm })
        } else if op == 0xFF && (reg <= 2 || reg == 4 || reg == 6) {
            Some(Uop::Grp5 { kind: reg, rm })
        } else if op == 0xE8 {
            Some(Uop::CallRel { rel: imm })
        } else if op == 0xE9 {
            Some(Uop::JmpRel { rel: imm })
        } else if op == 0xEB {
            Some(Uop::JmpRel { rel: sext8_32(imm as u8) })
        } else {
            None
        }),
{
    if op == 0xC1 {
        Some(Uop::ShiftRmImm { kind: reg, rm, count: imm as u8 })
    } else if op == 0xD1 {
        Some(Uop::ShiftRmImm { kind: reg, rm, count: 1 })
    } else if op == 0xD3 {
        Some(Uop::ShiftRmCl { kind: reg, rm })
    } else if op == 0xC3 {
        Some(Uop::Ret)
    } else if op == 0xC6 {
        Some(Uop::MovRm8Imm { rm, imm: imm as u8 })
    } else if op == 0xC7 {
        Some(Uop::MovRmImm { rm, imm })
    } else if op == 0xC9 {
        Some(Uop::Leave)
    } else if op == 0xF6 && reg <= 3 {
        Some(Uop::Grp3b { kind: reg, rm, imm: imm as u8 })
    } else if op == 0xF7 && reg <= 3 {
        Some(Uop::Grp3w { kind: reg, rm, imm })
    } else if op == 0xFF && (reg <= 2 || reg == 4 || reg == 6) {
        Some(Uop::Grp5 { kind: reg, rm })
    } else if op == 0xE8 {
        Some(Uop::CallRel { rel: imm })
    } else if op == 0xE9 {
        Some(Uop::JmpRel { rel: imm })
    } else if op == 0xEB {
        Some(Uop::JmpRel { rel: sext8_32(imm as u8) })
    } else {
        None
    }
}

/// The moves, exchanges and string instructions.
#[verifier::allow_in_spec]
pub fn build_move(op: u8, reg: u8, rm: Rm, imm: u32, p: Prefixes) -> Option<Uop>
    returns
        (if op == 0x88 {
            Some(Uop::Mov8RmR { rm, reg })
        } else if op == 0x89 {
            if p.o16 {
                Some(Uop::Mov16RmR { rm, reg })
            } else {
                Some(Uop::MovRmR { rm, reg })
            }
        } else if op == 0x8A {
            Some(Uop::Mov8RRm { reg, rm })
        } else if op == 0x8B {
            if p.o16 {
                Some(Uop::Mov16RRm { reg, rm })
            } else {
                Some(Uop::MovRRm { reg, rm })
            }
        } else if op == 0x8D {
            match rm {
                Rm::Mem(mem) => Some(Uop::Lea { reg, mem }),
                Rm::Reg(_) => None,
            }
        } else if 0x90 <= op && op <= 0x97 {
            Some(Uop::XchgAR { reg: op % 8 })
        } else if op == 0xA0 || op == 0xA2 {
            Some(Uop::Mov8AMoffs { load: op == 0xA0, seg: data_segment(p.seg), off: imm })
        } else if op == 0xA1 || op == 0xA3 {
            Some(Uop::MovAMoffs { load: op == 0xA1, seg: data_segment(p.seg), off: imm })
        } else if is_string(op) {
            match p.rep {
                Some(rep) => Some(Uop::StrRep { op, seg: named_segment(p.seg), rep, o16: p.o16 }),
                None => Some(Uop::StrOne { op, seg: named_segment(p.seg), o16: p.o16 }),
            }
        } else if 0xB8 <= op && op <= 0xBF {
            Some(Uop::MovRImm { reg: op % 8, imm })
        } else {
            build_late(op, reg, rm, imm)
        }),
{
    if op == 0x88 {
        Some(Uop::Mov8RmR { rm, reg })
    } else if op == 0x89 {
        if p.o16 {
            Some(Uop::Mov16RmR { rm, reg })
        } else {
            Some(Uop::MovRmR { rm, reg })
        }
    } else if op == 0x8A {
        Some(Uop::Mov8RRm { reg, rm })
    } else if op == 0x8B {
        if p.o16 {
            Some(Uop::Mov16RRm { reg, rm })
        } else {
            Some(Uop::MovRRm { reg, rm })
        }
    } else if op == 0x8D {
        match rm {
            Rm::Mem(mem) => Some(Uop::Lea { reg, mem }),
            Rm::Reg(_) => None,
        }
    } else if 0x90 <= op && op <= 0x97 {
        Some(Uop::XchgAR { reg: op % 8 })
    } else if op == 0xA0 || op == 0xA2 {
        Some(Uop::Mov8AMoffs { load: op == 0xA0, seg: data_segment(p.seg), off: imm })
    } else if op == 0xA1 || op == 0xA3 {
        Some(Uop::MovAMoffs { load: op == 0xA1, seg: data_segment(p.seg), off: imm })
    } else if is_string(op) {
        match p.rep {
            Some(rep) => Some(Uop::StrRep { op, seg: named_segment(p.seg), rep, o16: p.o16 }),
            None => Some(Uop::StrOne { op, seg: named_segment(p.seg), o16: p.o16 }),
        }
    } else if 0xB8 <= op && op <= 0xBF {
        Some(Uop::MovRImm { reg: op % 8, imm })
    } else {
        build_late(op, reg, rm, imm)
    }
}

/// The instruction of a one-byte opcode, its operands read.
#[verifier::allow_in_spec]
pub fn build(op: u8, reg: u8, rm: Rm, imm: u32, p: Prefixes) -> Option<Uop>
    returns
        (if op < 0x40 && op % 8 == 0 {
            Some(Uop::Alu8RmR { kind: op / 8, rm, reg })
        } else if op < 0x40 && op % 8 == 1 {
            Some(Uop::AluRmR { kind: op / 8, rm, reg })
        } else if op < 0x40 && op % 8 == 2 {
            Some(Uop::Alu8RRm { kind: op / 8, reg, rm })
        } else if op < 0x40 && op % 8 == 3 {
            Some(Uop::AluRRm { kind: op / 8, reg, rm })
        } else if op < 0x40 && op % 8 == 4 {
            Some(Uop::Alu8AImm { kind: op / 8, imm: imm as u8 })
        } else if op < 0x40 && op % 8 == 5 {
            Some(Uop::AluAImm { kind: op / 8, imm })
        } else if 0x40 <= op && op <= 0x47 {
            Some(Uop::IncR { reg: op % 8 })
        } else if 0x48 <= op && op <= 0x4F {
            Some(Uop::DecR { reg: op % 8 })
        } else if 0x50 <= op && op <= 0x57 {
            Some(Uop::PushR { reg: op % 8 })
        } else if 0x58 <= op && op <= 0x5F {
            Some(Uop::PopR { reg: op % 8 })
        } else if op == 0x68 {
            Some(Uop::PushImm { imm })
        } else if op == 0x6A {
            Some(Uop::PushImm { imm: sext8_32(imm as u8) })
        } else if 0x70 <= op && op <= 0x7F {
            Some(Uop::Jcc { cc: op % 16, rel: sext8_32(imm as u8) })
        } else if op == 0x80 {
            Some(Uop::Grp18RmImm { kind: reg, rm, imm: imm as u8 })
        } else if op == 0x81 {
            Some(Uop::Grp1RmImm { kind: reg, rm, imm })
        } else if op == 0x83 {
            Some(Uop::Grp1RmImm { kind: reg, rm, imm: sext8_32(imm as u8) })
        } else if op == 0x84 {
            Some(Uop::Test8RmR { rm, reg })
        } else if op == 0x85 {
            Some(Uop::TestRmR { rm, reg })
        } else {
            build_move(op, reg, rm, imm, p)
        }),
{
    if op < 0x40 && op % 8 == 0 {
        Some(Uop::Alu8RmR { kind: op / 8, rm, reg })
    } else if op < 0x40 && op % 8 == 1 {
        Some(Uop::AluRmR { kind: op / 8, rm, reg })
    } else if op < 0x40 && op % 8 == 2 {
        Some(Uop::Alu8RRm { kind: op / 8, reg, rm })
    } else if op < 0x40 && op % 8 == 3 {
        Some(Uop::AluRRm { kind: op / 8, reg, rm })
    } else if op < 0x40 && op % 8 == 4 {
        Some(Uop::Alu8AImm { kind: op / 8, imm: imm as u8 })
    } else if op < 0x40 && op % 8 == 5 {
        Some(Uop::AluAImm { kind: op / 8, imm })
    } else if 0x40 <= op && op <= 0x47 {
        Some(Uop::IncR { reg: op % 8 })
    } else if 0x48 <= op && op <= 0x4F {
        Some(Uop::DecR { reg: op % 8 })
    } else if 0x50 <= op && op <= 0x57 {
        Some(Uop::PushR { reg: op % 8 })
    } else if 0x58 <= op && op <= 0x5F {
        Some(Uop::PopR { reg: op % 8 })
    } else if op == 0x68 {
        Some(Uop::PushImm { imm })
    } else if op == 0x6A {
        Some(Uop::PushImm { imm: sext8_32(imm as u8) })
    } else if 0x70 <= op && op <= 0x7F {
        Some(Uop::Jcc { cc: op % 16, rel: sext8_32(imm as u8) })
    } else if op == 0x80 {
        Some(Uop::Grp18RmImm { kind: reg, rm, imm: imm as u8 })
    } else if op == 0x81 {
        Some(Uop::Grp1RmImm { kind: reg, rm, imm })
    } else if op == 0x83 {
        Some(Uop::Grp1RmImm { kind: reg, rm, imm: sext8_32(imm as u8) })
    } else if op == 0x84 {
        Some(Uop::Test8RmR { rm, reg })
    } else if op == 0x85 {
        Some(Uop::TestRmR { rm, reg })
    } else {
        build_move(op, reg, rm, imm, p)
    }
}

/// The instruction of an opcode after `0F`.
#[verifier::allow_in_spec]
pub fn build_two(op: u8, reg: u8, rm: Rm, imm: u32) -> Option<Uop>
    returns
        (if 0x80 <= op && op <= 0x8F {
            Some(Uop::Jcc { cc: op % 16, rel: imm })
        } else if 0x90 <= op && op <= 0x9F {
            Some(Uop::SetCC { cc: op % 16, rm })
        } else if op == 0xAF {
            Some(Uop::ImulRRm { reg, rm })
        } else if op == 0xB6 {
            Some(Uop::MovzxB { reg, rm })
        } else if op == 0xB7 {
            Some(Uop::MovzxW { reg, rm })
        } else {
            None
        }),
{
    if 0x80 <= op && op <= 0x8F {
        Some(Uop::Jcc { cc: op % 16, rel: imm })
    } else if 0x90 <= op && op <= 0x9F {
        Some(Uop::SetCC { cc: op % 16, rm })
    } else if op == 0xAF {
        Some(Uop::ImulRRm { reg, rm })
    } else if op == 0xB6 {
        Some(Uop::MovzxB { reg, rm })
    } else if op == 0xB7 {
        Some(Uop::MovzxW { reg, rm })
    } else {
        None
    }
}

/// Whether an opcode can be cached under these prefixes: under an operand size
/// prefix only moves and string instructions, under a repeat prefix only the latter.
#[verifier::allow_in_spec]
pub fn takes(op: u8, p: Prefixes) -> bool
    returns
        ((!p.o16 || op == 0x89 || op == 0x8B || is_string(op)) && (p.rep.is_none() || is_string(op))),
{
    (!p.o16 || op == 0x89 || op == 0x8B || is_string(op)) && (p.rep.is_none() || is_string(op))
}

/// The prefixes from byte `i` on, the opcode after them and where it ends.
pub open spec fn prefixes_from(mem: Seq<u8>, pa: u32, i: int, p: Prefixes) -> Option<
    (Prefixes, u8, int),
>
    decreases 15 - i,
{
    match code(mem, pa, i) {
        None => None,
        Some(x) => if x == 0xF0 || x == 0x67 {
            None
        } else {
            match prefix_added(p, x) {
                None => Some((p, x, i + 1)),
                Some(q) => if i + 1 >= 15 {
                    None
                } else {
                    prefixes_from(mem, pa, i + 1, q)
                },
            }
        },
    }
}

/// The base of an address form without a SIB byte or with one: register, index,
/// scale, displacement, default segment and where it ends.
pub open spec fn base_at(mem: Seq<u8>, pa: u32, i: int, md: u8, rm: u8) -> Option<
    (i8, i8, u8, u32, u8, int),
> {
    if rm == 4 {
        match code(mem, pa, i) {
            None => None,
            Some(sib) => {
                let idx = sib / 8 % 8;
                let bs = sib % 8;
                let index = if idx == 4 { -1i8 } else { idx as i8 };
                if bs == 5 && md == 0 {
                    match code32(mem, pa, i + 1) {
                        None => None,
                        Some(v) => Some((-1i8, index, (sib / 64) as u8, v, 3u8, i + 5)),
                    }
                } else {
                    Some(
                        (
                            bs as i8,
                            index,
                            (sib / 64) as u8,
                            0u32,
                            if bs == 4 || bs == 5 { 2u8 } else { 3u8 },
                            i + 1,
                        ),
                    )
                }
            },
        }
    } else if rm == 5 && md == 0 {
        match code32(mem, pa, i) {
            None => None,
            Some(v) => Some((-1i8, -1i8, 0u8, v, 3u8, i + 4)),
        }
    } else {
        Some((rm as i8, -1i8, 0u8, 0u32, if rm == 5 { 2u8 } else { 3u8 }, i))
    }
}

/// The displacement of an address form and where it ends.
pub open spec fn disp_at(mem: Seq<u8>, pa: u32, i: int, md: u8) -> Option<(u32, int)> {
    if md == 0 {
        Some((0u32, i))
    } else if md == 1 {
        match code(mem, pa, i) {
            None => None,
            Some(v) => Some((sext8_32(v), i + 1)),
        }
    } else {
        match code32(mem, pa, i) {
            None => None,
            Some(v) => Some((v, i + 4)),
        }
    }
}

/// The register field and the operand of a ModRM byte, and where they end.
#[verifier::opaque]
pub open spec fn modrm_at(mem: Seq<u8>, pa: u32, i: int, seg: Option<u8>) -> Option<
    (u8, Rm, int),
> {
    match code(mem, pa, i) {
        None => None,
        Some(b) => {
            let md = (b / 64) as u8;
            let reg = (b / 8 % 8) as u8;
            let rm = (b % 8) as u8;
            if md == 3 {
                Some((reg, Rm::Reg(rm), i + 1))
            } else {
                match base_at(mem, pa, i + 1, md, rm) {
                    None => None,
                    Some((base, index, scale, disp0, default_seg, j)) => match disp_at(
                        mem,
                        pa,
                        j,
                        md,
                    ) {
                        None => None,
                        Some((disp1, k)) => Some(
                            (
                                reg,
                                Rm::Mem(
                                    MemRef {
                                        base,
                                        index,
                                        scale,
                                        seg: match seg {
                                            Some(s) => s,
                                            None => default_seg,
                                        },
                                        disp: disp0.wrapping_add(disp1),
                                    },
                                ),
                                k,
                            ),
                        ),
                    },
                }
            }
        },
    }
}

/// The operands of an opcode: register field, operand, immediate and where they end.
#[verifier::opaque]
pub open spec fn operands_at(
    mem: Seq<u8>,
    pa: u32,
    i: int,
    two: bool,
    op: u8,
    seg: Option<u8>,
) -> Option<(u8, Rm, u32, int)> {
    let first = if has_modrm(two, op) {
        modrm_at(mem, pa, i, seg)
    } else {
        Some((0u8, Rm::Reg(0), i))
    };
    match first {
        None => None,
        Some((reg, rm, j)) => {
            let n = imm_size(two, op, reg);
            if n == 1 {
                match code(mem, pa, j) {
                    None => None,
                    Some(v) => Some((reg, rm, v as u32, j + 1)),
                }
            } else if n == 4 {
                match code32(mem, pa, j) {
                    None => None,
                    Some(v) => Some((reg, rm, v, j + 4)),
                }
            } else {
                Some((reg, rm, 0u32, j))
            }
        },
    }
}

/// The instruction of a one-byte opcode.
#[verifier::opaque]
pub open spec fn built(op: u8, reg: u8, rm: Rm, imm: u32, p: Prefixes) -> Option<Uop> {
    build(op, reg, rm, imm, p)
}

/// The instruction of an opcode after `0F`.
#[verifier::opaque]
pub open spec fn built_two(op: u8, reg: u8, rm: Rm, imm: u32) -> Option<Uop> {
    build_two(op, reg, rm, imm)
}

/// An instruction with its length, which is fifteen bytes at the most.
pub open spec fn with_length(u: Option<Uop>, len: int) -> Option<(u8, Uop)> {
    match u {
        Some(x) if len <= 15 => Some((len as u8, x)),
        _ => None,
    }
}

/// The instruction at a physical address and its length; nothing for one that cannot
/// be cached or does not end in the page.
#[verifier::opaque]
pub open spec fn decoded(mem: Seq<u8>, pa: u32) -> Option<(u8, Uop)> {
    match prefixes_from(mem, pa, 0, (Prefixes { seg: None, o16: false, rep: None })) {
        None => None,
        Some((p, op, i)) => if !takes(op, p) {
            None
        } else if op == 0x0F {
            match code(mem, pa, i) {
                None => None,
                Some(op2) => match operands_at(mem, pa, i + 1, true, op2, p.seg) {
                    None => None,
                    Some((reg, rm, imm, j)) => with_length(built_two(op2, reg, rm, imm), j),
                },
            }
        } else {
            match operands_at(mem, pa, i, false, op, p.seg) {
                None => None,
                Some((reg, rm, imm, j)) => with_length(built(op, reg, rm, imm, p), j),
            }
        },
    }
}

fn code_byte(m: &Machine, pa: u32, i: usize) -> (r: Option<u8>)
    ensures
        r == code(m@.mem, pa, i as int),
        r is Some ==> i < 16,
{
    let page: usize = 0x1000 - (pa % 0x1000) as usize;
    if i < 16 && i < page && (pa as usize) < m.mem.len() && i < m.mem.len() - pa as usize {
        Some(m.mem[pa as usize + i])
    } else {
        None
    }
}

fn code_word(m: &Machine, pa: u32, i: usize) -> (r: Option<u32>)
    requires
        i <= 64,
    ensures
        r == code32(m@.mem, pa, i as int),
        r is Some ==> i + 3 < 16,
{
    match (
        code_byte(m, pa, i),
        code_byte(m, pa, i + 1),
        code_byte(m, pa, i + 2),
        code_byte(m, pa, i + 3),
    ) {
        (Some(a), Some(b), Some(c), Some(d)) => Some(le32(le16(a, b), le16(c, d))),
        _ => None,
    }
}

fn dec_prefixes(m: &Machine, pa: u32) -> (r: Option<(Prefixes, u8, usize)>)
    ensures
        match r {
            None => prefixes_from(
                m@.mem,
                pa,
                0,
                (Prefixes { seg: None, o16: false, rep: None }),
            ) is None,
            Some((p, op, i)) => prefixes_from(
                m@.mem,
                pa,
                0,
                (Prefixes { seg: None, o16: false, rep: None }),
            ) == Some((p, op, i as int)) && 1 <= i <= 15,
        },
{
    let mut p = Prefixes { seg: None, o16: false, rep: None };
    let mut i: usize = 0;
    loop
        invariant
            i < 15,
            prefixes_from(m@.mem, pa, i as int, p) == prefixes_from(
                m@.mem,
                pa,
                0,
                (Prefixes { seg: None, o16: false, rep: None }),
            ),
        decreases 15 - i,
    {
        let x: u8 = match code_byte(m, pa, i) {
            None => {
                return None;
            },
            Some(x) => x,
        };
        i = i + 1;
        if x == 0xF0 || x == 0x67 {
            return None;
        }
        match prefix_added(p, x) {
            None => {
                return Some((p, x, i));
            },
            Some(q) => {
                if i >= 15 {
                    return None;
                }
                p = q;
            },
        }
    }
}

fn dec_base(m: &Machine, pa: u32, i: usize, md: u8, rm: u8) -> (r: Option<
    (i8, i8, u8, u32, u8, usize),
>)
    requires
        i <= 17,
        rm < 8,
    ensures
        match r {
            None => base_at(m@.mem, pa, i as int, md, rm) is None,
            Some((a, b, c, d, e, j)) => base_at(m@.mem, pa, i as int, md, rm) == Some(
                (a, b, c, d, e, j as int),
            ) && i <= j <= 17,
        },
{
    if rm == 4 {
        let sib: u8 = match code_byte(m, pa, i) {
            None => {
                return None;
            },
            Some(x) => x,
        };
        let idx: u8 = sib / 8 % 8;
        let bs: u8 = sib % 8;
        let index: i8 = if idx == 4 {
            -1
        } else {
            idx as i8
        };
        if bs == 5 && md == 0 {
            match code_word(m, pa, i + 1) {
                None => None,
                Some(v) => Some((-1, index, sib / 64, v, 3, i + 5)),
            }
        } else {
            let seg: u8 = if bs == 4 || bs == 5 {
                2
            } else {
                3
            };
            Some((bs as i8, index, sib / 64, 0, seg, i + 1))
        }
    } else if rm == 5 && md == 0 {
        match code_word(m, pa, i) {
            None => None,
            Some(v) => Some((-1, -1, 0, v, 3, i + 4)),
        }
    } else {
        let seg: u8 = if rm == 5 {
            2
        } else {
            3
        };
        Some((rm as i8, -1, 0, 0, seg, i))
    }
}

fn dec_disp(m: &Machine, pa: u32, i: usize, md: u8) -> (r: Option<(u32, usize)>)
    requires
        i <= 17,
    ensures
        match r {
            None => disp_at(m@.mem, pa, i as int, md) is None,
            Some((v, j)) => disp_at(m@.mem, pa, i as int, md) == Some((v, j as int)) && i <= j
                <= 17,
        },
{
    if md == 0 {
        Some((0, i))
    } else if md == 1 {
        match code_byte(m, pa, i) {
            None => None,
            Some(v) => Some((sext8_32(v), i + 1)),
        }
    } else {
        match code_word(m, pa, i) {
            None => None,
            Some(v) => Some((v, i + 4)),
        }
    }
}

fn dec_modrm(m: &Machine, pa: u32, i: usize, seg: Option<u8>) -> (r: Option<(u8, Rm, usize)>)
    requires
        i <= 16,
    ensures
        match r {
            None => modrm_at(m@.mem, pa, i as int, seg) is None,
            Some((reg, rm, j)) => modrm_at(m@.mem, pa, i as int, seg) == Some(
                (reg, rm, j as int),
            ) && i <= j <= 17,
        },
{
    proof {
        reveal(modrm_at);
    }
    let b: u8 = match code_byte(m, pa, i) {
        None => {
            return None;
        },
        Some(x) => x,
    };
    let md: u8 = b / 64;
    let reg: u8 = b / 8 % 8;
    let rm: u8 = b % 8;
    if md == 3 {
        return Some((reg, Rm::Reg(rm), i + 1));
    }
    match dec_base(m, pa, i + 1, md, rm) {
        None => None,
        Some((base, index, scale, disp0, default_seg, j)) => {
            match dec_disp(m, pa, j, md) {
                None => None,
                Some((disp1, k)) => {
                    let s: u8 = match seg {
                        Some(x) => x,
                        None => default_seg,
                    };
                    Some(
                        (
                            reg,
                            Rm::Mem(
                                MemRef {
                                    base,
                                    index,
                                    scale,
                                    seg: s,
                                    disp: disp0.wrapping_add(disp1),
                                },
                            ),
                            k,
                        ),
                    )
                },
            }
        },
    }
}

fn dec_operands(m: &Machine, pa: u32, i: usize, two: bool, op: u8, seg: Option<u8>) -> (r: Option<
    (u8, Rm, u32, usize),
>)
    requires
        i <= 16,
    ensures
        match r {
            None => operands_at(m@.mem, pa, i as int, two, op, seg) is None,
            Some((reg, rm, imm, j)) => operands_at(m@.mem, pa, i as int, two, op, seg) == Some(
                (reg, rm, imm, j as int),
            ) && i <= j <= 18,
        },
{
    proof {
        reveal(operands_at);
    }
    let (reg, rm, j) = if has_modrm(two, op) {
        match dec_modrm(m, pa, i, seg) {
            None => {
                return None;
            },
            Some(x) => x,
        }
    } else {
        (0, Rm::Reg(0), i)
    };
    let n: u8 = imm_size(two, op, reg);
    if n == 1 {
        match code_byte(m, pa, j) {
            None => None,
            Some(v) => Some((reg, rm, v as u32, j + 1)),
        }
    } else if n == 4 {
        match code_word(m, pa, j) {
            None => None,
            Some(v) => Some((reg, rm, v, j + 4)),
        }
    } else {
        Some((reg, rm, 0, j))
    }
}

fn add_length(u: Option<Uop>, len: usize) -> (r: Option<(u8, Uop)>)
    ensures
        r == with_length(u, len as int),
{
    match u {
        Some(x) => {
            if len <= 15 {
                Some((len as u8, x))
            } else {
                None
            }
        },
        None => None,
    }
}

/// Decodes the instruction at a physical address.
pub fn decode_at(m: &Machine, pa: u32) -> (r: Option<(u8, Uop)>)
    ensures
        r == decoded(m@.mem, pa),
{
    proof {
        reveal(decoded);
        reveal(built);
        reveal(built_two);
    }
    let (p, op, i) = match dec_prefixes(m, pa) {
        None => {
            return None;
        },
        Some(x) => x,
    };
    if !takes(op, p) {
        return None;
    }
    if op == 0x0F {
        let op2: u8 = match code_byte(m, pa, i) {
            None => {
                return None;
            },
            Some(x) => x,
        };
        match dec_operands(m, pa, i + 1, true, op2, p.seg) {
            None => None,
            Some((reg, rm, imm, j)) => add_length(build_two(op2, reg, rm, imm), j),
        }
    } else {
        match dec_operands(m, pa, i, false, op, p.seg) {
            None => None,
            Some((reg, rm, imm, j)) => add_length(build(op, reg, rm, imm, p), j),
        }
    }
}

} // verus!
