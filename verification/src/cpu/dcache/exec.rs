//! Carrying out a decoded instruction.
//!
//! Arithmetic, flags and the stack are those of the interpreter; what is here is how
//! operands are found.

use vstd::prelude::*;
use crate::bits::signed_w;
use crate::cpu::alu::{alu8, alu_w, condition, inc_dec_w, narrow, set_szp_w, width};
use crate::cpu::dcache::{MemRef, Rm, Uop};
use crate::cpu::note_prefixed;
use crate::cpu::onebyte::imul_to;
use crate::cpu::operand::{
    pop_w, push_w, read_op16, read_op8, read_op_w, sext16_32, sext8_32, sp_write, write_op8,
    write_op_w, Decoder, Operand,
};
use crate::cpu::shift::shift_rot;
use crate::cpu::state::{AX, BP, CF, DX, SS, ZF};
use crate::cpu::string;
use crate::cpu::twobyte::{bit_scan, shxd};
use crate::machine::{Machine, State};

verus! {

/// Whether an instruction may move the instruction pointer off the straight line.
#[verifier::allow_in_spec]
pub fn is_control(u: Uop) -> bool
    returns
        (match u {
            Uop::Jcc { .. } | Uop::JmpRel { .. } | Uop::CallRel { .. } | Uop::Ret => true,
            Uop::Grp5 { kind, .. } => kind == 2 || kind == 4,
            _ => false,
        }),
{
    match u {
        Uop::Jcc { .. } | Uop::JmpRel { .. } | Uop::CallRel { .. } | Uop::Ret => true,
        Uop::Grp5 { kind, .. } => kind == 2 || kind == 4,
        _ => false,
    }
}

/// Instructions that code generators do not know. After one of them a generated block
/// may begin.
#[verifier::allow_in_spec]
pub fn reprobe_after(u: Uop) -> bool
    returns
        (match u {
            Uop::MovsxB { .. } | Uop::MovsxW { .. } | Uop::Cmov { .. } => true,
            Uop::TestAImm { .. } | Uop::Test8AImm { .. } | Uop::ImulRRmI { .. } => true,
            Uop::Cdq | Uop::BitScan { .. } | Uop::ShxdImm { .. } | Uop::ShxdCl { .. } => true,
            _ => false,
        }),
{
    match u {
        Uop::MovsxB { .. } | Uop::MovsxW { .. } | Uop::Cmov { .. } => true,
        Uop::TestAImm { .. } | Uop::Test8AImm { .. } | Uop::ImulRRmI { .. } => true,
        Uop::Cdq | Uop::BitScan { .. } | Uop::ShxdImm { .. } | Uop::ShxdCl { .. } => true,
        _ => false,
    }
}

/// Whether an operand is in memory.
#[verifier::allow_in_spec]
pub fn in_memory(rm: Rm) -> bool
    returns
        (match rm {
            Rm::Mem(_) => true,
            Rm::Reg(_) => false,
        }),
{
    match rm {
        Rm::Mem(_) => true,
        Rm::Reg(_) => false,
    }
}

/// Whether an instruction may touch memory, so that it may fault.
#[verifier::allow_in_spec]
pub fn may_touch_memory(u: Uop) -> bool
    returns
        (match u {
            Uop::MovRImm { .. } | Uop::Lea { .. } | Uop::Jcc { .. } | Uop::JmpRel { .. } => false,
            Uop::IncR { .. } | Uop::DecR { .. } | Uop::XchgAR { .. } => false,
            Uop::AluAImm { .. } | Uop::Alu8AImm { .. } | Uop::TestAImm { .. } => false,
            Uop::Test8AImm { .. } | Uop::Cdq => false,
            Uop::MovRmR { rm, .. } | Uop::MovRRm { rm, .. } | Uop::Mov8RmR { rm, .. } => in_memory(rm),
            Uop::Mov8RRm { rm, .. } | Uop::Mov16RmR { rm, .. } | Uop::Mov16RRm { rm, .. } => in_memory(
                rm,
            ),
            Uop::AluRmR { rm, .. } | Uop::AluRRm { rm, .. } | Uop::Alu8RmR { rm, .. } => in_memory(rm),
            Uop::Alu8RRm { rm, .. } | Uop::Grp1RmImm { rm, .. } | Uop::Grp18RmImm { rm, .. } => in_memory(
                rm,
            ),
            Uop::TestRmR { rm, .. } | Uop::Test8RmR { rm, .. } | Uop::MovzxB { rm, .. } => in_memory(rm),
            Uop::MovzxW { rm, .. } | Uop::MovsxB { rm, .. } | Uop::MovsxW { rm, .. } => in_memory(rm),
            Uop::MovRmImm { rm, .. } | Uop::MovRm8Imm { rm, .. } | Uop::Grp3b { rm, .. } => in_memory(rm),
            Uop::Grp3w { rm, .. } | Uop::SetCC { rm, .. } | Uop::ImulRRm { rm, .. } => in_memory(rm),
            Uop::ImulRRmI { rm, .. } | Uop::Cmov { rm, .. } | Uop::BitScan { rm, .. } => in_memory(rm),
            Uop::ShxdImm { rm, .. } | Uop::ShxdCl { rm, .. } => in_memory(rm),
            Uop::ShiftRmImm { rm, .. } | Uop::ShiftRmCl { rm, .. } => in_memory(rm),
            Uop::PushR { .. } | Uop::PopR { .. } | Uop::PushImm { .. } | Uop::CallRel { .. } => true,
            Uop::Ret | Uop::Leave | Uop::MovAMoffs { .. } | Uop::Mov8AMoffs { .. } => true,
            Uop::Grp5 { .. } | Uop::StrOne { .. } | Uop::StrRep { .. } => true,
        }),
{
    match u {
        Uop::MovRImm { .. } | Uop::Lea { .. } | Uop::Jcc { .. } | Uop::JmpRel { .. } => false,
        Uop::IncR { .. } | Uop::DecR { .. } | Uop::XchgAR { .. } => false,
        Uop::AluAImm { .. } | Uop::Alu8AImm { .. } | Uop::TestAImm { .. } => false,
        Uop::Test8AImm { .. } | Uop::Cdq => false,
        Uop::MovRmR { rm, .. } | Uop::MovRRm { rm, .. } | Uop::Mov8RmR { rm, .. } => in_memory(rm),
        Uop::Mov8RRm { rm, .. } | Uop::Mov16RmR { rm, .. } | Uop::Mov16RRm { rm, .. } => in_memory(
            rm,
        ),
        Uop::AluRmR { rm, .. } | Uop::AluRRm { rm, .. } | Uop::Alu8RmR { rm, .. } => in_memory(rm),
        Uop::Alu8RRm { rm, .. } | Uop::Grp1RmImm { rm, .. } | Uop::Grp18RmImm { rm, .. } => in_memory(
            rm,
        ),
        Uop::TestRmR { rm, .. } | Uop::Test8RmR { rm, .. } | Uop::MovzxB { rm, .. } => in_memory(rm),
        Uop::MovzxW { rm, .. } | Uop::MovsxB { rm, .. } | Uop::MovsxW { rm, .. } => in_memory(rm),
        Uop::MovRmImm { rm, .. } | Uop::MovRm8Imm { rm, .. } | Uop::Grp3b { rm, .. } => in_memory(rm),
        Uop::Grp3w { rm, .. } | Uop::SetCC { rm, .. } | Uop::ImulRRm { rm, .. } => in_memory(rm),
        Uop::ImulRRmI { rm, .. } | Uop::Cmov { rm, .. } | Uop::BitScan { rm, .. } => in_memory(rm),
        Uop::ShxdImm { rm, .. } | Uop::ShxdCl { rm, .. } => in_memory(rm),
        Uop::ShiftRmImm { rm, .. } | Uop::ShiftRmCl { rm, .. } => in_memory(rm),
        Uop::PushR { .. } | Uop::PopR { .. } | Uop::PushImm { .. } | Uop::CallRel { .. } => true,
        Uop::Ret | Uop::Leave | Uop::MovAMoffs { .. } | Uop::Mov8AMoffs { .. } => true,
        Uop::Grp5 { .. } | Uop::StrOne { .. } | Uop::StrRep { .. } => true,
    }
}

/// The opcode of an instruction that was decoded from one with an operand size
/// prefix.
#[verifier::allow_in_spec]
pub fn prefixed_opcode(u: Uop) -> Option<u8>
    returns
        (match u {
            Uop::Mov16RmR { .. } => Some(0x89u8),
            Uop::Mov16RRm { .. } => Some(0x8Bu8),
            Uop::StrOne { op, o16, .. } => if o16 {
                Some(op)
            } else {
                None
            },
            Uop::StrRep { op, o16, .. } => if o16 {
                Some(op)
            } else {
                None
            },
            _ => None,
        }),
{
    match u {
        Uop::Mov16RmR { .. } => Some(0x89u8),
        Uop::Mov16RRm { .. } => Some(0x8Bu8),
        Uop::StrOne { op, o16, .. } => if o16 {
            Some(op)
        } else {
            None
        },
        Uop::StrRep { op, o16, .. } => if o16 {
            Some(op)
        } else {
            None
        },
        _ => None,
    }
}

/// A register number.
#[verifier::allow_in_spec]
pub fn reg_of(r: u8) -> usize
    returns
        ((r % 8) as usize),
{
    (r % 8) as usize
}

/// A segment register number.
#[verifier::allow_in_spec]
pub fn seg_of(s: u8) -> usize
    returns
        (if s < 6 {
            s as usize
        } else {
            3usize
        }),
{
    if s < 6 {
        s as usize
    } else {
        3usize
    }
}

/// The decoder of a string instruction in 32-bit code.
#[verifier::allow_in_spec]
pub fn string_decoder(seg: i8, rep: Option<u8>, o16: bool) -> Decoder
    returns
        (Decoder {
            seg_override: if seg >= 0 {
                Some(seg_of(seg as u8))
            } else {
                None
            },
            rep,
            opsize32: !o16,
            addrsize32: true,
            p66: o16,
            lock: false,
        }),
{
    Decoder {
        seg_override: if seg >= 0 {
            Some(seg_of(seg as u8))
        } else {
            None
        },
        rep,
        opsize32: !o16,
        addrsize32: true,
        p66: o16,
        lock: false,
    }
}

impl State {
    /// The offset of a memory operand, from the registers as they are.
    pub open spec fn off_of(self, r: MemRef) -> u32 {
        let a = if r.base >= 0 {
            r.disp.wrapping_add(self.cpu.regs[reg_of(r.base as u8) as int])
        } else {
            r.disp
        };
        if r.index >= 0 {
            a.wrapping_add(self.cpu.regs[reg_of(r.index as u8) as int] << (r.scale % 4) as u32)
        } else {
            a
        }
    }

    /// An operand in memory with its address made.
    pub open spec fn operand_at(self, seg: u8, off: u32) -> Operand {
        Operand::Mem { addr: self.cpu.lin(seg_of(seg), off), off, seg: seg_of(seg) }
    }

    /// An operand with its address made.
    pub open spec fn operand_of(self, rm: Rm) -> Operand {
        match rm {
            Rm::Reg(r) => Operand::Reg(reg_of(r)),
            Rm::Mem(r) => self.operand_at(r.seg, self.off_of(r)),
        }
    }

    /// Moves.
    #[verifier::opaque]
    pub open spec fn uop_move(self, u: Uop) -> State {
        match u {
            Uop::MovRmR { rm, reg } => self.write_op_w(
                self.operand_of(rm),
                self.cpu.reg_w(reg_of(reg), true),
                true,
            ),
            Uop::Mov16RmR { rm, reg } => self.write_op_w(
                self.operand_of(rm),
                self.cpu.reg_w(reg_of(reg), false),
                false,
            ),
            Uop::Mov8RmR { rm, reg } => self.write_op8(
                self.operand_of(rm),
                self.cpu.reg8(reg_of(reg)),
            ),
            Uop::MovRRm { reg, rm } => {
                let (t, v) = self.read_op_w(self.operand_of(rm), true);
                t.with_cpu(t.cpu.with_reg_w(reg_of(reg), v, true))
            },
            Uop::Mov16RRm { reg, rm } => {
                let (t, v) = self.read_op_w(self.operand_of(rm), false);
                t.with_cpu(t.cpu.with_reg_w(reg_of(reg), v, false))
            },
            Uop::Mov8RRm { reg, rm } => {
                let (t, v) = self.read_op8(self.operand_of(rm));
                t.with_cpu(t.cpu.with_reg8(reg_of(reg), v))
            },
            Uop::MovRImm { reg, imm } => self.with_cpu(
                self.cpu.with_reg_w(reg_of(reg), imm, true),
            ),
            Uop::MovRmImm { rm, imm } => self.write_op_w(self.operand_of(rm), imm, true),
            Uop::MovRm8Imm { rm, imm } => self.write_op8(self.operand_of(rm), imm),
            Uop::MovAMoffs { load, seg, off } => {
                let o = self.operand_at(seg, off);
                if load {
                    let (t, v) = self.read_op_w(o, true);
                    t.with_cpu(t.cpu.with_reg_w(AX, v, true))
                } else {
                    self.write_op_w(o, self.cpu.reg_w(AX, true), true)
                }
            },
            Uop::Mov8AMoffs { load, seg, off } => {
                let o = self.operand_at(seg, off);
                if load {
                    let (t, v) = self.read_op8(o);
                    t.with_cpu(t.cpu.with_reg8(0, v))
                } else {
                    self.write_op8(o, self.cpu.reg8(0))
                }
            },
            Uop::Lea { reg, mem } => self.with_cpu(
                self.cpu.with_reg_w(reg_of(reg), self.off_of(mem), true),
            ),
            Uop::XchgAR { reg } => {
                let c = self.cpu;
                let a = c.reg_w(AX, true);
                self.with_cpu(
                    c.with_reg_w(AX, c.reg_w(reg_of(reg), true), true).with_reg_w(
                        reg_of(reg),
                        a,
                        true,
                    ),
                )
            },
            Uop::MovzxB { reg, rm } => {
                let (t, v) = self.read_op8(self.operand_of(rm));
                t.with_cpu(t.cpu.with_reg_w(reg_of(reg), v as u32, true))
            },
            Uop::MovzxW { reg, rm } => {
                let (t, v) = self.read_op16(self.operand_of(rm));
                t.with_cpu(t.cpu.with_reg_w(reg_of(reg), v as u32, true))
            },
            Uop::MovsxB { reg, rm } => {
                let (t, v) = self.read_op8(self.operand_of(rm));
                t.with_cpu(t.cpu.with_reg_w(reg_of(reg), sext8_32(v), true))
            },
            Uop::MovsxW { reg, rm } => {
                let (t, v) = self.read_op16(self.operand_of(rm));
                t.with_cpu(t.cpu.with_reg_w(reg_of(reg), sext16_32(v), true))
            },
            Uop::Cmov { cc, reg, rm } => {
                let (t, v) = self.read_op_w(self.operand_of(rm), true);
                if condition(&t.cpu, cc) {
                    t.with_cpu(t.cpu.with_reg_w(reg_of(reg), v, true))
                } else {
                    t
                }
            },
            Uop::SetCC { cc, rm } => self.write_op8(
                self.operand_of(rm),
                if condition(&self.cpu, cc) {
                    1u8
                } else {
                    0u8
                },
            ),
            _ => self.with_cpu(
                self.cpu.with_reg(
                    DX,
                    if self.cpu.reg32(AX) >= 0x8000_0000 {
                        0xFFFF_FFFFu32
                    } else {
                        0
                    },
                ),
            ),
        }
    }

    /// Two-operand arithmetic and tests.
    #[verifier::opaque]
    pub open spec fn uop_alu(self, u: Uop) -> State {
        match u {
            Uop::Alu8RmR { kind, rm, reg } => {
                let o = self.operand_of(rm);
                let (t, a) = self.read_op8(o);
                t.alu8_to(kind, o, a, t.cpu.reg8(reg_of(reg)))
            },
            Uop::AluRmR { kind, rm, reg } => {
                let o = self.operand_of(rm);
                let (t, a) = self.read_op_w(o, true);
                t.alu_w_to(kind, o, a, t.cpu.reg_w(reg_of(reg), true), true)
            },
            Uop::Alu8RRm { kind, reg, rm } => {
                let a = self.cpu.reg8(reg_of(reg));
                let (t, b) = self.read_op8(self.operand_of(rm));
                t.alu8_to(kind, Operand::Reg(reg_of(reg)), a, b)
            },
            Uop::AluRRm { kind, reg, rm } => {
                let a = self.cpu.reg_w(reg_of(reg), true);
                let (t, b) = self.read_op_w(self.operand_of(rm), true);
                t.alu_w_to(kind, Operand::Reg(reg_of(reg)), a, b, true)
            },
            Uop::Alu8AImm { kind, imm } => self.alu8_to(
                kind,
                Operand::Reg(AX),
                self.cpu.reg8(0),
                imm,
            ),
            Uop::AluAImm { kind, imm } => self.alu_w_to(
                kind,
                Operand::Reg(AX),
                self.cpu.reg_w(AX, true),
                imm,
                true,
            ),
            Uop::Grp18RmImm { kind, rm, imm } => {
                let o = self.operand_of(rm);
                let (t, a) = self.read_op8(o);
                t.alu8_to(kind, o, a, imm)
            },
            Uop::Grp1RmImm { kind, rm, imm } => {
                let o = self.operand_of(rm);
                let (t, a) = self.read_op_w(o, true);
                t.alu_w_to(kind, o, a, imm, true)
            },
            Uop::Test8RmR { rm, reg } => {
                let (t, a) = self.read_op8(self.operand_of(rm));
                t.with_cpu(
                    t.cpu.after_alu(4, a as u32, t.cpu.reg8(reg_of(reg)) as u32, 0),
                )
            },
            Uop::TestRmR { rm, reg } => {
                let (t, a) = self.read_op_w(self.operand_of(rm), true);
                t.with_cpu(
                    t.cpu.after_alu(
                        4,
                        narrow(a, true),
                        narrow(t.cpu.reg_w(reg_of(reg), true), true),
                        width(true),
                    ),
                )
            },
            Uop::Test8AImm { imm } => self.with_cpu(
                self.cpu.after_alu(4, self.cpu.reg8(0) as u32, imm as u32, 0),
            ),
            Uop::TestAImm { imm } => self.with_cpu(
                self.cpu.after_alu(
                    4,
                    narrow(self.cpu.reg_w(AX, true), true),
                    narrow(imm, true),
                    width(true),
                ),
            ),
            Uop::ImulRRm { reg, rm } => {
                let a = signed_w(self.cpu.reg_w(reg_of(reg), true), true);
                let (t, v) = self.read_op_w(self.operand_of(rm), true);
                t.imul_to(reg_of(reg), a as int, signed_w(v, true) as int, true)
            },
            Uop::ImulRRmI { reg, rm, imm } => {
                let (t, v) = self.read_op_w(self.operand_of(rm), true);
                t.imul_to(
                    reg_of(reg),
                    signed_w(v, true) as int,
                    signed_w(imm, true) as int,
                    true,
                )
            },
            _ => self,
        }
    }

    /// INC and DEC of a register.
    pub open spec fn inc_dec_reg(self, reg: usize, dec: bool) -> State {
        let a = narrow(self.cpu.reg_w(reg, true), true);
        self.with_cpu(
            self.cpu.after_inc_dec(a, dec, width(true)).with_reg_w(
                reg,
                crate::cpu::alu::inc_dec_value(a, dec, width(true)),
                true,
            ),
        )
    }

    /// A shift or rotation.
    #[verifier::opaque]
    pub open spec fn shift_operand(self, kind: u8, o: Operand, count: u8) -> State {
        let (t, a) = self.read_op_w(o, true);
        let r = crate::cpu::shift::shift_value(t.cpu, kind, a, count, 32);
        t.with_cpu(t.cpu.after_shift(kind, a, count, 32)).write_op_w(o, r as u32, true)
    }

    /// A shift of two registers together.
    #[verifier::opaque]
    pub open spec fn double_shift_operand(
        self,
        o: Operand,
        reg: usize,
        raw: u8,
        left: bool,
    ) -> State {
        let count = (raw % 32) as u32;
        if count == 0 {
            self
        } else {
            let (t, dst) = self.read_op_w(o, true);
            let (r, cf) = shxd(dst, t.cpu.reg_w(reg, true), count, left, true);
            let v = t.write_op_w(o, r, true);
            v.with_cpu(v.cpu.with_flag(CF, cf).with_szp(narrow(r, true), width(true)))
        }
    }

    /// TEST with an immediate, NOT and NEG of a byte.
    #[verifier::opaque]
    pub open spec fn uop_grp3b(self, kind: u8, rm: Rm, imm: u8) -> State {
        let o = self.operand_of(rm);
        let (t, a) = self.read_op8(o);
        if kind == 0 || kind == 1 {
            t.with_cpu(t.cpu.after_alu(4, a as u32, imm as u32, 0))
        } else if kind == 2 {
            t.write_op8(o, !a)
        } else {
            let r = crate::cpu::alu::alu_value(t.cpu, 5, 0, a as u32, 0);
            t.with_cpu(t.cpu.after_alu(5, 0, a as u32, 0).with_flag(CF, a != 0)).write_op8(
                o,
                r as u8,
            )
        }
    }

    #[verifier::opaque]
    pub open spec fn uop_grp3w(self, kind: u8, rm: Rm, imm: u32) -> State {
        let o = self.operand_of(rm);
        let (t, a) = self.read_op_w(o, true);
        if kind == 0 || kind == 1 {
            t.with_cpu(t.cpu.after_alu(4, narrow(a, true), narrow(imm, true), width(true)))
        } else if kind == 2 {
            t.write_op_w(o, !a, true)
        } else {
            let r = crate::cpu::alu::alu_value(t.cpu, 5, 0, narrow(a, true), width(true));
            t.with_cpu(
                t.cpu.after_alu(5, 0, narrow(a, true), width(true)).with_flag(CF, a != 0),
            ).write_op_w(o, r, true)
        }
    }

    /// INC, DEC, the near indirect call and jump, and PUSH.
    #[verifier::opaque]
    pub open spec fn uop_grp5(self, kind: u8, rm: Rm) -> State {
        let o = self.operand_of(rm);
        let (t, a) = self.read_op_w(o, true);
        if kind == 0 || kind == 1 {
            t.with_cpu(t.cpu.after_inc_dec(narrow(a, true), kind != 0, width(true))).write_op_w(
                o,
                crate::cpu::alu::inc_dec_value(narrow(a, true), kind != 0, width(true)),
                true,
            )
        } else if kind == 2 {
            let v = t.push_w(t.cpu.ip, true);
            v.with_cpu(v.cpu.with_ip(a))
        } else if kind == 4 {
            t.with_cpu(t.cpu.with_ip(a))
        } else {
            t.push_w(a, true)
        }
    }

    /// The stack and the jumps.
    #[verifier::opaque]
    pub open spec fn uop_flow(self, u: Uop) -> State {
        match u {
            Uop::Jcc { cc, rel } => if condition(&self.cpu, cc) {
                self.jump_rel(rel)
            } else {
                self
            },
            Uop::JmpRel { rel } => self.jump_rel(rel),
            Uop::CallRel { rel } => {
                let ret = self.cpu.ip;
                let t = self.push_w(ret, true);
                t.with_cpu(t.cpu.with_ip(ret.wrapping_add(rel)))
            },
            Uop::Ret => {
                let (t, ip) = self.pop_w(true);
                t.with_cpu(t.cpu.with_ip(ip))
            },
            Uop::PushR { reg } => self.push_reg(reg_of(reg), true),
            Uop::PopR { reg } => self.pop_reg(reg_of(reg), true),
            Uop::PushImm { imm } => self.push_w(imm, true),
            _ => {
                let s = self.with_cpu(
                    self.cpu.with_sp(self.cpu.reg_w(BP, self.cpu.seg_is32(SS))),
                );
                s.pop_reg(BP, true)
            },
        }
    }

    /// What a decoded instruction does, the instruction pointer already behind it.
    #[verifier::opaque]
    pub open spec fn exec_uop(self, u: Uop) -> Option<State> {
        match prefixed_opcode(u) {
            Some(op) => self.seen_prefixed(op).uop_effect(u),
            None => self.uop_effect(u),
        }
    }

    /// The same without the note of an operand size prefix.
    #[verifier::opaque]
    pub open spec fn uop_effect(self, u: Uop) -> Option<State> {
        match u {
            Uop::Alu8RmR { .. } | Uop::AluRmR { .. } | Uop::Alu8RRm { .. } => Some(
                self.uop_alu(u),
            ),
            Uop::AluRRm { .. } | Uop::Alu8AImm { .. } | Uop::AluAImm { .. } => Some(
                self.uop_alu(u),
            ),
            Uop::Grp18RmImm { .. } | Uop::Grp1RmImm { .. } | Uop::Test8RmR { .. } => Some(
                self.uop_alu(u),
            ),
            Uop::TestRmR { .. } | Uop::Test8AImm { .. } | Uop::TestAImm { .. } => Some(
                self.uop_alu(u),
            ),
            Uop::ImulRRm { .. } | Uop::ImulRRmI { .. } => Some(self.uop_alu(u)),
            Uop::Jcc { .. } | Uop::JmpRel { .. } | Uop::CallRel { .. } => Some(self.uop_flow(u)),
            Uop::Ret | Uop::PushR { .. } | Uop::PopR { .. } => Some(self.uop_flow(u)),
            Uop::PushImm { .. } | Uop::Leave => Some(self.uop_flow(u)),
            Uop::IncR { reg } => Some(self.inc_dec_reg(reg_of(reg), false)),
            Uop::DecR { reg } => Some(self.inc_dec_reg(reg_of(reg), true)),
            Uop::ShiftRmImm { kind, rm, count } => Some(
                self.shift_operand(kind, self.operand_of(rm), count),
            ),
            Uop::ShiftRmCl { kind, rm } => Some(
                self.shift_operand(kind, self.operand_of(rm), self.cpu.reg8(1)),
            ),
            Uop::ShxdImm { rm, reg, imm, left } => Some(
                self.double_shift_operand(self.operand_of(rm), reg_of(reg), imm, left),
            ),
            Uop::ShxdCl { rm, reg, left } => Some(
                self.double_shift_operand(
                    self.operand_of(rm),
                    reg_of(reg),
                    self.cpu.reg8(1),
                    left,
                ),
            ),
            Uop::BitScan { reg, rm, reverse } => {
                let (t, v) = self.read_op_w(self.operand_of(rm), true);
                let c = t.cpu.with_flag(ZF, v == 0);
                Some(
                    t.with_cpu(
                        match crate::cpu::twobyte::scan(v, reverse) {
                            Some(p) => c.with_reg_w(reg_of(reg), p, true),
                            None => c,
                        },
                    ),
                )
            },
            Uop::Grp3b { kind, rm, imm } => Some(self.uop_grp3b(kind, rm, imm)),
            Uop::Grp3w { kind, rm, imm } => Some(self.uop_grp3w(kind, rm, imm)),
            Uop::Grp5 { kind, rm } => Some(self.uop_grp5(kind, rm)),
            Uop::StrOne { op, seg, o16 } => self.string_exec(string_decoder(seg, None, o16), op),
            Uop::StrRep { op, seg, rep, o16 } => self.string_exec(
                string_decoder(seg, Some(rep), o16),
                op,
            ),
            _ => Some(self.uop_move(u)),
        }
    }
}

fn off_of(m: &Machine, r: &MemRef) -> (off: u32)
    ensures
        off == m@.off_of(*r),
{
    let mut off: u32 = r.disp;
    if r.base >= 0 {
        off = off.wrapping_add(m.cpu.regs[reg_of(r.base as u8)]);
    }
    if r.index >= 0 {
        off = off.wrapping_add(m.cpu.regs[reg_of(r.index as u8)] << (r.scale % 4) as u32);
    }
    off
}

fn operand_at(m: &Machine, seg: u8, off: u32) -> (o: Operand)
    ensures
        o == m@.operand_at(seg, off),
        o.wf(),
{
    let seg: usize = seg_of(seg);
    Operand::Mem { addr: m.cpu.lin(seg, off), off, seg }
}

fn operand_of(m: &Machine, rm: Rm) -> (o: Operand)
    ensures
        o == m@.operand_of(rm),
        o.wf(),
{
    match rm {
        Rm::Reg(r) => Operand::Reg(reg_of(r)),
        Rm::Mem(r) => {
            let off: u32 = off_of(m, &r);
            operand_at(m, r.seg, off)
        },
    }
}

fn exec_move(m: &mut Machine, u: Uop)
    ensures
        final(m)@ == old(m)@.uop_move(u),
{
    proof {
        reveal(State::uop_move);
    }
    match u {
        Uop::MovRmR { rm, reg } => {
            let o = operand_of(m, rm);
            let v: u32 = m.cpu.reg_w(reg_of(reg), true);
            write_op_w(m, &o, v, true);
        },
        Uop::Mov16RmR { rm, reg } => {
            let o = operand_of(m, rm);
            let v: u32 = m.cpu.reg_w(reg_of(reg), false);
            write_op_w(m, &o, v, false);
        },
        Uop::Mov8RmR { rm, reg } => {
            let o = operand_of(m, rm);
            let v: u8 = m.cpu.reg8(reg_of(reg));
            write_op8(m, &o, v);
        },
        Uop::MovRRm { reg, rm } => {
            let o = operand_of(m, rm);
            let v: u32 = read_op_w(m, &o, true);
            m.cpu.set_reg_w(reg_of(reg), v, true);
        },
        Uop::Mov16RRm { reg, rm } => {
            let o = operand_of(m, rm);
            let v: u32 = read_op_w(m, &o, false);
            m.cpu.set_reg_w(reg_of(reg), v, false);
        },
        Uop::Mov8RRm { reg, rm } => {
            let o = operand_of(m, rm);
            let v: u8 = read_op8(m, &o);
            m.cpu.set_reg8(reg_of(reg), v);
        },
        Uop::MovRImm { reg, imm } => m.cpu.set_reg_w(reg_of(reg), imm, true),
        Uop::MovRmImm { rm, imm } => {
            let o = operand_of(m, rm);
            write_op_w(m, &o, imm, true);
        },
        Uop::MovRm8Imm { rm, imm } => {
            let o = operand_of(m, rm);
            write_op8(m, &o, imm);
        },
        Uop::MovAMoffs { load, seg, off } => {
            let o = operand_at(m, seg, off);
            if load {
                let v: u32 = read_op_w(m, &o, true);
                m.cpu.set_reg_w(AX, v, true);
            } else {
                let v: u32 = m.cpu.reg_w(AX, true);
                write_op_w(m, &o, v, true);
            }
        },
        Uop::Mov8AMoffs { load, seg, off } => {
            let o = operand_at(m, seg, off);
            if load {
                let v: u8 = read_op8(m, &o);
                m.cpu.set_reg8(0, v);
            } else {
                let v: u8 = m.cpu.reg8(0);
                write_op8(m, &o, v);
            }
        },
        Uop::Lea { reg, mem } => {
            let off: u32 = off_of(m, &mem);
            m.cpu.set_reg_w(reg_of(reg), off, true);
        },
        Uop::XchgAR { reg } => {
            let a: u32 = m.cpu.reg_w(AX, true);
            let b: u32 = m.cpu.reg_w(reg_of(reg), true);
            m.cpu.set_reg_w(AX, b, true);
            m.cpu.set_reg_w(reg_of(reg), a, true);
        },
        Uop::MovzxB { reg, rm } => {
            let o = operand_of(m, rm);
            let v: u8 = read_op8(m, &o);
            m.cpu.set_reg_w(reg_of(reg), v as u32, true);
        },
        Uop::MovzxW { reg, rm } => {
            let o = operand_of(m, rm);
            let v: u16 = read_op16(m, &o);
            m.cpu.set_reg_w(reg_of(reg), v as u32, true);
        },
        Uop::MovsxB { reg, rm } => {
            let o = operand_of(m, rm);
            let v: u8 = read_op8(m, &o);
            m.cpu.set_reg_w(reg_of(reg), sext8_32(v), true);
        },
        Uop::MovsxW { reg, rm } => {
            let o = operand_of(m, rm);
            let v: u16 = read_op16(m, &o);
            m.cpu.set_reg_w(reg_of(reg), sext16_32(v), true);
        },
        Uop::Cmov { cc, reg, rm } => {
            let o = operand_of(m, rm);
            let v: u32 = read_op_w(m, &o, true);
            if condition(&m.cpu, cc) {
                m.cpu.set_reg_w(reg_of(reg), v, true);
            }
        },
        Uop::SetCC { cc, rm } => {
            let o = operand_of(m, rm);
            let v: u8 = if condition(&m.cpu, cc) {
                1
            } else {
                0
            };
            write_op8(m, &o, v);
        },
        _ => {
            let v: u32 = if m.cpu.reg32(AX) >= 0x8000_0000 {
                0xFFFF_FFFF
            } else {
                0
            };
            m.cpu.set_reg32(DX, v);
        },
    }
}

fn alu8_to(m: &mut Machine, kind: u8, o: &Operand, a: u8, b: u8)
    requires
        o.wf(),
    ensures
        final(m)@ == old(m)@.alu8_to(kind, *o, a, b),
{
    let v: u8 = alu8(&mut m.cpu, kind, a, b);
    if kind != 7 {
        write_op8(m, o, v);
    }
}

fn alu_w_to(m: &mut Machine, kind: u8, o: &Operand, a: u32, b: u32)
    requires
        o.wf(),
    ensures
        final(m)@ == old(m)@.alu_w_to(kind, *o, a, b, true),
{
    let v: u32 = alu_w(&mut m.cpu, kind, a, b, true);
    if kind != 7 {
        write_op_w(m, o, v, true);
    }
}

fn exec_alu(m: &mut Machine, u: Uop)
    ensures
        final(m)@ == old(m)@.uop_alu(u),
{
    proof {
        reveal(State::uop_alu);
    }
    match u {
        Uop::Alu8RmR { kind, rm, reg } => {
            let o = operand_of(m, rm);
            let a: u8 = read_op8(m, &o);
            let b: u8 = m.cpu.reg8(reg_of(reg));
            alu8_to(m, kind, &o, a, b);
        },
        Uop::AluRmR { kind, rm, reg } => {
            let o = operand_of(m, rm);
            let a: u32 = read_op_w(m, &o, true);
            let b: u32 = m.cpu.reg_w(reg_of(reg), true);
            alu_w_to(m, kind, &o, a, b);
        },
        Uop::Alu8RRm { kind, reg, rm } => {
            let o = operand_of(m, rm);
            let a: u8 = m.cpu.reg8(reg_of(reg));
            let b: u8 = read_op8(m, &o);
            alu8_to(m, kind, &Operand::Reg(reg_of(reg)), a, b);
        },
        Uop::AluRRm { kind, reg, rm } => {
            let o = operand_of(m, rm);
            let a: u32 = m.cpu.reg_w(reg_of(reg), true);
            let b: u32 = read_op_w(m, &o, true);
            alu_w_to(m, kind, &Operand::Reg(reg_of(reg)), a, b);
        },
        Uop::Alu8AImm { kind, imm } => {
            let a: u8 = m.cpu.reg8(0);
            alu8_to(m, kind, &Operand::Reg(AX), a, imm);
        },
        Uop::AluAImm { kind, imm } => {
            let a: u32 = m.cpu.reg_w(AX, true);
            alu_w_to(m, kind, &Operand::Reg(AX), a, imm);
        },
        Uop::Grp18RmImm { kind, rm, imm } => {
            let o = operand_of(m, rm);
            let a: u8 = read_op8(m, &o);
            alu8_to(m, kind, &o, a, imm);
        },
        Uop::Grp1RmImm { kind, rm, imm } => {
            let o = operand_of(m, rm);
            let a: u32 = read_op_w(m, &o, true);
            alu_w_to(m, kind, &o, a, imm);
        },
        Uop::Test8RmR { rm, reg } => {
            let o = operand_of(m, rm);
            let a: u8 = read_op8(m, &o);
            let b: u8 = m.cpu.reg8(reg_of(reg));
            let _ = alu8(&mut m.cpu, 4, a, b);
        },
        Uop::TestRmR { rm, reg } => {
            let o = operand_of(m, rm);
            let a: u32 = read_op_w(m, &o, true);
            let b: u32 = m.cpu.reg_w(reg_of(reg), true);
            let _ = alu_w(&mut m.cpu, 4, a, b, true);
        },
        Uop::Test8AImm { imm } => {
            let a: u8 = m.cpu.reg8(0);
            let _ = alu8(&mut m.cpu, 4, a, imm);
        },
        Uop::TestAImm { imm } => {
            let a: u32 = m.cpu.reg_w(AX, true);
            let _ = alu_w(&mut m.cpu, 4, a, imm, true);
        },
        Uop::ImulRRm { reg, rm } => {
            let o = operand_of(m, rm);
            let a: i64 = signed_w(m.cpu.reg_w(reg_of(reg), true), true);
            let v: u32 = read_op_w(m, &o, true);
            imul_to(m, reg_of(reg), a, signed_w(v, true), true);
        },
        Uop::ImulRRmI { reg, rm, imm } => {
            let o = operand_of(m, rm);
            let v: u32 = read_op_w(m, &o, true);
            imul_to(m, reg_of(reg), signed_w(v, true), signed_w(imm, true), true);
        },
        _ => {},
    }
}

fn inc_dec_reg(m: &mut Machine, reg: usize, dec: bool)
    requires
        reg < 8,
    ensures
        final(m)@ == old(m)@.inc_dec_reg(reg, dec),
{
    let a: u32 = m.cpu.reg_w(reg, true);
    let v: u32 = inc_dec_w(&mut m.cpu, a, dec, true);
    m.cpu.set_reg_w(reg, v, true);
}

fn shift_exec(m: &mut Machine, kind: u8, o: &Operand, count: u8)
    requires
        o.wf(),
    ensures
        final(m)@ == old(m)@.shift_operand(kind, *o, count),
{
    proof {
        reveal(State::shift_operand);
    }
    let a: u32 = read_op_w(m, o, true);
    let v: u32 = shift_rot(&mut m.cpu, kind, a, count, 32);
    write_op_w(m, o, v, true);
}

fn shxd_exec(m: &mut Machine, o: &Operand, reg: usize, raw: u8, left: bool)
    requires
        o.wf(),
        reg < 8,
    ensures
        final(m)@ == old(m)@.double_shift_operand(*o, reg, raw, left),
{
    proof {
        reveal(State::double_shift_operand);
    }
    let count: u32 = (raw % 32) as u32;
    if count == 0 {
        return;
    }
    let dst: u32 = read_op_w(m, o, true);
    let src: u32 = m.cpu.reg_w(reg, true);
    let (r, cf) = shxd(dst, src, count, left, true);
    write_op_w(m, o, r, true);
    m.cpu.set_flag(CF, cf);
    set_szp_w(&mut m.cpu, r, true);
}

fn exec_grp3b(m: &mut Machine, kind: u8, rm: Rm, imm: u8)
    ensures
        final(m)@ == old(m)@.uop_grp3b(kind, rm, imm),
{
    proof {
        reveal(State::uop_grp3b);
    }
    let o = operand_of(m, rm);
    let a: u8 = read_op8(m, &o);
    if kind == 0 || kind == 1 {
        let _ = alu8(&mut m.cpu, 4, a, imm);
    } else if kind == 2 {
        write_op8(m, &o, !a);
    } else {
        let r: u8 = alu8(&mut m.cpu, 5, 0, a);
        m.cpu.set_flag(CF, a != 0);
        write_op8(m, &o, r);
    }
}

fn exec_grp3w(m: &mut Machine, kind: u8, rm: Rm, imm: u32)
    ensures
        final(m)@ == old(m)@.uop_grp3w(kind, rm, imm),
{
    proof {
        reveal(State::uop_grp3w);
    }
    let o = operand_of(m, rm);
    let a: u32 = read_op_w(m, &o, true);
    if kind == 0 || kind == 1 {
        let _ = alu_w(&mut m.cpu, 4, a, imm, true);
    } else if kind == 2 {
        write_op_w(m, &o, !a, true);
    } else {
        let r: u32 = alu_w(&mut m.cpu, 5, 0, a, true);
        m.cpu.set_flag(CF, a != 0);
        write_op_w(m, &o, r, true);
    }
}

fn exec_grp5(m: &mut Machine, kind: u8, rm: Rm)
    ensures
        final(m)@ == old(m)@.uop_grp5(kind, rm),
{
    proof {
        reveal(State::uop_grp5);
    }
    let o = operand_of(m, rm);
    let a: u32 = read_op_w(m, &o, true);
    if kind == 0 || kind == 1 {
        let r: u32 = inc_dec_w(&mut m.cpu, a, kind != 0, true);
        write_op_w(m, &o, r, true);
    } else if kind == 2 {
        let ret: u32 = m.cpu.ip;
        push_w(m, ret, true);
        m.cpu.set_ip(a);
    } else if kind == 4 {
        m.cpu.set_ip(a);
    } else {
        push_w(m, a, true);
    }
}

fn jump_rel(m: &mut Machine, rel: u32)
    ensures
        final(m)@ == old(m)@.jump_rel(rel),
{
    let ip: u32 = m.cpu.ip.wrapping_add(rel);
    m.cpu.set_ip(ip);
}

fn exec_flow(m: &mut Machine, u: Uop)
    ensures
        final(m)@ == old(m)@.uop_flow(u),
{
    proof {
        reveal(State::uop_flow);
    }
    match u {
        Uop::Jcc { cc, rel } => {
            if condition(&m.cpu, cc) {
                jump_rel(m, rel);
            }
        },
        Uop::JmpRel { rel } => jump_rel(m, rel),
        Uop::CallRel { rel } => {
            let ret: u32 = m.cpu.ip;
            push_w(m, ret, true);
            m.cpu.set_ip(ret.wrapping_add(rel));
        },
        Uop::Ret => {
            let ip: u32 = pop_w(m, true);
            m.cpu.set_ip(ip);
        },
        Uop::PushR { reg } => {
            let v: u32 = m.cpu.reg_w(reg_of(reg), true);
            push_w(m, v, true);
        },
        Uop::PopR { reg } => {
            let v: u32 = pop_w(m, true);
            m.cpu.set_reg_w(reg_of(reg), v, true);
        },
        Uop::PushImm { imm } => push_w(m, imm, true),
        _ => {
            let bp: u32 = m.cpu.reg_w(BP, m.cpu.seg_is32(SS));
            sp_write(m, bp);
            let v: u32 = pop_w(m, true);
            m.cpu.set_reg_w(BP, v, true);
        },
    }
}

/// Carries out a decoded instruction, the instruction pointer already behind it.
pub fn exec(m: &mut Machine, u: Uop)
    requires
        old(m)@.exec_uop(u) is Some,
    ensures
        Some(final(m)@) == old(m)@.exec_uop(u),
{
    proof {
        reveal(State::exec_uop);
    }
    if let Some(op) = prefixed_opcode(u) {
        note_prefixed(m, op);
    }
    exec_effect(m, u);
}

fn exec_effect(m: &mut Machine, u: Uop)
    requires
        old(m)@.uop_effect(u) is Some,
    ensures
        Some(final(m)@) == old(m)@.uop_effect(u),
{
    proof {
        reveal(State::uop_effect);
    }
    match u {
        Uop::Alu8RmR { .. } | Uop::AluRmR { .. } | Uop::Alu8RRm { .. } => exec_alu(m, u),
        Uop::AluRRm { .. } | Uop::Alu8AImm { .. } | Uop::AluAImm { .. } => exec_alu(m, u),
        Uop::Grp18RmImm { .. } | Uop::Grp1RmImm { .. } | Uop::Test8RmR { .. } => exec_alu(m, u),
        Uop::TestRmR { .. } | Uop::Test8AImm { .. } | Uop::TestAImm { .. } => exec_alu(m, u),
        Uop::ImulRRm { .. } | Uop::ImulRRmI { .. } => exec_alu(m, u),
        Uop::Jcc { .. } | Uop::JmpRel { .. } | Uop::CallRel { .. } => exec_flow(m, u),
        Uop::Ret | Uop::PushR { .. } | Uop::PopR { .. } => exec_flow(m, u),
        Uop::PushImm { .. } | Uop::Leave => exec_flow(m, u),
        Uop::IncR { reg } => inc_dec_reg(m, reg_of(reg), false),
        Uop::DecR { reg } => inc_dec_reg(m, reg_of(reg), true),
        Uop::ShiftRmImm { kind, rm, count } => {
            let o = operand_of(m, rm);
            shift_exec(m, kind, &o, count);
        },
        Uop::ShiftRmCl { kind, rm } => {
            let o = operand_of(m, rm);
            let count: u8 = m.cpu.reg8(1);
            shift_exec(m, kind, &o, count);
        },
        Uop::ShxdImm { rm, reg, imm, left } => {
            let o = operand_of(m, rm);
            shxd_exec(m, &o, reg_of(reg), imm, left);
        },
        Uop::ShxdCl { rm, reg, left } => {
            let o = operand_of(m, rm);
            let count: u8 = m.cpu.reg8(1);
            shxd_exec(m, &o, reg_of(reg), count, left);
        },
        Uop::BitScan { reg, rm, reverse } => {
            let o = operand_of(m, rm);
            let v: u32 = read_op_w(m, &o, true);
            if let Some(pos) = bit_scan(&mut m.cpu, v, reverse) {
                m.cpu.set_reg_w(reg_of(reg), pos, true);
            }
        },
        Uop::Grp3b { kind, rm, imm } => exec_grp3b(m, kind, rm, imm),
        Uop::Grp3w { kind, rm, imm } => exec_grp3w(m, kind, rm, imm),
        Uop::Grp5 { kind, rm } => exec_grp5(m, kind, rm),
        Uop::StrOne { op, seg, o16 } => {
            let d = string_decoder(seg, None, o16);
            string::exec(m, &d, op);
        },
        Uop::StrRep { op, seg, rep, o16 } => {
            let d = string_decoder(seg, Some(rep), o16);
            string::exec(m, &d, op);
        },
        _ => exec_move(m, u),
    }
}

} // verus!
