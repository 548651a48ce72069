//! The one-byte opcodes.

use vstd::prelude::*;
use crate::bits::{low_w, signed8, signed_w};
use crate::cpu::alu::{alu8, alu_w, condition, inc_dec_w, narrow, width};
use crate::cpu::decimal::{aaa_aas, aad, aam, daa_das};
use crate::cpu::fpu;
use crate::cpu::group::{far_jump, grp2, grp3_byte, grp3_word, grp4, grp5, read_far, set_cf_of};
use crate::cpu::interrupt::{gp_fault, interrupt, io_permitted, iret, software_int, undefined};
use crate::cpu::operand::{
    fetch16, fetch32, fetch8, fetch_rel_w, fetch_w, modrm, pop_w, push_w, read_op16, read_op8,
    read_op_w, segment_fault, segment_of, sext8_16, sext8_32, sext16_32, sp_up, sp_write,
    write_op16, write_op8, write_op_w, Decoder, Operand,
};
use crate::cpu::segment::{far_call, far_ret, load_seg};
use crate::cpu::state::{
    AX, BP, BX, CF, CS, CX, DF, DI, DS, DX, ES, IF, OF, SI, SP, SS, ZF,
};
use crate::cpu::string;
use crate::cpu::twobyte;
use crate::machine::{Machine, State, TrapReason};

verus! {

/// An immediate byte, sign-extended to the operand width.
#[verifier::allow_in_spec]
pub fn sext8_w(v: u8, wide: bool) -> u32
    returns
        (if wide {
            sext8_32(v)
        } else {
            sext8_16(v) as u32
        }),
{
    if wide {
        sext8_32(v)
    } else {
        sext8_16(v) as u32
    }
}

impl State {
    /// Loads a segment register and drops whether it faulted.
    pub open spec fn load_seg_only(self, idx: usize, sel: u16) -> Option<State> {
        match self.load_seg(idx, sel) {
            None => None,
            Some((s, _)) => Some(s),
        }
    }

    /// A byte operation: the result is written back unless it is a comparison.
    pub open spec fn alu8_to(self, kind: u8, rm: Operand, a: u8, b: u8) -> State {
        let s = self.with_cpu(self.cpu.after_alu(kind, a as u32, b as u32, 0));
        if kind == 7 {
            s
        } else {
            s.write_op8(
                rm,
                crate::cpu::alu::alu_value(self.cpu, kind, a as u32, b as u32, 0) as u8,
            )
        }
    }

    /// A word operation.
    pub open spec fn alu_w_to(self, kind: u8, rm: Operand, a: u32, b: u32, w: bool) -> State {
        let s = self.with_cpu(self.cpu.after_alu(kind, narrow(a, w), narrow(b, w), width(w)));
        if kind == 7 {
            s
        } else {
            s.write_op_w(
                rm,
                crate::cpu::alu::alu_value(
                    self.cpu,
                    kind,
                    narrow(a, w),
                    narrow(b, w),
                    width(w),
                ),
                w,
            )
        }
    }

    /// The two-operand arithmetic of opcodes 00 to 3F: six forms of each of the
    /// eight operations.
    #[verifier::opaque]
    pub open spec fn alu_grid(self, d: Decoder, op: u8) -> State {
        let kind = (op / 8 % 8) as u8;
        let form = op % 8;
        let w = d.opsize32;
        if form == 0 {
            let (s1, reg, rm) = self.modrm(d);
            let (s2, a) = s1.read_op8(rm);
            s2.alu8_to(kind, rm, a, s2.cpu.reg8(reg))
        } else if form == 1 {
            let (s1, reg, rm) = self.modrm(d);
            let (s2, a) = s1.read_op_w(rm, w);
            s2.alu_w_to(kind, rm, a, s2.cpu.reg_w(reg, w), w)
        } else if form == 2 {
            let (s1, reg, rm) = self.modrm(d);
            let a = s1.cpu.reg8(reg);
            let (s2, b) = s1.read_op8(rm);
            s2.alu8_to(kind, Operand::Reg(reg), a, b)
        } else if form == 3 {
            let (s1, reg, rm) = self.modrm(d);
            let a = s1.cpu.reg_w(reg, w);
            let (s2, b) = s1.read_op_w(rm, w);
            s2.alu_w_to(kind, Operand::Reg(reg), a, b, w)
        } else if form == 4 {
            let (s1, b) = self.fetch8();
            s1.alu8_to(kind, Operand::Reg(AX), s1.cpu.reg8(0), b)
        } else {
            let (s1, b) = self.fetch_w(w);
            s1.alu_w_to(kind, Operand::Reg(AX), s1.cpu.reg_w(AX, w), b, w)
        }
    }

    /// Arithmetic with an immediate: opcodes 80, 81 and 83.
    #[verifier::opaque]
    pub open spec fn grp1(self, d: Decoder, op: u8) -> State {
        let w = d.opsize32;
        let (s1, kind, rm) = self.modrm(d);
        if op == 0x80 {
            let (s2, a) = s1.read_op8(rm);
            let (s3, b) = s2.fetch8();
            s3.alu8_to(kind as u8, rm, a, b)
        } else {
            let (s2, a) = s1.read_op_w(rm, w);
            let (s3, b) = if op == 0x81 {
                s2.fetch_w(w)
            } else {
                let (s3, v) = s2.fetch8();
                (s3, sext8_w(v, w))
            };
            s3.alu_w_to(kind as u8, rm, a, b, w)
        }
    }

    /// The operand in memory that opcodes A0 to A3 name.
    pub open spec fn moffs(self, d: Decoder) -> (State, Operand) {
        let (s, off) = self.fetch_w(d.addrsize32);
        (s, s.mem_operand(d, DS, off))
    }

    /// Moves between registers and memory, and of immediates.
    #[verifier::opaque]
    pub open spec fn moves(self, d: Decoder, op: u8) -> State {
        let w = d.opsize32;
        if op == 0x88 {
            let (s, reg, rm) = self.modrm(d);
            s.write_op8(rm, s.cpu.reg8(reg))
        } else if op == 0x89 {
            let (s, reg, rm) = self.modrm(d);
            s.write_op_w(rm, s.cpu.reg_w(reg, w), w)
        } else if op == 0x8A {
            let (s, reg, rm) = self.modrm(d);
            let (t, v) = s.read_op8(rm);
            t.with_cpu(t.cpu.with_reg8(reg, v))
        } else if op == 0x8B {
            let (s, reg, rm) = self.modrm(d);
            let (t, v) = s.read_op_w(rm, w);
            t.with_cpu(t.cpu.with_reg_w(reg, v, w))
        } else if 0xB0 <= op <= 0xB7 {
            let (s, v) = self.fetch8();
            s.with_cpu(s.cpu.with_reg8((op % 8) as usize, v))
        } else if 0xB8 <= op <= 0xBF {
            let (s, v) = self.fetch_w(w);
            s.with_cpu(s.cpu.with_reg_w((op % 8) as usize, v, w))
        } else if op == 0xC6 {
            let (s, _, rm) = self.modrm(d);
            let (t, v) = s.fetch8();
            t.write_op8(rm, v)
        } else if op == 0xC7 {
            let (s, _, rm) = self.modrm(d);
            let (t, v) = s.fetch_w(w);
            t.write_op_w(rm, v, w)
        } else if op == 0xA0 {
            let (s, rm) = self.moffs(d);
            let (t, v) = s.read_op8(rm);
            t.with_cpu(t.cpu.with_reg8(0, v))
        } else if op == 0xA1 {
            let (s, rm) = self.moffs(d);
            let (t, v) = s.read_op_w(rm, w);
            t.with_cpu(t.cpu.with_reg_w(AX, v, w))
        } else if op == 0xA2 {
            let (s, rm) = self.moffs(d);
            s.write_op8(rm, s.cpu.reg8(0))
        } else {
            let (s, rm) = self.moffs(d);
            s.write_op_w(rm, s.cpu.reg_w(AX, w), w)
        }
    }

    pub open spec fn read_w(self, lin: u32, wide: bool) -> (State, u32) {
        if wide {
            self.read32(lin)
        } else {
            let (s, v) = self.read16(lin);
            (s, v as u32)
        }
    }

    /// Moves from and to segment registers, and the loads of far pointers.
    #[verifier::opaque]
    pub open spec fn segment_moves(self, d: Decoder, op: u8, start_ip: u32) -> Option<State> {
        if op == 0x8C {
            let (s, reg, rm) = self.modrm(d);
            if reg > 5 {
                Some(s.trapped(TrapReason::SegmentRegister { number: reg as u8, load: false }))
            } else {
                Some(s.write_op16(rm, s.cpu.sregs[reg as int]))
            }
        } else if op == 0x8E {
            let (s, reg, rm) = self.modrm(d);
            if reg == CS {
                s.undefined(start_ip)
            } else if reg > 5 {
                Some(s.trapped(TrapReason::SegmentRegister { number: reg as u8, load: true }))
            } else {
                let (t, v) = s.read_op16(rm);
                t.load_seg_only(reg, v)
            }
        } else if op == 0x06 || op == 0x0E || op == 0x16 || op == 0x1E {
            Some(self.push_w(self.cpu.sregs[(op / 8 % 4) as int] as u32, d.opsize32))
        } else if op == 0x07 || op == 0x17 || op == 0x1F {
            let (s, v) = self.pop_w(d.opsize32);
            s.load_seg_only((op / 8 % 4) as usize, v as u16)
        } else {
            let (s, reg, rm) = self.modrm(d);
            match rm {
                Operand::Reg(_) => None,
                Operand::Mem { addr, .. } => {
                    let (t, off, sel) = s.read_far(addr, d.opsize32);
                    match t.load_seg(if op == 0xC4 { ES } else { DS }, sel) {
                        None => None,
                        Some((u, ok)) => if ok {
                            Some(u.with_cpu(u.cpu.with_reg_w(reg, off, d.opsize32)))
                        } else {
                            Some(u)
                        },
                    }
                },
            }
        }
    }

    pub open spec fn push_reg(self, r: usize, w: bool) -> State {
        self.push_w(self.cpu.reg_w(r, w), w)
    }

    pub open spec fn pop_reg(self, r: usize, w: bool) -> State {
        let (s, v) = self.pop_w(w);
        s.with_cpu(s.cpu.with_reg_w(r, v, w))
    }

    /// The frame pointers of the enclosing levels that ENTER copies.
    #[verifier::opaque]
    pub open spec fn enter_levels(self, n: nat, w: bool, sw: bool) -> State
        decreases n,
    {
        if n == 0 {
            self
        } else {
            let b = self.cpu.reg_w(BP, sw).wrapping_sub(if w { 4 } else { 2 });
            let s1 = self.with_cpu(self.cpu.with_reg_w(BP, b, sw));
            let (s2, v) = s1.read_w(s1.cpu.lin(SS, b), w);
            s2.push_w(v, w).enter_levels((n - 1) as nat, w, sw)
        }
    }

    /// ENTER: a stack frame with room for `size` bytes, within `level` levels of
    /// enclosing frames. The new top of the stack is touched.
    #[verifier::opaque]
    pub open spec fn enter(self, d: Decoder) -> State {
        let w = d.opsize32;
        let sw = self.cpu.seg_is32(SS);
        let (s1, size) = self.fetch16();
        let (s2, lv) = s1.fetch8();
        let level = lv % 32;
        let s3 = s2.push_reg(BP, w);
        let frame = s3.cpu.regs[SP as int];
        let s4 = if level > 0 {
            s3.enter_levels((level - 1) as nat, w, sw).push_w(frame, w)
        } else {
            s3
        };
        let s5 = s4.with_cpu(s4.cpu.with_reg_w(BP, frame, sw));
        s5.reserve(size)
    }

    /// Makes room on the stack and touches the new top.
    #[verifier::opaque]
    pub open spec fn reserve(self, size: u16) -> State {
        let sp = self.cpu.sp().wrapping_sub(size as u32);
        let s = match self.translate(self.cpu.lin(SS, narrow(sp, self.cpu.seg_is32(SS))), true) {
            Ok(_) => self,
            Err(f) => self.with_fault(f),
        };
        s.with_cpu(s.cpu.with_sp(sp))
    }

    /// PUSH and POP of registers and immediates, PUSHA, POPA, ENTER and LEAVE.
    #[verifier::opaque]
    pub open spec fn stack_ops(self, d: Decoder, op: u8) -> State {
        let w = d.opsize32;
        if 0x50 <= op <= 0x57 {
            self.push_reg((op % 8) as usize, w)
        } else if 0x58 <= op <= 0x5F {
            self.pop_reg((op % 8) as usize, w)
        } else if op == 0x60 {
            let sp = self.cpu.reg_w(SP, w);
            self.push_reg(AX, w).push_reg(CX, w).push_reg(DX, w).push_reg(BX, w).push_w(
                sp,
                w,
            ).push_reg(BP, w).push_reg(SI, w).push_reg(DI, w)
        } else if op == 0x61 {
            self.pop_reg(DI, w).pop_reg(SI, w).pop_reg(BP, w).pop_w(w).0.pop_reg(BX, w).pop_reg(
                DX,
                w,
            ).pop_reg(CX, w).pop_reg(AX, w)
        } else if op == 0x68 {
            let (s, v) = self.fetch_w(w);
            s.push_w(v, w)
        } else if op == 0x6A {
            let (s, v) = self.fetch8();
            s.push_w(sext8_32(v), w)
        } else if op == 0xC8 {
            self.enter(d)
        } else if op == 0xC9 {
            let s = self.with_cpu(
                self.cpu.with_sp(self.cpu.reg_w(BP, self.cpu.seg_is32(SS))),
            );
            s.pop_reg(BP, w)
        } else {
            let (s, v) = self.pop_w(w);
            let (t, _, rm) = s.modrm(d);
            t.write_op_w(rm, v, w)
        }
    }

    /// The flags that POPF may change.
    pub open spec fn popf_mask(self, wide: bool) -> u32 {
        let m0: u32 = if !self.profile.has_cpuid {
            0x0FD5
        } else if wide {
            0x0024_7FD5
        } else {
            0x7FD5
        };
        let m1 = if self.cpu.pe() && self.cpu.cpl() > 0 { m0 & !0x3000u32 } else { m0 };
        if self.cpu.pe() && self.cpu.cpl() > self.cpu.iopl() {
            m1 & !IF
        } else {
            m1
        }
    }

    /// PUSHF, POPF, SAHF, LAHF and the instructions that set or clear a flag.
    #[verifier::opaque]
    pub open spec fn flag_ops(self, d: Decoder, op: u8, start_ip: u32) -> Option<State> {
        let c = self.cpu;
        if op == 0x9C {
            if c.vm86() && c.iopl() < 3 {
                self.gp_fault(start_ip, 0)
            } else {
                let f = c.eflags() | 0x0002;
                if d.opsize32 {
                    Some(self.push_w(f & 0x00FC_FFFF, true))
                } else if self.profile.has_fpu {
                    Some(self.push_w((((f as u16) & 0x7FFF) | 0x0002) as u32, false))
                } else {
                    Some(self.push_w(((f as u16) | 0xF002) as u32, false))
                }
            }
        } else if op == 0x9D {
            if c.vm86() && c.iopl() < 3 {
                self.gp_fault(start_ip, 0)
            } else {
                let (s, f) = self.pop_w(d.opsize32);
                let mask = s.popf_mask(d.opsize32);
                Some(
                    s.with_cpu(
                        s.cpu.with_eflags((s.cpu.eflags() & !mask) | (f & mask) | 0x0002),
                    ),
                )
            }
        } else if op == 0x9E {
            let ah = c.reg8(4) as u32;
            Some(self.with_cpu(c.with_eflags((c.eflags() & !0xD5u32) | (ah & 0xD5) | 0x0002)))
        } else if op == 0x9F {
            Some(self.with_cpu(c.with_reg8(4, ((c.eflags() as u8) & 0xD5) | 0x02)))
        } else if op == 0xF5 {
            Some(self.with_cpu(c.with_flag(CF, !c.flag(CF))))
        } else if op == 0xF8 || op == 0xF9 {
            Some(self.with_cpu(c.with_flag(CF, op == 0xF9)))
        } else if op == 0xFA || op == 0xFB {
            if c.pe() && c.cpl() > c.iopl() {
                self.gp_fault(start_ip, 0)
            } else {
                Some(self.with_cpu(c.with_flag(IF, op == 0xFB)))
            }
        } else {
            Some(self.with_cpu(c.with_flag(DF, op == 0xFD)))
        }
    }

    pub open spec fn jump_rel(self, rel: u32) -> State {
        self.with_cpu(self.cpu.with_ip(self.cpu.ip.wrapping_add(rel)))
    }

    /// Near jumps, calls, returns and loops.
    #[verifier::opaque]
    pub open spec fn near_control(self, d: Decoder, op: u8) -> State {
        let w = d.opsize32;
        let a32 = d.addrsize32;
        if 0x70 <= op <= 0x7F {
            let (s, rel) = self.fetch8();
            if condition(&s.cpu, (op % 16) as u8) {
                s.jump_rel(sext8_32(rel))
            } else {
                s
            }
        } else if op == 0xE8 {
            let (s, rel) = self.fetch_rel(w);
            let ret = s.cpu.ip;
            let t = s.push_w(ret, w);
            t.with_cpu(t.cpu.with_ip(ret.wrapping_add(rel)))
        } else if op == 0xE9 {
            let (s, rel) = self.fetch_rel(w);
            s.jump_rel(rel)
        } else if op == 0xEB {
            let (s, rel) = self.fetch8();
            s.jump_rel(sext8_32(rel))
        } else if op == 0xC3 {
            let (s, ip) = self.pop_w(w);
            s.with_cpu(s.cpu.with_ip(ip))
        } else if op == 0xC2 {
            let (s, n) = self.fetch16();
            let (t, ip) = s.pop_w(w);
            t.with_cpu(t.cpu.with_ip(ip)).sp_up(n as u32)
        } else if op == 0xE3 {
            let (s, rel) = self.fetch8();
            if s.cpu.reg_w(CX, a32) == 0 {
                s.jump_rel(sext8_32(rel))
            } else {
                s
            }
        } else {
            let (s, rel) = self.fetch8();
            let cx = s.cpu.reg_w(CX, a32).wrapping_sub(1);
            let t = s.with_cpu(s.cpu.with_reg_w(CX, cx, a32));
            let go = narrow(cx, a32) != 0 && (op == 0xE2 || t.cpu.flag(ZF) == (op == 0xE1));
            if go {
                t.jump_rel(sext8_32(rel))
            } else {
                t
            }
        }
    }

    /// Far transfers, interrupts and HLT.
    #[verifier::opaque]
    pub open spec fn far_control(self, d: Decoder, op: u8, start_ip: u32) -> Option<State> {
        let w = d.opsize32;
        if op == 0xEA {
            let (s, off) = self.fetch_w(w);
            let (t, sel) = s.fetch16();
            t.far_jump(sel, off)
        } else if op == 0x9A {
            let (s, off) = self.fetch_w(w);
            let (t, sel) = s.fetch16();
            t.far_call(sel, off, w)
        } else if op == 0xCB {
            self.far_ret(w, 0)
        } else if op == 0xCA {
            let (s, n) = self.fetch16();
            s.far_ret(w, n as u32)
        } else if op == 0xCF {
            self.iret()
        } else if op == 0xCD {
            let (s, n) = self.fetch8();
            if s.cpu.vm86() && s.cpu.iopl() < 3 {
                s.gp_fault(start_ip, 0)
            } else {
                s.software_int(n, start_ip)
            }
        } else if op == 0xCC {
            self.software_int(3, start_ip)
        } else if op == 0xCE {
            if self.cpu.flag(OF) {
                self.interrupt(4)
            } else {
                Some(self)
            }
        } else {
            if self.cpu.pe() && self.cpu.cpl() != 0 {
                self.gp_fault(start_ip, 0)
            } else {
                Some(State { halted: true, ..self })
            }
        }
    }

    /// IN and OUT. Bit 0 of the opcode is the width, bit 1 the direction, bit 3
    /// whether DX names the port.
    #[verifier::opaque]
    pub open spec fn port_ops(self, d: Decoder, op: u8, start_ip: u32) -> Option<State> {
        let (s, port) = if op / 8 % 2 == 1 {
            (self, self.cpu.reg16(DX))
        } else {
            let (s, v) = self.fetch8();
            (s, v as u16)
        };
        let bytes: u8 = if op % 2 == 0 { 1 } else if d.opsize32 { 4 } else { 2 };
        let (t, allowed) = s.io_permitted(port, bytes);
        if !allowed {
            t.gp_fault(start_ip, 0)
        } else if op / 2 % 2 == 0 {
            let (u, v) = t.io_read(port, bytes);
            Some(
                u.with_cpu(
                    if bytes == 1 {
                        u.cpu.with_reg8(0, v as u8)
                    } else {
                        u.cpu.with_reg_w(AX, v, d.opsize32)
                    },
                ),
            )
        } else {
            let v = if bytes == 1 { t.cpu.reg8(0) as u32 } else { t.cpu.reg_w(AX, d.opsize32) };
            Some(t.io_write(port, bytes, v))
        }
    }

    /// BOUND: an index outside of its bounds takes interrupt 5. Both bounds are one
    /// access to their segment.
    #[verifier::opaque]
    pub open spec fn bound(self, d: Decoder, start_ip: u32) -> Option<State> {
        let w = d.opsize32;
        let (s, reg, rm) = self.modrm(d);
        match rm {
            Operand::Reg(_) => s.undefined(start_ip),
            Operand::Mem { off, seg, .. } if !s.cpu.data_allowed(
                seg,
                off,
                if w { 8 } else { 4 },
                false,
            ) => Some(s.with_fault(segment_fault(seg))),
            Operand::Mem { addr, .. } => {
                let idx = signed_w(s.cpu.reg_w(reg, w), w);
                let (t, lo) = s.read_w(addr, w);
                let (u, hi) = t.read_w(addr.wrapping_add(if w { 4 } else { 2 }), w);
                if idx < signed_w(lo, w) || idx > signed_w(hi, w) {
                    u.with_cpu(u.cpu.with_ip(start_ip)).interrupt(5)
                } else {
                    Some(u)
                }
            },
        }
    }

    /// ARPL: the privilege of a selector is raised to that of another.
    #[verifier::opaque]
    pub open spec fn arpl(self, d: Decoder, start_ip: u32) -> Option<State> {
        if self.cpu.real_segments() {
            self.undefined(start_ip)
        } else {
            let (s, reg, rm) = self.modrm(d);
            let (t, dst) = s.read_op16(rm);
            let src = t.cpu.reg16(reg);
            if dst % 4 < src % 4 {
                Some(
                    t.with_cpu(t.cpu.with_flag(ZF, true)).write_op16(
                        rm,
                        (dst / 4 * 4 + src % 4) as u16,
                    ),
                )
            } else {
                Some(t.with_cpu(t.cpu.with_flag(ZF, false)))
            }
        }
    }

    /// A signed product into a register; carry and overflow when it does not fit.
    pub open spec fn imul_to(self, reg: usize, a: int, b: int, w: bool) -> State {
        let top: int = if w { 0x1_0000_0000 } else { 0x1_0000 };
        self.with_cpu(
            self.cpu.with_reg_w(reg, low_w((a * b) as i64, w), w).with_cf_of(
                !(-top <= 2 * (a * b) < top),
            ),
        )
    }

    /// IMUL with an immediate.
    #[verifier::opaque]
    pub open spec fn imul_imm(self, d: Decoder, op: u8) -> State {
        let w = d.opsize32;
        let (s, reg, rm) = self.modrm(d);
        let (t, a) = s.read_op_w(rm, w);
        let (u, b) = if op == 0x69 {
            let (u, v) = t.fetch_w(w);
            (u, signed_w(v, w))
        } else {
            let (u, v) = t.fetch8();
            (u, signed8(v))
        };
        u.imul_to(reg, signed_w(a, w) as int, b as int, w)
    }

    /// TEST, XCHG, INC, DEC, the sign extensions and XLAT.
    #[verifier::opaque]
    pub open spec fn misc_ops(self, d: Decoder, op: u8) -> State {
        let w = d.opsize32;
        let c = self.cpu;
        if op == 0x84 {
            let (s, reg, rm) = self.modrm(d);
            let (t, a) = s.read_op8(rm);
            t.with_cpu(t.cpu.after_alu(4, a as u32, t.cpu.reg8(reg) as u32, 0))
        } else if op == 0x85 {
            let (s, reg, rm) = self.modrm(d);
            let (t, a) = s.read_op_w(rm, w);
            t.with_cpu(
                t.cpu.after_alu(4, narrow(a, w), narrow(t.cpu.reg_w(reg, w), w), width(w)),
            )
        } else if op == 0xA8 {
            let (s, b) = self.fetch8();
            s.with_cpu(s.cpu.after_alu(4, s.cpu.reg8(0) as u32, b as u32, 0))
        } else if op == 0xA9 {
            let (s, b) = self.fetch_w(w);
            s.with_cpu(
                s.cpu.after_alu(4, narrow(s.cpu.reg_w(AX, w), w), narrow(b, w), width(w)),
            )
        } else if op == 0x86 {
            let (s, reg, rm) = self.modrm(d);
            let (t, a) = s.read_op8(rm);
            let u = t.write_op8(rm, t.cpu.reg8(reg));
            u.with_cpu(u.cpu.with_reg8(reg, a))
        } else if op == 0x87 {
            let (s, reg, rm) = self.modrm(d);
            let (t, a) = s.read_op_w(rm, w);
            let u = t.write_op_w(rm, t.cpu.reg_w(reg, w), w);
            u.with_cpu(u.cpu.with_reg_w(reg, a, w))
        } else if 0x90 <= op <= 0x97 {
            let r = (op % 8) as usize;
            let a = c.reg_w(AX, w);
            self.with_cpu(c.with_reg_w(AX, c.reg_w(r, w), w).with_reg_w(r, a, w))
        } else if 0x40 <= op <= 0x4F {
            let r = (op % 8) as usize;
            let a = narrow(c.reg_w(r, w), w);
            let dec = op >= 0x48;
            self.with_cpu(
                c.after_inc_dec(a, dec, width(w)).with_reg_w(
                    r,
                    crate::cpu::alu::inc_dec_value(a, dec, width(w)),
                    w,
                ),
            )
        } else if op == 0x98 {
            self.with_cpu(
                if w {
                    c.with_reg(AX, sext16_32(c.reg16(AX)))
                } else {
                    c.with_reg16(AX, sext8_16(c.reg8(0)))
                },
            )
        } else if op == 0x99 {
            self.with_cpu(
                if w {
                    c.with_reg(DX, if c.reg32(AX) >= 0x8000_0000 { 0xFFFF_FFFFu32 } else { 0 })
                } else {
                    c.with_reg16(DX, if c.reg16(AX) >= 0x8000 { 0xFFFFu16 } else { 0 })
                },
            )
        } else {
            let off = if d.addrsize32 {
                c.regs[BX as int].wrapping_add(c.reg8(0) as u32)
            } else {
                c.reg16(BX).wrapping_add(c.reg8(0) as u16) as u32
            };
            let (s, v) = self.read8(c.lin(segment_of(&d, DS), off));
            s.with_cpu(s.cpu.with_reg8(0, v))
        }
    }

    /// LEA: the offset of an operand. A register has none.
    #[verifier::opaque]
    pub open spec fn lea(self, d: Decoder) -> Option<State> {
        let (s, reg, rm) = self.modrm(d);
        match rm {
            Operand::Mem { off, .. } => Some(
                s.with_cpu(s.cpu.with_reg_w(reg, off, d.opsize32)),
            ),
            Operand::Reg(_) => None,
        }
    }

    /// An FPU instruction. Without an FPU only the operand is decoded.
    #[verifier::opaque]
    pub open spec fn esc(self, d: Decoder, op: u8) -> State {
        let (s, reg, rm) = self.modrm(d);
        if s.profile.has_fpu {
            s.fpu_exec(op, reg, rm)
        } else {
            s
        }
    }

    /// The opcodes that always have a next state.
    #[verifier::opaque]
    pub open spec fn onebyte_total(self, d: Decoder, op: u8) -> State {
        if op < 0x40 && op % 8 <= 5 {
            self.alu_grid(d, op)
        } else if op == 0x80 || op == 0x81 || op == 0x83 {
            self.grp1(d, op)
        } else if 0x88 <= op <= 0x8B || 0xB0 <= op <= 0xBF || op == 0xC6 || op == 0xC7 || 0xA0
            <= op <= 0xA3 {
            self.moves(d, op)
        } else if 0x50 <= op <= 0x61 || op == 0x68 || op == 0x6A || op == 0xC8 || op == 0xC9 || op
            == 0x8F {
            self.stack_ops(d, op)
        } else if 0x70 <= op <= 0x7F || op == 0xE8 || op == 0xE9 || op == 0xEB || op == 0xC2 || op
            == 0xC3 || 0xE0 <= op <= 0xE3 {
            self.near_control(d, op)
        } else if op == 0x69 || op == 0x6B {
            self.imul_imm(d, op)
        } else if 0x84 <= op <= 0x87 || 0x90 <= op <= 0x99 || 0x40 <= op <= 0x4F || op == 0xA8 || op
            == 0xA9 || op == 0xD7 {
            self.misc_ops(d, op)
        } else if op == 0x9B {
            self
        } else if op == 0xC0 || op == 0xC1 || 0xD0 <= op <= 0xD3 {
            self.grp2(d, op)
        } else if op == 0xFE {
            self.grp4(d)
        } else if op == 0x27 || op == 0x2F {
            self.with_cpu(self.cpu.after_daa_das(op))
        } else if op == 0x37 || op == 0x3F {
            self.with_cpu(self.cpu.after_aaa_aas(op))
        } else if op == 0xD5 {
            self.aad()
        } else if 0xD8 <= op <= 0xDF {
            self.esc(d, op)
        } else {
            self.trapped(TrapReason::Opcode { op })
        }
    }

    /// One instruction, its prefixes and opcode already read.
    #[verifier::opaque]
    pub open spec fn onebyte(self, d: Decoder, op: u8, start_ip: u32) -> Option<State> {
        if op == 0x8C || op == 0x8E || op == 0x06 || op == 0x0E || op == 0x16 || op == 0x1E || op
            == 0x07 || op == 0x17 || op == 0x1F || op == 0xC4 || op == 0xC5 {
            self.segment_moves(d, op, start_ip)
        } else if 0x9C <= op <= 0x9F || op == 0xF5 || 0xF8 <= op <= 0xFD {
            self.flag_ops(d, op, start_ip)
        } else if op == 0xEA || op == 0x9A || op == 0xCA || op == 0xCB || 0xCC <= op <= 0xCF || op
            == 0xF4 {
            self.far_control(d, op, start_ip)
        } else if 0xE4 <= op <= 0xE7 || 0xEC <= op <= 0xEF {
            self.port_ops(d, op, start_ip)
        } else if op == 0x62 {
            self.bound(d, start_ip)
        } else if op == 0x63 {
            self.arpl(d, start_ip)
        } else if op == 0x8D {
            self.lea(d)
        } else if op == 0xF6 {
            self.grp3_byte(d, start_ip)
        } else if op == 0xF7 {
            self.grp3_word(d, start_ip)
        } else if op == 0xFF {
            self.grp5(d)
        } else if op == 0xD4 {
            self.aam()
        } else if 0x6C <= op <= 0x6F || 0xA4 <= op <= 0xA7 || 0xAA <= op <= 0xAF {
            self.string_exec(d, op)
        } else if op == 0x0F {
            self.step_0f(d, start_ip)
        } else {
            Some(self.onebyte_total(d, op))
        }
    }
}

fn alu8_to(m: &mut Machine, kind: u8, rm: &Operand, a: u8, b: u8)
    requires
        rm.wf(),
    ensures
        final(m)@ == old(m)@.alu8_to(kind, *rm, a, b),
{
    let r: u8 = alu8(&mut m.cpu, kind, a, b);
    if kind != 7 {
        write_op8(m, rm, r);
    }
}

fn alu_w_to(m: &mut Machine, kind: u8, rm: &Operand, a: u32, b: u32, w: bool)
    requires
        rm.wf(),
    ensures
        final(m)@ == old(m)@.alu_w_to(kind, *rm, a, b, w),
{
    let r: u32 = alu_w(&mut m.cpu, kind, a, b, w);
    if kind != 7 {
        write_op_w(m, rm, r, w);
    }
}

fn alu_grid(m: &mut Machine, d: &Decoder, op: u8)
    requires
        d.wf(),
    ensures
        final(m)@ == old(m)@.alu_grid(*d, op),
{
    proof {
        reveal(State::alu_grid);
    }
    let kind: u8 = op / 8 % 8;
    let form: u8 = op % 8;
    let w = d.opsize32;
    if form == 0 {
        let (reg, rm) = modrm(m, d);
        let a: u8 = read_op8(m, &rm);
        let b: u8 = m.cpu.reg8(reg);
        alu8_to(m, kind, &rm, a, b);
    } else if form == 1 {
        let (reg, rm) = modrm(m, d);
        let a: u32 = read_op_w(m, &rm, w);
        let b: u32 = m.cpu.reg_w(reg, w);
        alu_w_to(m, kind, &rm, a, b, w);
    } else if form == 2 {
        let (reg, rm) = modrm(m, d);
        let a: u8 = m.cpu.reg8(reg);
        let b: u8 = read_op8(m, &rm);
        alu8_to(m, kind, &Operand::Reg(reg), a, b);
    } else if form == 3 {
        let (reg, rm) = modrm(m, d);
        let a: u32 = m.cpu.reg_w(reg, w);
        let b: u32 = read_op_w(m, &rm, w);
        alu_w_to(m, kind, &Operand::Reg(reg), a, b, w);
    } else if form == 4 {
        let b: u8 = fetch8(m);
        let a: u8 = m.cpu.reg8(0);
        alu8_to(m, kind, &Operand::Reg(AX), a, b);
    } else {
        let b: u32 = fetch_w(m, w);
        let a: u32 = m.cpu.reg_w(AX, w);
        alu_w_to(m, kind, &Operand::Reg(AX), a, b, w);
    }
}

fn grp1(m: &mut Machine, d: &Decoder, op: u8)
    requires
        d.wf(),
    ensures
        final(m)@ == old(m)@.grp1(*d, op),
{
    proof {
        reveal(State::grp1);
    }
    let w = d.opsize32;
    let (kind, rm) = modrm(m, d);
    if op == 0x80 {
        let a: u8 = read_op8(m, &rm);
        let b: u8 = fetch8(m);
        alu8_to(m, kind as u8, &rm, a, b);
    } else {
        let a: u32 = read_op_w(m, &rm, w);
        let b: u32 = if op == 0x81 {
            fetch_w(m, w)
        } else {
            sext8_w(fetch8(m), w)
        };
        alu_w_to(m, kind as u8, &rm, a, b, w);
    }
}

fn moffs(m: &mut Machine, d: &Decoder) -> (rm: Operand)
    requires
        d.wf(),
    ensures
        rm.wf(),
        (final(m)@, rm) == old(m)@.moffs(*d),
{
    let off: u32 = fetch_w(m, d.addrsize32);
    let seg: usize = segment_of(d, DS);
    Operand::Mem { addr: m.cpu.lin(seg, off), off, seg }
}

fn read_w(m: &mut Machine, lin: u32, wide: bool) -> (v: u32)
    ensures
        (final(m)@, v) == old(m)@.read_w(lin, wide),
{
    if wide {
        m.read32(lin)
    } else {
        m.read16(lin) as u32
    }
}

fn moves(m: &mut Machine, d: &Decoder, op: u8)
    requires
        d.wf(),
    ensures
        final(m)@ == old(m)@.moves(*d, op),
{
    proof {
        reveal(State::moves);
    }
    let w = d.opsize32;
    if op == 0x88 {
        let (reg, rm) = modrm(m, d);
        let v: u8 = m.cpu.reg8(reg);
        write_op8(m, &rm, v);
    } else if op == 0x89 {
        let (reg, rm) = modrm(m, d);
        let v: u32 = m.cpu.reg_w(reg, w);
        write_op_w(m, &rm, v, w);
    } else if op == 0x8A {
        let (reg, rm) = modrm(m, d);
        let v: u8 = read_op8(m, &rm);
        m.cpu.set_reg8(reg, v);
    } else if op == 0x8B {
        let (reg, rm) = modrm(m, d);
        let v: u32 = read_op_w(m, &rm, w);
        m.cpu.set_reg_w(reg, v, w);
    } else if 0xB0 <= op && op <= 0xB7 {
        let v: u8 = fetch8(m);
        m.cpu.set_reg8((op % 8) as usize, v);
    } else if 0xB8 <= op && op <= 0xBF {
        let v: u32 = fetch_w(m, w);
        m.cpu.set_reg_w((op % 8) as usize, v, w);
    } else if op == 0xC6 {
        let (_, rm) = modrm(m, d);
        let v: u8 = fetch8(m);
        write_op8(m, &rm, v);
    } else if op == 0xC7 {
        let (_, rm) = modrm(m, d);
        let v: u32 = fetch_w(m, w);
        write_op_w(m, &rm, v, w);
    } else if op == 0xA0 {
        let rm = moffs(m, d);
        let v: u8 = read_op8(m, &rm);
        m.cpu.set_reg8(0, v);
    } else if op == 0xA1 {
        let rm = moffs(m, d);
        let v: u32 = read_op_w(m, &rm, w);
        m.cpu.set_reg_w(AX, v, w);
    } else if op == 0xA2 {
        let rm = moffs(m, d);
        let v: u8 = m.cpu.reg8(0);
        write_op8(m, &rm, v);
    } else {
        let rm = moffs(m, d);
        let v: u32 = m.cpu.reg_w(AX, w);
        write_op_w(m, &rm, v, w);
    }
}

fn segment_moves(m: &mut Machine, d: &Decoder, op: u8, start_ip: u32)
    requires
        d.wf(),
        old(m)@.segment_moves(*d, op, start_ip) is Some,
    ensures
        Some(final(m)@) == old(m)@.segment_moves(*d, op, start_ip),
{
    proof {
        reveal(State::segment_moves);
    }
    if op == 0x8C {
        let (reg, rm) = modrm(m, d);
        if reg > 5 {
            m.trap(TrapReason::SegmentRegister { number: reg as u8, load: false });
        } else {
            let v: u16 = m.cpu.sregs[reg];
            write_op16(m, &rm, v);
        }
    } else if op == 0x8E {
        let (reg, rm) = modrm(m, d);
        if reg == CS {
            undefined(m, start_ip);
        } else if reg > 5 {
            m.trap(TrapReason::SegmentRegister { number: reg as u8, load: true });
        } else {
            let v: u16 = read_op16(m, &rm);
            let _ = load_seg(m, reg, v);
        }
    } else if op == 0x06 || op == 0x0E || op == 0x16 || op == 0x1E {
        let v: u16 = m.cpu.sregs[(op / 8 % 4) as usize];
        push_w(m, v as u32, d.opsize32);
    } else if op == 0x07 || op == 0x17 || op == 0x1F {
        let v: u16 = pop_w(m, d.opsize32) as u16;
        let _ = load_seg(m, (op / 8 % 4) as usize, v);
    } else {
        let (reg, rm) = modrm(m, d);
        if let Operand::Mem { addr, .. } = rm {
            let p = read_far(m, addr, d.opsize32);
            let idx: usize = if op == 0xC4 {
                ES
            } else {
                DS
            };
            if load_seg(m, idx, p.1) {
                m.cpu.set_reg_w(reg, p.0, d.opsize32);
            }
        }
    }
}

fn push_reg(m: &mut Machine, r: usize, w: bool)
    requires
        r < 8,
    ensures
        final(m)@ == old(m)@.push_reg(r, w),
{
    let v: u32 = m.cpu.reg_w(r, w);
    push_w(m, v, w);
}

fn pop_reg(m: &mut Machine, r: usize, w: bool)
    requires
        r < 8,
    ensures
        final(m)@ == old(m)@.pop_reg(r, w),
{
    let v: u32 = pop_w(m, w);
    m.cpu.set_reg_w(r, v, w);
}

fn enter_levels(m: &mut Machine, count: u8, w: bool, sw: bool)
    ensures
        final(m)@ == old(m)@.enter_levels(count as nat, w, sw),
{
    proof {
        reveal(State::enter_levels);
    }
    let mut n: u8 = count;
    while n > 0
        invariant
            m@.enter_levels(n as nat, w, sw) == old(m)@.enter_levels(count as nat, w, sw),
        decreases n,
    {
        proof {
            reveal_with_fuel(State::enter_levels, 2);
        }
        n = n - 1;
        let b: u32 = m.cpu.reg_w(BP, sw).wrapping_sub(
            if w {
                4
            } else {
                2
            },
        );
        m.cpu.set_reg_w(BP, b, sw);
        let a: u32 = m.cpu.lin(SS, b);
        let v: u32 = read_w(m, a, w);
        push_w(m, v, w);
    }
}

fn enter(m: &mut Machine, d: &Decoder)
    ensures
        final(m)@ == old(m)@.enter(*d),
{
    proof {
        reveal(State::enter);
    }
    let w = d.opsize32;
    let sw = m.cpu.seg_is32(SS);
    let size: u16 = fetch16(m);
    let level: u8 = fetch8(m) % 32;
    push_reg(m, BP, w);
    let frame: u32 = m.cpu.regs[SP];
    if level > 0 {
        enter_levels(m, level - 1, w, sw);
        push_w(m, frame, w);
    }
    m.cpu.set_reg_w(BP, frame, sw);
    reserve(m, size);
}

fn reserve(m: &mut Machine, size: u16)
    ensures
        final(m)@ == old(m)@.reserve(size),
{
    proof {
        reveal(State::reserve);
    }
    let sp: u32 = m.cpu.sp().wrapping_sub(size as u32);
    let top: u32 = m.cpu.lin(SS, narrow(sp, m.cpu.seg_is32(SS)));
    if let Err(f) = m.translate_for(top, true) {
        m.note_fault(f);
    }
    sp_write(m, sp);
}

fn stack_ops(m: &mut Machine, d: &Decoder, op: u8)
    requires
        d.wf(),
    ensures
        final(m)@ == old(m)@.stack_ops(*d, op),
{
    proof {
        reveal(State::stack_ops);
    }
    let w = d.opsize32;
    if 0x50 <= op && op <= 0x57 {
        push_reg(m, (op % 8) as usize, w);
    } else if 0x58 <= op && op <= 0x5F {
        pop_reg(m, (op % 8) as usize, w);
    } else if op == 0x60 {
        let sp: u32 = m.cpu.reg_w(SP, w);
        push_reg(m, AX, w);
        push_reg(m, CX, w);
        push_reg(m, DX, w);
        push_reg(m, BX, w);
        push_w(m, sp, w);
        push_reg(m, BP, w);
        push_reg(m, SI, w);
        push_reg(m, DI, w);
    } else if op == 0x61 {
        pop_reg(m, DI, w);
        pop_reg(m, SI, w);
        pop_reg(m, BP, w);
        let _: u32 = pop_w(m, w);
        pop_reg(m, BX, w);
        pop_reg(m, DX, w);
        pop_reg(m, CX, w);
        pop_reg(m, AX, w);
    } else if op == 0x68 {
        let v: u32 = fetch_w(m, w);
        push_w(m, v, w);
    } else if op == 0x6A {
        let v: u8 = fetch8(m);
        push_w(m, sext8_32(v), w);
    } else if op == 0xC8 {
        enter(m, d);
    } else if op == 0xC9 {
        let bp: u32 = m.cpu.reg_w(BP, m.cpu.seg_is32(SS));
        sp_write(m, bp);
        pop_reg(m, BP, w);
    } else {
        let v: u32 = pop_w(m, w);
        let (_, rm) = modrm(m, d);
        write_op_w(m, &rm, v, w);
    }
}

fn popf_mask(m: &Machine, wide: bool) -> (r: u32)
    ensures
        r == m@.popf_mask(wide),
{
    let mut mask: u32 = if !m.profile.has_cpuid {
        0x0FD5
    } else if wide {
        0x0024_7FD5
    } else {
        0x7FD5
    };
    if m.cpu.pe() {
        if m.cpu.cpl() > 0 {
            mask = mask & !0x3000;
        }
        if m.cpu.cpl() > m.cpu.iopl() {
            mask = mask & !IF;
        }
    }
    mask
}

fn flag_ops(m: &mut Machine, d: &Decoder, op: u8, start_ip: u32)
    requires
        old(m)@.flag_ops(*d, op, start_ip) is Some,
    ensures
        Some(final(m)@) == old(m)@.flag_ops(*d, op, start_ip),
{
    proof {
        reveal(State::flag_ops);
    }
    if op == 0x9C {
        if m.cpu.vm86() && m.cpu.iopl() < 3 {
            gp_fault(m, start_ip, 0);
            return;
        }
        let f: u32 = m.cpu.eflags() | 0x0002;
        if d.opsize32 {
            push_w(m, f & 0x00FC_FFFF, true);
        } else if m.profile.has_fpu {
            push_w(m, (((f as u16) & 0x7FFF) | 0x0002) as u32, false);
        } else {
            push_w(m, ((f as u16) | 0xF002) as u32, false);
        }
    } else if op == 0x9D {
        if m.cpu.vm86() && m.cpu.iopl() < 3 {
            gp_fault(m, start_ip, 0);
            return;
        }
        let f: u32 = pop_w(m, d.opsize32);
        let mask: u32 = popf_mask(m, d.opsize32);
        let cur: u32 = m.cpu.eflags();
        m.cpu.set_eflags((cur & !mask) | (f & mask) | 0x0002);
    } else if op == 0x9E {
        let ah: u32 = m.cpu.reg8(4) as u32;
        let cur: u32 = m.cpu.eflags();
        m.cpu.set_eflags((cur & !0xD5u32) | (ah & 0xD5) | 0x0002);
    } else if op == 0x9F {
        let f: u8 = ((m.cpu.eflags() as u8) & 0xD5) | 0x02;
        m.cpu.set_reg8(4, f);
    } else if op == 0xF5 {
        let c = m.cpu.flag(CF);
        m.cpu.set_flag(CF, !c);
    } else if op == 0xF8 || op == 0xF9 {
        m.cpu.set_flag(CF, op == 0xF9);
    } else if op == 0xFA || op == 0xFB {
        if m.cpu.pe() && m.cpu.cpl() > m.cpu.iopl() {
            gp_fault(m, start_ip, 0);
            return;
        }
        m.cpu.set_flag(IF, op == 0xFB);
    } else {
        m.cpu.set_flag(DF, op == 0xFD);
    }
}

fn jump_rel(m: &mut Machine, rel: u32)
    ensures
        final(m)@ == old(m)@.jump_rel(rel),
{
    let ip: u32 = m.cpu.ip.wrapping_add(rel);
    m.cpu.set_ip(ip);
}

fn near_control(m: &mut Machine, d: &Decoder, op: u8)
    ensures
        final(m)@ == old(m)@.near_control(*d, op),
{
    proof {
        reveal(State::near_control);
    }
    let w = d.opsize32;
    let a32 = d.addrsize32;
    if 0x70 <= op && op <= 0x7F {
        let rel: u8 = fetch8(m);
        if condition(&m.cpu, op % 16) {
            jump_rel(m, sext8_32(rel));
        }
    } else if op == 0xE8 {
        let rel: u32 = fetch_rel_w(m, w);
        let ret: u32 = m.cpu.ip;
        push_w(m, ret, w);
        m.cpu.set_ip(ret.wrapping_add(rel));
    } else if op == 0xE9 {
        let rel: u32 = fetch_rel_w(m, w);
        jump_rel(m, rel);
    } else if op == 0xEB {
        let rel: u8 = fetch8(m);
        jump_rel(m, sext8_32(rel));
    } else if op == 0xC3 {
        let ip: u32 = pop_w(m, w);
        m.cpu.set_ip(ip);
    } else if op == 0xC2 {
        let n: u16 = fetch16(m);
        let ip: u32 = pop_w(m, w);
        m.cpu.set_ip(ip);
        sp_up(m, n as u32);
    } else if op == 0xE3 {
        let rel: u8 = fetch8(m);
        if m.cpu.reg_w(CX, a32) == 0 {
            jump_rel(m, sext8_32(rel));
        }
    } else {
        let rel: u8 = fetch8(m);
        let cx: u32 = m.cpu.reg_w(CX, a32).wrapping_sub(1);
        m.cpu.set_reg_w(CX, cx, a32);
        if narrow(cx, a32) != 0 && (op == 0xE2 || m.cpu.flag(ZF) == (op == 0xE1)) {
            jump_rel(m, sext8_32(rel));
        }
    }
}

fn far_control(m: &mut Machine, d: &Decoder, op: u8, start_ip: u32)
    requires
        old(m)@.far_control(*d, op, start_ip) is Some,
    ensures
        Some(final(m)@) == old(m)@.far_control(*d, op, start_ip),
{
    proof {
        reveal(State::far_control);
    }
    let w = d.opsize32;
    if op == 0xEA {
        let off: u32 = fetch_w(m, w);
        let sel: u16 = fetch16(m);
        far_jump(m, sel, off);
    } else if op == 0x9A {
        let off: u32 = fetch_w(m, w);
        let sel: u16 = fetch16(m);
        far_call(m, sel, off, w);
    } else if op == 0xCB {
        far_ret(m, w, 0);
    } else if op == 0xCA {
        let n: u16 = fetch16(m);
        far_ret(m, w, n as u32);
    } else if op == 0xCF {
        iret(m);
    } else if op == 0xCD {
        let n: u8 = fetch8(m);
        if m.cpu.vm86() && m.cpu.iopl() < 3 {
            gp_fault(m, start_ip, 0);
        } else {
            software_int(m, n, start_ip);
        }
    } else if op == 0xCC {
        software_int(m, 3, start_ip);
    } else if op == 0xCE {
        if m.cpu.flag(OF) {
            interrupt(m, 4);
        }
    } else {
        if m.cpu.pe() && m.cpu.cpl() != 0 {
            gp_fault(m, start_ip, 0);
        } else {
            m.halted = true;
        }
    }
}

fn port_ops(m: &mut Machine, d: &Decoder, op: u8, start_ip: u32)
    requires
        old(m)@.port_ops(*d, op, start_ip) is Some,
    ensures
        Some(final(m)@) == old(m)@.port_ops(*d, op, start_ip),
{
    proof {
        reveal(State::port_ops);
    }
    let port: u16 = if op / 8 % 2 == 1 {
        m.cpu.reg16(DX)
    } else {
        fetch8(m) as u16
    };
    let bytes: u8 = if op % 2 == 0 {
        1
    } else if d.opsize32 {
        4
    } else {
        2
    };
    if !io_permitted(m, port, bytes) {
        gp_fault(m, start_ip, 0);
        return;
    }
    if op / 2 % 2 == 0 {
        if bytes == 1 {
            let v: u8 = m.io_read8(port);
            m.cpu.set_reg8(0, v);
        } else if bytes == 4 {
            let v: u32 = m.io_read32(port);
            m.cpu.set_reg_w(AX, v, true);
        } else {
            let v: u16 = m.io_read16(port);
            m.cpu.set_reg_w(AX, v as u32, false);
        }
    } else {
        let v: u32 = if bytes == 1 {
            m.cpu.reg8(0) as u32
        } else {
            m.cpu.reg_w(AX, d.opsize32)
        };
        m.io_write(port, bytes, v);
    }
}

fn bound(m: &mut Machine, d: &Decoder, start_ip: u32)
    requires
        d.wf(),
        old(m)@.bound(*d, start_ip) is Some,
    ensures
        Some(final(m)@) == old(m)@.bound(*d, start_ip),
{
    proof {
        reveal(State::bound);
    }
    let w = d.opsize32;
    let (reg, rm) = modrm(m, d);
    match rm {
        Operand::Reg(_) => undefined(m, start_ip),
        Operand::Mem { addr, off, seg } => {
            let size: u32 = if w {
                8
            } else {
                4
            };
            if !m.cpu.data_allowed(seg, off, size, false) {
                m.note_fault(segment_fault(seg));
                return;
            }
            let idx: i64 = signed_w(m.cpu.reg_w(reg, w), w);
            let lo: u32 = read_w(m, addr, w);
            let hi: u32 = read_w(
                m,
                addr.wrapping_add(
                    if w {
                        4
                    } else {
                        2
                    },
                ),
                w,
            );
            if idx < signed_w(lo, w) || idx > signed_w(hi, w) {
                m.cpu.set_ip(start_ip);
                interrupt(m, 5);
            }
        },
    }
}

fn arpl(m: &mut Machine, d: &Decoder, start_ip: u32)
    requires
        d.wf(),
        old(m)@.arpl(*d, start_ip) is Some,
    ensures
        Some(final(m)@) == old(m)@.arpl(*d, start_ip),
{
    proof {
        reveal(State::arpl);
    }
    if m.cpu.real_segments() {
        undefined(m, start_ip);
        return;
    }
    let (reg, rm) = modrm(m, d);
    let dst: u16 = read_op16(m, &rm);
    let src: u16 = m.cpu.reg16(reg);
    if dst % 4 < src % 4 {
        m.cpu.set_flag(ZF, true);
        write_op16(m, &rm, dst / 4 * 4 + src % 4);
    } else {
        m.cpu.set_flag(ZF, false);
    }
}

/// A signed product into a register.
pub fn imul_to(m: &mut Machine, reg: usize, a: i64, b: i64, w: bool)
    requires
        reg < 8,
        -0x8000_0000 <= a < 0x8000_0000,
        -0x8000_0000 <= b < 0x8000_0000,
    ensures
        final(m)@ == old(m)@.imul_to(reg, a as int, b as int, w),
{
    assert(-0x4000_0000_0000_0000 <= a * b <= 0x4000_0000_0000_0000) by (nonlinear_arith)
        requires
            -0x8000_0000 <= a < 0x8000_0000,
            -0x8000_0000 <= b < 0x8000_0000,
    ;
    let p: i64 = a * b;
    m.cpu.set_reg_w(reg, low_w(p, w), w);
    let half: i64 = if w {
        0x8000_0000
    } else {
        0x8000
    };
    set_cf_of(&mut m.cpu, !(-half <= p && p < half));
}

fn imul_imm(m: &mut Machine, d: &Decoder, op: u8)
    requires
        d.wf(),
    ensures
        final(m)@ == old(m)@.imul_imm(*d, op),
{
    proof {
        reveal(State::imul_imm);
    }
    let w = d.opsize32;
    let (reg, rm) = modrm(m, d);
    let a: i64 = signed_w(read_op_w(m, &rm, w), w);
    let b: i64 = if op == 0x69 {
        signed_w(fetch_w(m, w), w)
    } else {
        signed8(fetch8(m))
    };
    imul_to(m, reg, a, b, w);
}

/// TEST.
fn test_ops(m: &mut Machine, d: &Decoder, op: u8)
    requires
        d.wf(),
        op == 0x84 || op == 0x85 || op == 0xA8 || op == 0xA9,
    ensures
        final(m)@ == old(m)@.misc_ops(*d, op),
{
    proof {
        reveal(State::misc_ops);
    }
    let w = d.opsize32;
    if op == 0x84 {
        let (reg, rm) = modrm(m, d);
        let a: u8 = read_op8(m, &rm);
        let b: u8 = m.cpu.reg8(reg);
        alu8(&mut m.cpu, 4, a, b);
    } else if op == 0x85 {
        let (reg, rm) = modrm(m, d);
        let a: u32 = read_op_w(m, &rm, w);
        let b: u32 = m.cpu.reg_w(reg, w);
        alu_w(&mut m.cpu, 4, a, b, w);
    } else if op == 0xA8 {
        let b: u8 = fetch8(m);
        let a: u8 = m.cpu.reg8(0);
        alu8(&mut m.cpu, 4, a, b);
    } else {
        let b: u32 = fetch_w(m, w);
        let a: u32 = m.cpu.reg_w(AX, w);
        alu_w(&mut m.cpu, 4, a, b, w);
    }
}

/// XCHG.
fn exchanges(m: &mut Machine, d: &Decoder, op: u8)
    requires
        d.wf(),
        op == 0x86 || op == 0x87 || 0x90 <= op <= 0x97,
    ensures
        final(m)@ == old(m)@.misc_ops(*d, op),
{
    proof {
        reveal(State::misc_ops);
    }
    let w = d.opsize32;
    if op == 0x86 {
        let (reg, rm) = modrm(m, d);
        let a: u8 = read_op8(m, &rm);
        let b: u8 = m.cpu.reg8(reg);
        write_op8(m, &rm, b);
        m.cpu.set_reg8(reg, a);
    } else if op == 0x87 {
        let (reg, rm) = modrm(m, d);
        let a: u32 = read_op_w(m, &rm, w);
        let b: u32 = m.cpu.reg_w(reg, w);
        write_op_w(m, &rm, b, w);
        m.cpu.set_reg_w(reg, a, w);
    } else {
        let r: usize = (op % 8) as usize;
        let a: u32 = m.cpu.reg_w(AX, w);
        let b: u32 = m.cpu.reg_w(r, w);
        m.cpu.set_reg_w(AX, b, w);
        m.cpu.set_reg_w(r, a, w);
    }
}

/// INC and DEC of registers, and the sign extensions of the accumulator.
fn counts_and_widenings(m: &mut Machine, d: &Decoder, op: u8)
    requires
        d.wf(),
        0x40 <= op <= 0x4F || op == 0x98 || op == 0x99,
    ensures
        final(m)@ == old(m)@.misc_ops(*d, op),
{
    proof {
        reveal(State::misc_ops);
    }
    let w = d.opsize32;
    if 0x40 <= op && op <= 0x4F {
        let r: usize = (op % 8) as usize;
        let a: u32 = m.cpu.reg_w(r, w);
        let v: u32 = inc_dec_w(&mut m.cpu, a, op >= 0x48, w);
        m.cpu.set_reg_w(r, v, w);
    } else if op == 0x98 {
        if w {
            let v: u32 = sext16_32(m.cpu.reg16(AX));
            m.cpu.set_reg32(AX, v);
        } else {
            let v: u16 = sext8_16(m.cpu.reg8(0));
            m.cpu.set_reg16(AX, v);
        }
    } else {
        if w {
            let v: u32 = if m.cpu.reg32(AX) >= 0x8000_0000 {
                0xFFFF_FFFF
            } else {
                0
            };
            m.cpu.set_reg32(DX, v);
        } else {
            let v: u16 = if m.cpu.reg16(AX) >= 0x8000 {
                0xFFFF
            } else {
                0
            };
            m.cpu.set_reg16(DX, v);
        }
    }
}

fn misc_ops(m: &mut Machine, d: &Decoder, op: u8)
    requires
        d.wf(),
    ensures
        final(m)@ == old(m)@.misc_ops(*d, op),
{
    if op == 0x84 || op == 0x85 || op == 0xA8 || op == 0xA9 {
        test_ops(m, d, op);
    } else if op == 0x86 || op == 0x87 || (0x90 <= op && op <= 0x97) {
        exchanges(m, d, op);
    } else if (0x40 <= op && op <= 0x4F) || op == 0x98 || op == 0x99 {
        counts_and_widenings(m, d, op);
    } else {
        proof {
            reveal(State::misc_ops);
        }
        let off: u32 = if d.addrsize32 {
            m.cpu.regs[BX].wrapping_add(m.cpu.reg8(0) as u32)
        } else {
            m.cpu.reg16(BX).wrapping_add(m.cpu.reg8(0) as u16) as u32
        };
        let a: u32 = m.cpu.lin(segment_of(d, DS), off);
        let v: u8 = m.read8(a);
        m.cpu.set_reg8(0, v);
    }
}

fn lea(m: &mut Machine, d: &Decoder)
    requires
        d.wf(),
        old(m)@.lea(*d) is Some,
    ensures
        Some(final(m)@) == old(m)@.lea(*d),
{
    proof {
        reveal(State::lea);
    }
    let (reg, rm) = modrm(m, d);
    if let Operand::Mem { off, .. } = rm {
        m.cpu.set_reg_w(reg, off, d.opsize32);
    }
}

fn esc(m: &mut Machine, d: &Decoder, op: u8)
    requires
        d.wf(),
    ensures
        final(m)@ == old(m)@.esc(*d, op),
{
    proof {
        reveal(State::esc);
    }
    let (reg, rm) = modrm(m, d);
    if m.profile.has_fpu {
        fpu::exec(m, op, reg, &rm);
    }
}

fn exec_total(m: &mut Machine, d: &Decoder, op: u8)
    requires
        d.wf(),
    ensures
        final(m)@ == old(m)@.onebyte_total(*d, op),
{
    proof {
        reveal(State::onebyte_total);
    }
    if op < 0x40 && op % 8 <= 5 {
        alu_grid(m, d, op);
    } else if op == 0x80 || op == 0x81 || op == 0x83 {
        grp1(m, d, op);
    } else if (0x88 <= op && op <= 0x8B) || (0xB0 <= op && op <= 0xBF) || op == 0xC6 || op == 0xC7
        || (0xA0 <= op && op <= 0xA3) {
        moves(m, d, op);
    } else if (0x50 <= op && op <= 0x61) || op == 0x68 || op == 0x6A || op == 0xC8 || op == 0xC9
        || op == 0x8F {
        stack_ops(m, d, op);
    } else if (0x70 <= op && op <= 0x7F) || op == 0xE8 || op == 0xE9 || op == 0xEB || op == 0xC2
        || op == 0xC3 || (0xE0 <= op && op <= 0xE3) {
        near_control(m, d, op);
    } else if op == 0x69 || op == 0x6B {
        imul_imm(m, d, op);
    } else if (0x84 <= op && op <= 0x87) || (0x90 <= op && op <= 0x99) || (0x40 <= op && op <= 0x4F)
        || op == 0xA8 || op == 0xA9 || op == 0xD7 {
        misc_ops(m, d, op);
    } else if op == 0x9B {
    } else if op == 0xC0 || op == 0xC1 || (0xD0 <= op && op <= 0xD3) {
        grp2(m, d, op);
    } else if op == 0xFE {
        grp4(m, d);
    } else if op == 0x27 || op == 0x2F {
        daa_das(m, op);
    } else if op == 0x37 || op == 0x3F {
        aaa_aas(m, op);
    } else if op == 0xD5 {
        aad(m);
    } else if 0xD8 <= op && op <= 0xDF {
        esc(m, d, op);
    } else {
        m.trap(TrapReason::Opcode { op });
    }
}

/// Executes one instruction whose prefixes and opcode have been read.
pub fn exec(m: &mut Machine, d: &Decoder, op: u8, start_ip: u32)
    requires
        d.wf(),
        old(m)@.onebyte(*d, op, start_ip) is Some,
    ensures
        Some(final(m)@) == old(m)@.onebyte(*d, op, start_ip),
{
    proof {
        reveal(State::onebyte);
    }
    if op == 0x8C || op == 0x8E || op == 0x06 || op == 0x0E || op == 0x16 || op == 0x1E || op
        == 0x07 || op == 0x17 || op == 0x1F || op == 0xC4 || op == 0xC5 {
        segment_moves(m, d, op, start_ip);
    } else if (0x9C <= op && op <= 0x9F) || op == 0xF5 || (0xF8 <= op && op <= 0xFD) {
        flag_ops(m, d, op, start_ip);
    } else if op == 0xEA || op == 0x9A || op == 0xCA || op == 0xCB || (0xCC <= op && op <= 0xCF)
        || op == 0xF4 {
        far_control(m, d, op, start_ip);
    } else if (0xE4 <= op && op <= 0xE7) || (0xEC <= op && op <= 0xEF) {
        port_ops(m, d, op, start_ip);
    } else if op == 0x62 {
        bound(m, d, start_ip);
    } else if op == 0x63 {
        arpl(m, d, start_ip);
    } else if op == 0x8D {
        lea(m, d);
    } else if op == 0xF6 {
        grp3_byte(m, d, start_ip);
    } else if op == 0xF7 {
        grp3_word(m, d, start_ip);
    } else if op == 0xFF {
        grp5(m, d);
    } else if op == 0xD4 {
        aam(m);
    } else if (0x6C <= op && op <= 0x6F) || (0xA4 <= op && op <= 0xA7) || (0xAA <= op && op
        <= 0xAF) {
        string::exec(m, d, op);
    } else if op == 0x0F {
        twobyte::step_0f(m, d, start_ip);
    } else {
        exec_total(m, d, op);
    }
}

} // verus!
