//! The opcodes after `0F`.

use vstd::prelude::*;
use vstd::std_specs::bits::*;
use crate::bits::signed_w;
use crate::cpu::alu::{alu8, alu_w, condition, narrow, set_szp_w, width};
use crate::cpu::group::read_far;
use crate::cpu::interrupt::{interrupt, interrupt_protected_err};
use crate::cpu::mmx::step_mmx;
use crate::cpu::onebyte::imul_to;
use crate::cpu::operand::{
    fetch8, fetch_rel_w, modrm, pop_w, push_w, read_op16, read_op8, read_op_w, sext16_32, sext8_32,
    write_op16, write_op8, write_op_w, Decoder, Operand,
};
use crate::cpu::segment::{dpl_of, hidden_of, in_table, load_seg, read_descriptor};
use crate::cpu::sse::{grp_0fae, step_sse};
use crate::cpu::state::{
    Cpu, SegHidden, AX, BX, CF, CS, CX, DS, DX, ES, FS, GS, SS, ZF,
};
use crate::machine::{byte_of, le16, le32, Machine, State, TrapReason};

verus! {

/// The doubleword with its bytes in the opposite order.
#[verifier::allow_in_spec]
pub fn swapped(v: u32) -> u32
    returns
        le32(le16(byte_of(v, 3), byte_of(v, 2)), le16(byte_of(v, 1), byte_of(v, 0))),
{
    le32(le16(byte_of(v, 3), byte_of(v, 2)), le16(byte_of(v, 1), byte_of(v, 0)))
}

/// Turning the bytes over twice gives the doubleword back.
pub proof fn law_swap_twice(v: u32)
    ensures
        swapped(swapped(v)) == v,
{
    crate::machine::law_word_of_bytes(
        byte_of(v, 3),
        byte_of(v, 2),
        byte_of(v, 1),
        byte_of(v, 0),
    );
    crate::machine::law_bytes_of_word(v);
}

/// A double shift by 1 to 31: the bits of `src` follow those of `dst`. Gives the
/// result and the last bit that left. In the 16-bit form the two operands are
/// shifted as one doubleword, also by more than 16.
#[verifier::allow_in_spec]
pub fn shxd(dst: u32, src: u32, count: u32, left: bool, wide: bool) -> (u32, bool)
    requires
        1 <= count <= 31,
        wide || (dst <= 0xFFFF && src <= 0xFFFF),
    returns
        (if wide {
            let t = (if left {
                dst * 0x1_0000_0000 + src
            } else {
                src * 0x1_0000_0000 + dst
            }) as u64;
            if left {
                ((t >> ((32 - count) as u32)) as u32, (t >> ((64 - count) as u32)) & 1 != 0)
            } else {
                ((t >> count) as u32, (t >> ((count - 1) as u32)) & 1 != 0)
            }
        } else {
            let t = (if left {
                dst * 0x1_0000 + src
            } else {
                src * 0x1_0000 + dst
            }) as u64;
            if left {
                (
                    ((t << count) >> 16) as u16 as u32,
                    (t >> ((32 - count) as u32)) & 1 != 0,
                )
            } else {
                ((t >> count) as u16 as u32, (t >> ((count - 1) as u32)) & 1 != 0)
            }
        }),
{
    if wide {
        let t: u64 = if left {
            dst as u64 * 0x1_0000_0000 + src as u64
        } else {
            src as u64 * 0x1_0000_0000 + dst as u64
        };
        if left {
            ((t >> (32 - count)) as u32, (t >> (64 - count)) & 1 != 0)
        } else {
            ((t >> count) as u32, (t >> (count - 1)) & 1 != 0)
        }
    } else {
        let t: u64 = if left {
            dst as u64 * 0x1_0000 + src as u64
        } else {
            src as u64 * 0x1_0000 + dst as u64
        };
        if left {
            (((t << count) >> 16) as u16 as u32, (t >> (32 - count)) & 1 != 0)
        } else {
            ((t >> count) as u16 as u32, (t >> (count - 1)) & 1 != 0)
        }
    }
}

/// Position of the lowest or, in reverse, the highest one bit.
pub open spec fn scan(v: u32, reverse: bool) -> Option<u32> {
    if v == 0 {
        None
    } else if reverse {
        Some((31 - u32_leading_zeros(v)) as u32)
    } else {
        Some(u32_trailing_zeros(v))
    }
}

/// BSF and BSR. The zero flag tells that there is no one bit; then no position is
/// given.
pub fn bit_scan(c: &mut Cpu, v: u32, reverse: bool) -> (r: Option<u32>)
    ensures
        r == scan(v, reverse),
        *final(c) == old(c).with_flag(ZF, v == 0),
{
    if v == 0 {
        c.set_flag(ZF, true);
        None
    } else {
        proof {
            axiom_u32_leading_zeros(v);
            axiom_u32_trailing_zeros(v);
        }
        c.set_flag(ZF, false);
        Some(
            if reverse {
                31 - v.leading_zeros()
            } else {
                v.trailing_zeros()
            },
        )
    }
}

/// The bit at the position of BSF is set and all below it are clear; the bit at
/// the position of BSR is set and all above it are clear.
pub proof fn law_bit_scan(v: u32)
    requires
        v != 0,
    ensures
        scan(v, false) matches Some(p) && p < 32 && (v >> p) & 1u32 == 1u32 && forall|j: u32|
            j < p ==> #[trigger] (v >> j) & 1u32 == 0u32,
        scan(v, true) matches Some(q) && q < 32 && (v >> q) & 1u32 != 0u32 && forall|j: u32|
            q < j < 32 ==> #[trigger] (v >> j) & 1u32 == 0u32,
{
    axiom_u32_leading_zeros(v);
    axiom_u32_trailing_zeros(v);
}

/// A value with one bit set, cleared or flipped: 1 BTS, 2 BTR, 3 BTC; BT leaves
/// it.
#[verifier::allow_in_spec]
pub fn with_bit(v: u32, bit: u32, kind: u8) -> u32
    requires
        bit < 32,
    returns
        (if kind == 1 {
            v | (1u32 << bit)
        } else if kind == 2 {
            v & !(1u32 << bit)
        } else if kind == 3 {
            v ^ (1u32 << bit)
        } else {
            v
        }),
{
    if kind == 1 {
        v | (1u32 << bit)
    } else if kind == 2 {
        v & !(1u32 << bit)
    } else if kind == 3 {
        v ^ (1u32 << bit)
    } else {
        v
    }
}

/// A bit number that a register gives: signed at the operand size.
#[verifier::allow_in_spec]
pub fn bit_number(v: u32, wide: bool) -> u32
    returns
        (if wide {
            v
        } else {
            sext16_32(v as u16)
        }),
{
    if wide {
        v
    } else {
        sext16_32(v as u16)
    }
}

/// Offset in bytes of a bit number that is a signed doubleword, rounded down.
#[verifier::allow_in_spec]
pub fn bit_byte(off: u32) -> u32
    returns
        (if off < 0x8000_0000 {
            (off / 8) as u32
        } else {
            (off / 8 + 0xE000_0000) as u32
        }),
{
    if off < 0x8000_0000 {
        off / 8
    } else {
        off / 8 + 0xE000_0000
    }
}

impl Cpu {
    /// MOV to CR0. When protected mode begins, the hidden copies are those of the
    /// real-mode selectors.
    pub open spec fn with_cr0(self, v: u32) -> Cpu {
        let c = Cpu { cr0: v, ..self };
        if !self.pe() && c.pe() {
            c.with_hidden(ES, SegHidden::real_mode(c.sregs[ES as int])).with_hidden(
                CS,
                SegHidden::real_mode(c.sregs[CS as int]),
            ).with_hidden(SS, SegHidden::real_mode(c.sregs[SS as int])).with_hidden(
                DS,
                SegHidden::real_mode(c.sregs[DS as int]),
            ).with_hidden(FS, SegHidden::real_mode(c.sregs[FS as int])).with_hidden(
                GS,
                SegHidden::real_mode(c.sregs[GS as int]),
            )
        } else {
            c
        }
    }

    /// MOV from and to control registers 0, 2, 3 and 4.
    #[verifier::opaque]
    pub open spec fn control_move(self, to: bool, cr: int, r: usize) -> Option<Cpu> {
        let v = self.regs[r as int];
        if cr == 0 {
            Some(if to { self.with_cr0(v) } else { self.with_reg(r, self.cr0) })
        } else if cr == 2 {
            Some(if to { Cpu { cr2: v, ..self } } else { self.with_reg(r, self.cr2) })
        } else if cr == 3 {
            Some(if to { Cpu { cr3: v, ..self } } else { self.with_reg(r, self.cr3) })
        } else if cr == 4 {
            Some(if to { Cpu { cr4: v, ..self } } else { self.with_reg(r, self.cr4) })
        } else {
            None
        }
    }

    /// What CPUID says: a processor of the sixth family with FPU, TSC, CX8, CMOV,
    /// MMX, FXSR, SSE and SSE2.
    #[verifier::opaque]
    pub open spec fn after_cpuid(self) -> Cpu {
        if self.regs[AX as int] == 0 {
            self.with_reg(AX, 1).with_reg(BX, 0x756E_6547).with_reg(DX, 0x4965_6E69).with_reg(
                CX,
                0x6C65_746E,
            )
        } else if self.regs[AX as int] == 1 {
            self.with_reg(AX, 0x0633).with_reg(BX, 0).with_reg(CX, 0).with_reg(DX, 0x0780_8111)
        } else {
            self.with_reg(AX, 0).with_reg(BX, 0).with_reg(CX, 0).with_reg(DX, 0)
        }
    }
}

impl State {
    /// Stops at an instruction that the machine does not have, with the pointer
    /// back at its start.
    pub open spec fn trapped_at(self, start_ip: u32, reason: TrapReason) -> State {
        self.with_cpu(Cpu { ip: start_ip, ..self.cpu }).trapped(reason)
    }

    /// Reads a descriptor of the global table, as supervisor.
    #[verifier::opaque]
    pub open spec fn read_global(self, sel: u16) -> (State, u32, u32) {
        let a = self.cpu.gdtr_base.wrapping_add((sel / 8 * 8) as u32);
        let s0 = State { sys_access: true, ..self };
        let (s1, lo) = s0.read32(a);
        let (s2, hi) = s1.read32(a.wrapping_add(4));
        (State { sys_access: self.sys_access, ..s2 }, lo, hi)
    }

    /// LLDT: the local descriptor table, or none for a null selector.
    #[verifier::opaque]
    pub open spec fn lldt(self, sel: u16) -> Option<State> {
        if sel < 4 {
            Some(
                self.with_cpu(Cpu { ldtr_sel: sel, ldtr_base: 0, ldtr_limit: 0, ..self.cpu }),
            )
        } else {
            let (s, lo, hi) = self.read_global(sel);
            if hi / 0x100 % 0x20 != 0x02 {
                None
            } else {
                let h = hidden_of(lo, hi);
                Some(
                    s.with_cpu(
                        Cpu { ldtr_sel: sel, ldtr_base: h.base, ldtr_limit: h.limit, ..s.cpu },
                    ),
                )
            }
        }
    }

    /// LTR: the task state segment. Its limit is in bytes.
    #[verifier::opaque]
    pub open spec fn ltr(self, sel: u16) -> Option<State> {
        let (s, lo, hi) = self.read_global(sel);
        if hi / 0x100 % 0x20 != 0x09 {
            None
        } else {
            Some(
                s.with_cpu(
                    Cpu {
                        tr_sel: sel,
                        tr_base: hidden_of(lo, hi).base,
                        tr_limit: (lo % 0x1_0000 + hi / 0x1_0000 % 0x10 * 0x1_0000) as u32,
                        ..s.cpu
                    },
                ),
            )
        }
    }

    /// Reads the half of a descriptor that holds its rights, as supervisor.
    #[verifier::opaque]
    pub open spec fn read_rights(self, sel: u16) -> (State, u32) {
        let a = self.cpu.descriptor_table(sel).0.wrapping_add((sel / 8 * 8) as u32);
        let (s, hi) = (State { sys_access: true, ..self }).read32(a.wrapping_add(4));
        (State { sys_access: self.sys_access, ..s }, hi)
    }

    /// VERR and VERW: whether the current code could read, or write, through a
    /// selector.
    #[verifier::opaque]
    pub open spec fn verify_selector(self, sel: u16, write: bool) -> (State, bool) {
        if sel < 4 || !self.in_table(sel) {
            (self, false)
        } else {
            let (s, hi) = self.read_rights(sel);
            let access = (hi / 0x100 % 0x100) as u8;
            let code = access & 0x08 != 0;
            let reachable = (code && access & 0x04 != 0) || (dpl_of(access) >= s.cpu.cpl()
                && dpl_of(access) >= (sel % 4) as u8);
            (
                s,
                access & 0x80 != 0 && access & 0x10 != 0 && reachable && (if write {
                    !code && access & 0x02 != 0
                } else {
                    !code || access & 0x02 != 0
                }),
            )
        }
    }

    /// The system instructions of `0F 00`.
    #[verifier::opaque]
    pub open spec fn grp6(self, d: Decoder, start_ip: u32) -> Option<State> {
        let (s, reg, rm) = self.modrm(d);
        if reg == 0 {
            Some(s.write_op16(rm, s.cpu.ldtr_sel))
        } else if reg == 2 {
            let (t, sel) = s.read_op16(rm);
            t.lldt(sel)
        } else if reg == 3 {
            let (t, sel) = s.read_op16(rm);
            t.ltr(sel)
        } else if reg == 4 || reg == 5 {
            let (t, sel) = s.read_op16(rm);
            let (u, ok) = t.verify_selector(sel, reg == 5);
            Some(u.with_cpu(u.cpu.with_flag(ZF, ok)))
        } else {
            Some(s.trapped_at(start_ip, TrapReason::Group { op: 0x00, slot: reg as u8 }))
        }
    }

    /// LGDT, LIDT and INVLPG.
    #[verifier::opaque]
    pub open spec fn grp7(self, d: Decoder) -> Option<State> {
        let (s, reg, rm) = self.modrm(d);
        match rm {
            Operand::Reg(_) => None,
            Operand::Mem { addr, .. } => if reg == 2 || reg == 3 {
                let (t, limit) = s.read16(addr);
                let (u, base32) = t.read32(addr.wrapping_add(2));
                let base = if d.opsize32 { base32 } else { (base32 % 0x100_0000) as u32 };
                Some(
                    u.with_cpu(
                        if reg == 2 {
                            Cpu { gdtr_limit: limit, gdtr_base: base, ..u.cpu }
                        } else {
                            Cpu { idtr_limit: limit, idtr_base: base, ..u.cpu }
                        },
                    ),
                )
            } else if reg == 7 {
                Some(s)
            } else {
                None
            },
        }
    }

    /// Tests a bit of an operand and changes it. In memory the bit number reaches
    /// beyond the operand, in a register it wraps.
    #[verifier::opaque]
    pub open spec fn bit_op(self, wide: bool, rm: Operand, off: u32, kind: u8) -> State {
        match rm {
            Operand::Reg(r) => {
                let bit = if wide { (off % 32) as u32 } else { (off % 16) as u32 };
                let v = self.cpu.reg_w(r, wide);
                let c = self.cpu.with_flag(CF, (v >> bit) & 1 != 0);
                self.with_cpu(
                    if 1 <= kind <= 3 {
                        c.with_reg_w(r, with_bit(v, bit, kind), wide)
                    } else {
                        c
                    },
                )
            },
            Operand::Mem { addr, .. } => {
                let a = addr.wrapping_add(bit_byte(off));
                let bit = (off % 8) as u32;
                let (s, v) = self.read8(a);
                let t = s.with_cpu(s.cpu.with_flag(CF, (v as u32 >> bit) & 1 != 0));
                if 1 <= kind <= 3 {
                    t.write8(a, with_bit(v as u32, bit, kind) as u8)
                } else {
                    t
                }
            },
        }
    }

    /// CMPXCHG and XADD of a byte.
    #[verifier::opaque]
    pub open spec fn exchange8(self, d: Decoder, op: u8) -> State {
        let (s, reg, rm) = self.modrm(d);
        let (t, dst) = s.read_op8(rm);
        if op == 0xB0 {
            let acc = t.cpu.reg8(0);
            let u = t.with_cpu(t.cpu.after_alu(7, acc as u32, dst as u32, 0));
            if acc == dst {
                u.write_op8(rm, u.cpu.reg8(reg))
            } else {
                u.with_cpu(u.cpu.with_reg8(0, dst))
            }
        } else {
            let src = t.cpu.reg8(reg);
            let sum = crate::cpu::alu::alu_value(t.cpu, 0, dst as u32, src as u32, 0) as u8;
            let u = t.with_cpu(
                t.cpu.after_alu(0, dst as u32, src as u32, 0).with_reg8(reg, dst),
            );
            u.write_op8(rm, sum)
        }
    }

    /// CMPXCHG and XADD of a word.
    #[verifier::opaque]
    pub open spec fn exchange_w(self, d: Decoder, op: u8) -> State {
        let w = d.opsize32;
        let (s, reg, rm) = self.modrm(d);
        let (t, dst) = s.read_op_w(rm, w);
        if op == 0xB1 {
            let acc = t.cpu.reg_w(AX, w);
            let u = t.with_cpu(t.cpu.after_alu(7, narrow(acc, w), narrow(dst, w), width(w)));
            if acc == dst {
                u.write_op_w(rm, u.cpu.reg_w(reg, w), w)
            } else {
                u.with_cpu(u.cpu.with_reg_w(AX, dst, w))
            }
        } else {
            let src = t.cpu.reg_w(reg, w);
            let sum = crate::cpu::alu::alu_value(
                t.cpu,
                0,
                narrow(dst, w),
                narrow(src, w),
                width(w),
            );
            let u = t.with_cpu(
                t.cpu.after_alu(0, narrow(dst, w), narrow(src, w), width(w)).with_reg_w(
                    reg,
                    dst,
                    w,
                ),
            );
            u.write_op_w(rm, sum, w)
        }
    }

    /// CMPXCHG8B: eight bytes of memory against EDX and EAX.
    #[verifier::opaque]
    pub open spec fn exchange_pair(self, d: Decoder) -> State {
        let (s, reg, rm) = self.modrm(d);
        match rm {
            Operand::Mem { addr, .. } if reg == 1 => {
                let (t, lo) = s.read32(addr);
                let (u, hi) = t.read32(addr.wrapping_add(4));
                if lo == u.cpu.regs[AX as int] && hi == u.cpu.regs[DX as int] {
                    let v = u.write32(addr, u.cpu.regs[BX as int]);
                    let x = v.write32(addr.wrapping_add(4), v.cpu.regs[CX as int]);
                    x.with_cpu(x.cpu.with_flag(ZF, true))
                } else {
                    u.with_cpu(u.cpu.with_reg(AX, lo).with_reg(DX, hi).with_flag(ZF, false))
                }
            },
            _ => s.trapped(TrapReason::Group { op: 0xC7, slot: reg as u8 }),
        }
    }

    /// LSS, LFS and LGS.
    #[verifier::opaque]
    pub open spec fn load_far_pointer(self, d: Decoder, op: u8) -> Option<State> {
        let (s, reg, rm) = self.modrm(d);
        match rm {
            Operand::Reg(_) => Some(s.trapped(TrapReason::RegisterOperand { op })),
            Operand::Mem { addr, .. } => {
                let (t, off, sel) = s.read_far(addr, d.opsize32);
                match t.load_seg(if op == 0xB2 { SS } else if op == 0xB4 { FS } else { GS }, sel) {
                    None => None,
                    Some((u, ok)) => if ok {
                        Some(u.with_cpu(u.cpu.with_reg_w(reg, off, d.opsize32)))
                    } else {
                        Some(u)
                    },
                }
            },
        }
    }

    /// MOVZX and MOVSX.
    #[verifier::opaque]
    pub open spec fn extend(self, d: Decoder, op: u8) -> State {
        let (s, reg, rm) = self.modrm(d);
        let sign = op >= 0xBE;
        let (t, v) = if op % 2 == 1 {
            let (t, x) = s.read_op16(rm);
            (t, if sign { sext16_32(x) } else { x as u32 })
        } else {
            let (t, x) = s.read_op8(rm);
            (t, if sign { sext8_32(x) } else { x as u32 })
        };
        t.with_cpu(t.cpu.with_reg_w(reg, v, d.opsize32))
    }

    /// SHLD and SHRD. A count of zero changes nothing.
    #[verifier::opaque]
    pub open spec fn double_shift(self, d: Decoder, op: u8) -> State {
        let w = d.opsize32;
        let (s, reg, rm) = self.modrm(d);
        let (t, raw) = if op % 2 == 0 { s.fetch8() } else { (s, s.cpu.reg8(1)) };
        let count = (raw % 32) as u32;
        if count == 0 {
            t
        } else {
            let (u, dst) = t.read_op_w(rm, w);
            let (r, cf) = shxd(dst, u.cpu.reg_w(reg, w), count, op < 0xA8, w);
            let v = u.write_op_w(rm, r, w);
            v.with_cpu(v.cpu.with_flag(CF, cf).with_szp(narrow(r, w), width(w)))
        }
    }

    /// Conditional moves, jumps and sets.
    #[verifier::opaque]
    pub open spec fn conditionals(self, d: Decoder, op: u8) -> State {
        let w = d.opsize32;
        let cc = (op % 16) as u8;
        if op < 0x50 {
            let (s, reg, rm) = self.modrm(d);
            let (t, v) = s.read_op_w(rm, w);
            if condition(&t.cpu, cc) {
                t.with_cpu(t.cpu.with_reg_w(reg, v, w))
            } else {
                t
            }
        } else if op < 0x90 {
            let (s, rel) = self.fetch_rel(w);
            if condition(&s.cpu, cc) {
                s.with_cpu(s.cpu.with_ip(s.cpu.ip.wrapping_add(rel)))
            } else {
                s
            }
        } else {
            let (s, _, rm) = self.modrm(d);
            s.write_op8(rm, if condition(&s.cpu, cc) { 1u8 } else { 0u8 })
        }
    }

    /// Bit scans, products, bit tests and byte swaps.
    #[verifier::opaque]
    pub open spec fn bit_family(self, d: Decoder, op: u8) -> State {
        let w = d.opsize32;
        if op == 0xBC || op == 0xBD {
            let (s, reg, rm) = self.modrm(d);
            let (t, v) = s.read_op_w(rm, w);
            let c = t.cpu.with_flag(ZF, v == 0);
            t.with_cpu(
                match scan(v, op == 0xBD) {
                    Some(p) => c.with_reg_w(reg, p, w),
                    None => c,
                },
            )
        } else if op == 0xAF {
            let (s, reg, rm) = self.modrm(d);
            let a = signed_w(s.cpu.reg_w(reg, w), w);
            let (t, v) = s.read_op_w(rm, w);
            t.imul_to(reg, a as int, signed_w(v, w) as int, w)
        } else if op == 0xBA {
            let (s, reg, rm) = self.modrm(d);
            let (t, imm) = s.fetch8();
            if reg >= 4 {
                t.bit_op(w, rm, imm as u32, (reg - 4) as u8)
            } else {
                t.trapped(TrapReason::Group { op: 0xBA, slot: reg as u8 })
            }
        } else if op >= 0xC8 {
            let r = (op % 8) as usize;
            self.with_cpu(self.cpu.with_reg(r, swapped(self.cpu.regs[r as int])))
        } else {
            let (s, reg, rm) = self.modrm(d);
            s.bit_op(w, rm, bit_number(s.cpu.reg_w(reg, w), w), (op / 8 % 4) as u8)
        }
    }

    /// MOV from and to debug registers.
    pub open spec fn debug_move(self, op: u8) -> State {
        let (s, b) = self.fetch8();
        let n = (b / 8 % 8) as int;
        let r = (b % 8) as usize;
        s.with_cpu(
            if op == 0x21 {
                s.cpu.with_reg(r, s.cpu.dr[n])
            } else {
                Cpu {
                    dr: vstd::array::spec_array_update(s.cpu.dr, n, s.cpu.regs[r as int]),
                    ..s.cpu
                }
            },
        )
    }

    /// MMX, then SSE, then nothing.
    #[verifier::opaque]
    pub open spec fn vector_ops(self, d: Decoder, op: u8, start_ip: u32) -> State {
        let (s, took) = self.step_mmx(d, op);
        if took {
            s
        } else {
            let (t, took_sse) = s.step_sse(d, op);
            if took_sse {
                t
            } else {
                t.trapped_at(start_ip, TrapReason::Opcode0f { op })
            }
        }
    }

    /// The opcodes after `0F` that always have a next state.
    #[verifier::opaque]
    pub open spec fn twobyte_total(self, d: Decoder, op: u8, start_ip: u32) -> State {
        if 0x18 <= op <= 0x1F {
            self.modrm(d).0
        } else if op == 0x21 || op == 0x23 {
            self.debug_move(op)
        } else if 0x40 <= op <= 0x4F || 0x80 <= op <= 0x9F {
            self.conditionals(d, op)
        } else if op == 0x06 {
            self.with_cpu(Cpu { cr0: self.cpu.cr0 & !0x8u32, ..self.cpu })
        } else if op == 0x09 {
            self
        } else if op == 0x31 {
            self.with_cpu(
                self.cpu.with_reg(AX, (self.cpu.tsc % 0x1_0000_0000) as u32).with_reg(
                    DX,
                    (self.cpu.tsc / 0x1_0000_0000) as u32,
                ),
            )
        } else if op == 0xA2 {
            if self.profile.has_cpuid {
                self.with_cpu(self.cpu.after_cpuid())
            } else {
                self.trapped(TrapReason::NoCpuid)
            }
        } else if op == 0xB0 || op == 0xC0 {
            self.exchange8(d, op)
        } else if op == 0xB1 || op == 0xC1 {
            self.exchange_w(d, op)
        } else if op == 0xC7 {
            self.exchange_pair(d)
        } else if 0xC8 <= op <= 0xCF || op == 0xBC || op == 0xBD || op == 0xAF || op == 0xBA || op
            == 0xA3 || op == 0xAB || op == 0xB3 || op == 0xBB {
            self.bit_family(d, op)
        } else if op == 0xB6 || op == 0xB7 || op == 0xBE || op == 0xBF {
            self.extend(d, op)
        } else if op == 0xA0 || op == 0xA8 {
            self.push_w(
                self.cpu.sregs[if op == 0xA0 { FS as int } else { GS as int }] as u32,
                d.opsize32,
            )
        } else if op == 0xA4 || op == 0xA5 || op == 0xAC || op == 0xAD {
            self.double_shift(d, op)
        } else if op == 0xAE {
            let (s, took) = self.grp_0fae(d);
            if took {
                s
            } else {
                s.trapped_at(start_ip, TrapReason::Opcode0f { op })
            }
        } else {
            self.vector_ops(d, op, start_ip)
        }
    }

    /// One instruction of the two-byte opcodes, its `0F` already read.
    #[verifier::opaque]
    pub open spec fn step_0f(self, d: Decoder, start_ip: u32) -> Option<State> {
        let (s, op) = self.fetch8();
        if op == 0x00 {
            s.grp6(d, start_ip)
        } else if op == 0x01 {
            s.grp7(d)
        } else if op == 0x20 || op == 0x22 {
            let (t, b) = s.fetch8();
            match t.cpu.control_move(op == 0x22, (b / 8 % 8) as int, (b % 8) as usize) {
                None => None,
                Some(c) => Some(t.with_cpu(c)),
            }
        } else if op == 0x30 || op == 0x32 {
            s.with_cpu(Cpu { ip: start_ip, ..s.cpu }).interrupt_protected(13, Some(0))
        } else if op == 0x0B {
            s.with_cpu(Cpu { ip: start_ip, ..s.cpu }).interrupt(6)
        } else if op == 0xB2 || op == 0xB4 || op == 0xB5 {
            s.load_far_pointer(d, op)
        } else if op == 0xA1 || op == 0xA9 {
            let (t, v) = s.pop_w(d.opsize32);
            t.load_seg_only(if op == 0xA1 { FS } else { GS }, v as u16)
        } else {
            Some(s.twobyte_total(d, op, start_ip))
        }
    }
}

fn trap_at(m: &mut Machine, start_ip: u32, reason: TrapReason)
    ensures
        final(m)@ == old(m)@.trapped_at(start_ip, reason),
{
    m.cpu.ip = start_ip;
    m.trap(reason);
}

fn read_global(m: &mut Machine, sel: u16) -> (r: (u32, u32))
    ensures
        (final(m)@, r.0, r.1) == old(m)@.read_global(sel),
{
    proof {
        reveal(State::read_global);
    }
    let a: u32 = m.cpu.gdtr_base.wrapping_add((sel / 8 * 8) as u32);
    let prev = m.sys_access;
    m.sys_access = true;
    let lo: u32 = m.read32(a);
    let hi: u32 = m.read32(a.wrapping_add(4));
    m.sys_access = prev;
    (lo, hi)
}

fn lldt(m: &mut Machine, sel: u16)
    requires
        old(m)@.lldt(sel) is Some,
    ensures
        Some(final(m)@) == old(m)@.lldt(sel),
{
    proof {
        reveal(State::lldt);
    }
    if sel < 4 {
        m.cpu.ldtr_sel = sel;
        m.cpu.ldtr_base = 0;
        m.cpu.ldtr_limit = 0;
        return;
    }
    let p = read_global(m, sel);
    let h = hidden_of(p.0, p.1);
    m.cpu.ldtr_sel = sel;
    m.cpu.ldtr_base = h.base;
    m.cpu.ldtr_limit = h.limit;
}

fn ltr(m: &mut Machine, sel: u16)
    requires
        old(m)@.ltr(sel) is Some,
    ensures
        Some(final(m)@) == old(m)@.ltr(sel),
{
    proof {
        reveal(State::ltr);
    }
    let p = read_global(m, sel);
    m.cpu.tr_sel = sel;
    m.cpu.tr_base = hidden_of(p.0, p.1).base;
    m.cpu.tr_limit = p.0 % 0x1_0000 + p.1 / 0x1_0000 % 0x10 * 0x1_0000;
}

fn read_rights(m: &mut Machine, sel: u16) -> (hi: u32)
    ensures
        (final(m)@, hi) == old(m)@.read_rights(sel),
{
    proof {
        reveal(State::read_rights);
    }
    let a: u32 = m.cpu.descriptor_table(sel).0.wrapping_add((sel / 8 * 8) as u32);
    let prev = m.sys_access;
    m.sys_access = true;
    let hi: u32 = m.read32(a.wrapping_add(4));
    m.sys_access = prev;
    hi
}

fn verify_selector(m: &mut Machine, sel: u16, write: bool) -> (ok: bool)
    ensures
        (final(m)@, ok) == old(m)@.verify_selector(sel, write),
{
    proof {
        reveal(State::verify_selector);
    }
    if sel < 4 || !in_table(m, sel) {
        return false;
    }
    let hi: u32 = read_rights(m, sel);
    let access: u8 = (hi / 0x100 % 0x100) as u8;
    let code = access & 0x08 != 0;
    let dpl: u8 = dpl_of(access);
    let reachable = (code && access & 0x04 != 0) || (dpl >= m.cpu.cpl() && dpl >= (sel % 4) as u8);
    let usable = if write {
        !code && access & 0x02 != 0
    } else {
        !code || access & 0x02 != 0
    };
    access & 0x80 != 0 && access & 0x10 != 0 && reachable && usable
}

fn grp6(m: &mut Machine, d: &Decoder, start_ip: u32)
    requires
        d.wf(),
        old(m)@.grp6(*d, start_ip) is Some,
    ensures
        Some(final(m)@) == old(m)@.grp6(*d, start_ip),
{
    proof {
        reveal(State::grp6);
    }
    let (reg, rm) = modrm(m, d);
    if reg == 0 {
        let v: u16 = m.cpu.ldtr_sel;
        write_op16(m, &rm, v);
    } else if reg == 2 {
        let sel: u16 = read_op16(m, &rm);
        lldt(m, sel);
    } else if reg == 3 {
        let sel: u16 = read_op16(m, &rm);
        ltr(m, sel);
    } else if reg == 4 || reg == 5 {
        let sel: u16 = read_op16(m, &rm);
        let ok = verify_selector(m, sel, reg == 5);
        m.cpu.set_flag(ZF, ok);
    } else {
        trap_at(m, start_ip, TrapReason::Group { op: 0x00, slot: reg as u8 });
    }
}

fn grp7(m: &mut Machine, d: &Decoder)
    requires
        d.wf(),
        old(m)@.grp7(*d) is Some,
    ensures
        Some(final(m)@) == old(m)@.grp7(*d),
{
    proof {
        reveal(State::grp7);
    }
    let (reg, rm) = modrm(m, d);
    if let Operand::Mem { addr, .. } = rm {
        if reg == 2 || reg == 3 {
            let limit: u16 = m.read16(addr);
            let base32: u32 = m.read32(addr.wrapping_add(2));
            let base: u32 = if d.opsize32 {
                base32
            } else {
                base32 % 0x100_0000
            };
            if reg == 2 {
                m.cpu.gdtr_limit = limit;
                m.cpu.gdtr_base = base;
            } else {
                m.cpu.idtr_limit = limit;
                m.cpu.idtr_base = base;
            }
        }
    }
}

fn set_cr0(c: &mut Cpu, v: u32)
    ensures
        *final(c) == old(c).with_cr0(v),
{
    let was = c.pe();
    c.cr0 = v;
    if !was && c.pe() {
        c.hidden[ES] = SegHidden::real_mode(c.sregs[ES]);
        c.hidden[CS] = SegHidden::real_mode(c.sregs[CS]);
        c.hidden[SS] = SegHidden::real_mode(c.sregs[SS]);
        c.hidden[DS] = SegHidden::real_mode(c.sregs[DS]);
        c.hidden[FS] = SegHidden::real_mode(c.sregs[FS]);
        c.hidden[GS] = SegHidden::real_mode(c.sregs[GS]);
    }
}

fn control_move(c: &mut Cpu, to: bool, cr: u8, r: usize)
    requires
        r < 8,
        old(c).control_move(to, cr as int, r) is Some,
    ensures
        Some(*final(c)) == old(c).control_move(to, cr as int, r),
{
    proof {
        reveal(Cpu::control_move);
    }
    let v: u32 = c.regs[r];
    if to {
        if cr == 0 {
            set_cr0(c, v);
        } else if cr == 2 {
            c.cr2 = v;
        } else if cr == 3 {
            c.cr3 = v;
        } else {
            c.cr4 = v;
        }
    } else {
        let x: u32 = if cr == 0 {
            c.cr0
        } else if cr == 2 {
            c.cr2
        } else if cr == 3 {
            c.cr3
        } else {
            c.cr4
        };
        c.set_reg32(r, x);
    }
}

fn cpuid(c: &mut Cpu)
    ensures
        *final(c) == old(c).after_cpuid(),
{
    proof {
        reveal(Cpu::after_cpuid);
    }
    let leaf: u32 = c.regs[AX];
    if leaf == 0 {
        c.set_reg32(AX, 1);
        c.set_reg32(BX, 0x756E_6547);
        c.set_reg32(DX, 0x4965_6E69);
        c.set_reg32(CX, 0x6C65_746E);
    } else if leaf == 1 {
        c.set_reg32(AX, 0x0633);
        c.set_reg32(BX, 0);
        c.set_reg32(CX, 0);
        c.set_reg32(DX, 0x0780_8111);
    } else {
        c.set_reg32(AX, 0);
        c.set_reg32(BX, 0);
        c.set_reg32(CX, 0);
        c.set_reg32(DX, 0);
    }
}

fn bit_op(m: &mut Machine, wide: bool, rm: &Operand, off: u32, kind: u8)
    requires
        rm.wf(),
    ensures
        final(m)@ == old(m)@.bit_op(wide, *rm, off, kind),
{
    proof {
        reveal(State::bit_op);
    }
    match *rm {
        Operand::Reg(r) => {
            let bit: u32 = if wide {
                off % 32
            } else {
                off % 16
            };
            let v: u32 = m.cpu.reg_w(r, wide);
            m.cpu.set_flag(CF, (v >> bit) & 1 != 0);
            if 1 <= kind && kind <= 3 {
                m.cpu.set_reg_w(r, with_bit(v, bit, kind), wide);
            }
        },
        Operand::Mem { addr, .. } => {
            let a: u32 = addr.wrapping_add(bit_byte(off));
            let bit: u32 = off % 8;
            let v: u8 = m.read8(a);
            m.cpu.set_flag(CF, (v as u32 >> bit) & 1 != 0);
            if 1 <= kind && kind <= 3 {
                m.write8(a, with_bit(v as u32, bit, kind) as u8);
            }
        },
    }
}

fn exchange8(m: &mut Machine, d: &Decoder, op: u8)
    requires
        d.wf(),
    ensures
        final(m)@ == old(m)@.exchange8(*d, op),
{
    proof {
        reveal(State::exchange8);
    }
    let (reg, rm) = modrm(m, d);
    let dst: u8 = read_op8(m, &rm);
    if op == 0xB0 {
        let acc: u8 = m.cpu.reg8(0);
        alu8(&mut m.cpu, 7, acc, dst);
        if acc == dst {
            let v: u8 = m.cpu.reg8(reg);
            write_op8(m, &rm, v);
        } else {
            m.cpu.set_reg8(0, dst);
        }
    } else {
        let src: u8 = m.cpu.reg8(reg);
        let sum: u8 = alu8(&mut m.cpu, 0, dst, src);
        m.cpu.set_reg8(reg, dst);
        write_op8(m, &rm, sum);
    }
}

fn exchange_w(m: &mut Machine, d: &Decoder, op: u8)
    requires
        d.wf(),
    ensures
        final(m)@ == old(m)@.exchange_w(*d, op),
{
    proof {
        reveal(State::exchange_w);
    }
    let w = d.opsize32;
    let (reg, rm) = modrm(m, d);
    let dst: u32 = read_op_w(m, &rm, w);
    if op == 0xB1 {
        let acc: u32 = m.cpu.reg_w(AX, w);
        alu_w(&mut m.cpu, 7, acc, dst, w);
        if acc == dst {
            let v: u32 = m.cpu.reg_w(reg, w);
            write_op_w(m, &rm, v, w);
        } else {
            m.cpu.set_reg_w(AX, dst, w);
        }
    } else {
        let src: u32 = m.cpu.reg_w(reg, w);
        let sum: u32 = alu_w(&mut m.cpu, 0, dst, src, w);
        m.cpu.set_reg_w(reg, dst, w);
        write_op_w(m, &rm, sum, w);
    }
}

fn exchange_pair(m: &mut Machine, d: &Decoder)
    requires
        d.wf(),
    ensures
        final(m)@ == old(m)@.exchange_pair(*d),
{
    proof {
        reveal(State::exchange_pair);
    }
    let (reg, rm) = modrm(m, d);
    match rm {
        Operand::Mem { addr, .. } if reg == 1 => {
            let lo: u32 = m.read32(addr);
            let hi: u32 = m.read32(addr.wrapping_add(4));
            if lo == m.cpu.regs[AX] && hi == m.cpu.regs[DX] {
                let b: u32 = m.cpu.regs[BX];
                m.write32(addr, b);
                let c: u32 = m.cpu.regs[CX];
                m.write32(addr.wrapping_add(4), c);
                m.cpu.set_flag(ZF, true);
            } else {
                m.cpu.set_reg32(AX, lo);
                m.cpu.set_reg32(DX, hi);
                m.cpu.set_flag(ZF, false);
            }
        },
        _ => m.trap(TrapReason::Group { op: 0xC7, slot: reg as u8 }),
    }
}

fn load_far_pointer(m: &mut Machine, d: &Decoder, op: u8)
    requires
        d.wf(),
        old(m)@.load_far_pointer(*d, op) is Some,
    ensures
        Some(final(m)@) == old(m)@.load_far_pointer(*d, op),
{
    proof {
        reveal(State::load_far_pointer);
    }
    let (reg, rm) = modrm(m, d);
    match rm {
        Operand::Reg(_) => m.trap(TrapReason::RegisterOperand { op }),
        Operand::Mem { addr, .. } => {
            let p = read_far(m, addr, d.opsize32);
            let idx: usize = if op == 0xB2 {
                SS
            } else if op == 0xB4 {
                FS
            } else {
                GS
            };
            if load_seg(m, idx, p.1) {
                m.cpu.set_reg_w(reg, p.0, d.opsize32);
            }
        },
    }
}

fn extend(m: &mut Machine, d: &Decoder, op: u8)
    requires
        d.wf(),
    ensures
        final(m)@ == old(m)@.extend(*d, op),
{
    proof {
        reveal(State::extend);
    }
    let (reg, rm) = modrm(m, d);
    let sign = op >= 0xBE;
    let v: u32 = if op % 2 == 1 {
        let x: u16 = read_op16(m, &rm);
        if sign {
            sext16_32(x)
        } else {
            x as u32
        }
    } else {
        let x: u8 = read_op8(m, &rm);
        if sign {
            sext8_32(x)
        } else {
            x as u32
        }
    };
    m.cpu.set_reg_w(reg, v, d.opsize32);
}

/// A word operand fits 16 bits.
proof fn lemma_word_operand(s: State, rm: Operand, reg: usize)
    ensures
        s.read_op_w(rm, false).1 <= 0xFFFF,
        s.cpu.reg_w(reg, false) <= 0xFFFF,
{
    reveal(State::read_op_w);
}

fn double_shift(m: &mut Machine, d: &Decoder, op: u8)
    requires
        d.wf(),
    ensures
        final(m)@ == old(m)@.double_shift(*d, op),
{
    proof {
        reveal(State::double_shift);
    }
    let w = d.opsize32;
    let (reg, rm) = modrm(m, d);
    let raw: u8 = if op % 2 == 0 {
        fetch8(m)
    } else {
        m.cpu.reg8(1)
    };
    let count: u32 = (raw % 32) as u32;
    if count == 0 {
        return;
    }
    proof {
        lemma_word_operand(m@, rm, reg);
    }
    let dst: u32 = read_op_w(m, &rm, w);
    let src: u32 = m.cpu.reg_w(reg, w);
    let p = shxd(dst, src, count, op < 0xA8, w);
    write_op_w(m, &rm, p.0, w);
    m.cpu.set_flag(CF, p.1);
    set_szp_w(&mut m.cpu, p.0, w);
}

fn conditionals(m: &mut Machine, d: &Decoder, op: u8)
    requires
        d.wf(),
    ensures
        final(m)@ == old(m)@.conditionals(*d, op),
{
    proof {
        reveal(State::conditionals);
    }
    let w = d.opsize32;
    let cc: u8 = op % 16;
    if op < 0x50 {
        let (reg, rm) = modrm(m, d);
        let v: u32 = read_op_w(m, &rm, w);
        if condition(&m.cpu, cc) {
            m.cpu.set_reg_w(reg, v, w);
        }
    } else if op < 0x90 {
        let rel: u32 = fetch_rel_w(m, w);
        if condition(&m.cpu, cc) {
            let ip: u32 = m.cpu.ip.wrapping_add(rel);
            m.cpu.set_ip(ip);
        }
    } else {
        let (_, rm) = modrm(m, d);
        let v: u8 = if condition(&m.cpu, cc) {
            1
        } else {
            0
        };
        write_op8(m, &rm, v);
    }
}

fn bit_family(m: &mut Machine, d: &Decoder, op: u8)
    requires
        d.wf(),
    ensures
        final(m)@ == old(m)@.bit_family(*d, op),
{
    proof {
        reveal(State::bit_family);
    }
    let w = d.opsize32;
    if op == 0xBC || op == 0xBD {
        let (reg, rm) = modrm(m, d);
        let v: u32 = read_op_w(m, &rm, w);
        if let Some(p) = bit_scan(&mut m.cpu, v, op == 0xBD) {
            m.cpu.set_reg_w(reg, p, w);
        }
    } else if op == 0xAF {
        let (reg, rm) = modrm(m, d);
        let a: i64 = signed_w(m.cpu.reg_w(reg, w), w);
        let b: i64 = signed_w(read_op_w(m, &rm, w), w);
        imul_to(m, reg, a, b, w);
    } else if op == 0xBA {
        let (reg, rm) = modrm(m, d);
        let imm: u8 = fetch8(m);
        if reg >= 4 {
            bit_op(m, w, &rm, imm as u32, (reg - 4) as u8);
        } else {
            m.trap(TrapReason::Group { op: 0xBA, slot: reg as u8 });
        }
    } else if op >= 0xC8 {
        let r: usize = (op % 8) as usize;
        let v: u32 = swapped(m.cpu.regs[r]);
        m.cpu.set_reg32(r, v);
    } else {
        let (reg, rm) = modrm(m, d);
        let off: u32 = bit_number(m.cpu.reg_w(reg, w), w);
        bit_op(m, w, &rm, off, op / 8 % 4);
    }
}

fn vector_ops(m: &mut Machine, d: &Decoder, op: u8, start_ip: u32)
    requires
        d.wf(),
    ensures
        final(m)@ == old(m)@.vector_ops(*d, op, start_ip),
{
    proof {
        reveal(State::vector_ops);
    }
    if step_mmx(m, d, op) {
        return;
    }
    if !step_sse(m, d, op) {
        trap_at(m, start_ip, TrapReason::Opcode0f { op });
    }
}

fn step_total(m: &mut Machine, d: &Decoder, op: u8, start_ip: u32)
    requires
        d.wf(),
    ensures
        final(m)@ == old(m)@.twobyte_total(*d, op, start_ip),
{
    proof {
        reveal(State::twobyte_total);
    }
    if 0x18 <= op && op <= 0x1F {
        let _ = modrm(m, d);
    } else if op == 0x21 || op == 0x23 {
        let b: u8 = fetch8(m);
        let n: usize = (b / 8 % 8) as usize;
        let r: usize = (b % 8) as usize;
        if op == 0x21 {
            let v: u32 = m.cpu.dr[n];
            m.cpu.set_reg32(r, v);
        } else {
            m.cpu.dr[n] = m.cpu.regs[r];
        }
    } else if (0x40 <= op && op <= 0x4F) || (0x80 <= op && op <= 0x9F) {
        conditionals(m, d, op);
    } else if op == 0x06 {
        m.cpu.cr0 = m.cpu.cr0 & !0x8u32;
    } else if op == 0x09 {
    } else if op == 0x31 {
        let t: u64 = m.cpu.tsc;
        m.cpu.set_reg32(AX, (t % 0x1_0000_0000) as u32);
        m.cpu.set_reg32(DX, (t / 0x1_0000_0000) as u32);
    } else if op == 0xA2 {
        if m.profile.has_cpuid {
            cpuid(&mut m.cpu);
        } else {
            m.trap(TrapReason::NoCpuid);
        }
    } else if op == 0xB0 || op == 0xC0 {
        exchange8(m, d, op);
    } else if op == 0xB1 || op == 0xC1 {
        exchange_w(m, d, op);
    } else if op == 0xC7 {
        exchange_pair(m, d);
    } else if (0xC8 <= op && op <= 0xCF) || op == 0xBC || op == 0xBD || op == 0xAF || op == 0xBA
        || op == 0xA3 || op == 0xAB || op == 0xB3 || op == 0xBB {
        bit_family(m, d, op);
    } else if op == 0xB6 || op == 0xB7 || op == 0xBE || op == 0xBF {
        extend(m, d, op);
    } else if op == 0xA0 || op == 0xA8 {
        let v: u16 = if op == 0xA0 {
            m.cpu.sregs[FS]
        } else {
            m.cpu.sregs[GS]
        };
        push_w(m, v as u32, d.opsize32);
    } else if op == 0xA4 || op == 0xA5 || op == 0xAC || op == 0xAD {
        double_shift(m, d, op);
    } else if op == 0xAE {
        if !grp_0fae(m, d) {
            trap_at(m, start_ip, TrapReason::Opcode0f { op });
        }
    } else {
        vector_ops(m, d, op, start_ip);
    }
}

/// Executes one instruction of the two-byte opcodes, its `0F` already read.
pub fn step_0f(m: &mut Machine, d: &Decoder, start_ip: u32)
    requires
        d.wf(),
        old(m)@.step_0f(*d, start_ip) is Some,
    ensures
        Some(final(m)@) == old(m)@.step_0f(*d, start_ip),
{
    proof {
        reveal(State::step_0f);
    }
    let op: u8 = fetch8(m);
    if op == 0x00 {
        grp6(m, d, start_ip);
    } else if op == 0x01 {
        grp7(m, d);
    } else if op == 0x20 || op == 0x22 {
        let b: u8 = fetch8(m);
        control_move(&mut m.cpu, op == 0x22, b / 8 % 8, (b % 8) as usize);
    } else if op == 0x30 || op == 0x32 {
        m.cpu.ip = start_ip;
        interrupt_protected_err(m, 13, Some(0));
    } else if op == 0x0B {
        m.cpu.ip = start_ip;
        interrupt(m, 6);
    } else if op == 0xB2 || op == 0xB4 || op == 0xB5 {
        load_far_pointer(m, d, op);
    } else if op == 0xA1 || op == 0xA9 {
        let v: u16 = pop_w(m, d.opsize32) as u16;
        let idx: usize = if op == 0xA1 {
            FS
        } else {
            GS
        };
        let _ = load_seg(m, idx, v);
    } else {
        step_total(m, d, op, start_ip);
    }
}

/// The bit that a bit number names in memory: with `k` the register as a signed
/// number of the operand size, it is bit `k mod 8` of the byte `k div 8` away, both
/// rounded down. So bit -1 is the top bit of the byte before.
pub proof fn law_bit_in_memory(v: u32, wide: bool)
    requires
        wide || v <= 0xFFFF,
    ensures
        ({
            let k = signed_w(v, wide) as int;
            let off = bit_number(v, wide);
            &&& off % 8 == k % 8
            &&& crate::bits::signed32(bit_byte(off)) == k / 8
        }),
{
}

/// A bit test in memory, with or without paging: the carry flag is the bit as it was,
/// and of all memory only that byte changes, and only in that bit.
pub proof fn law_bit_test(s: State, wide: bool, rm: Operand, v: u32, kind: u8)
    requires
        wide || v <= 0xFFFF,
        1 <= kind <= 3,
        rm is Mem,
        s.lands(((rm->addr + signed_w(v, wide) as int / 8) % 0x1_0000_0000) as u32),
    ensures
        ({
            let k = signed_w(v, wide) as int;
            let a = s.place(((rm->addr + k / 8) % 0x1_0000_0000) as u32) as int;
            let bit = (k % 8) as u32;
            let t = s.bit_op(wide, rm, bit_number(v, wide), kind);
            &&& t.cpu == s.cpu.with_flag(CF, (s.mem[a] as u32 >> bit) & 1 != 0)
            &&& t.mem == s.mem.update(a, with_bit(s.mem[a] as u32, bit, kind) as u8)
        }),
{
    law_bit_in_memory(v, wide);
    let l = ((rm->addr + signed_w(v, wide) as int / 8) % 0x1_0000_0000) as u32;
    crate::machine::lemma_place(s, l);
    let w = s.walked(l, false);
    crate::cpu::dcache::agreement::fetch::lemma_translate_same(w, s, l, true);
    let b = s.mem[s.place(l) as int];
    let bit = (bit_number(v, wide) % 8) as u32;
    let on = (b as u32 >> bit) & 1 != 0;
    lemma_carry_keeps_translation(w, l, on);
    assert(s.read8(l) == (w, b)) by {
        reveal(State::read8);
        reveal(State::phys8);
    }
    assert(l == rm->addr.wrapping_add(bit_byte(bit_number(v, wide))));
    let c = w.with_cpu(w.cpu.with_flag(CF, on));
    let x = with_bit(b as u32, bit, kind) as u8;
    assert(s.bit_op(wide, rm, bit_number(v, wide), kind) == c.write8(l, x)) by {
        reveal(State::bit_op);
    }
    assert(c.write8(l, x) == c.walked(l, true).with_phys8(s.place(l), x)) by {
        reveal(State::write8);
    }
    reveal(State::with_phys8);
}

proof fn lemma_carry_keeps_translation(s: State, lin: u32, on: bool)
    ensures
        s.with_cpu(s.cpu.with_flag(CF, on)).translate(lin, true) == s.translate(lin, true),
{
    reveal(State::translate);
    reveal(State::phys32);
    reveal(State::phys8);
    crate::cpu::state::lemma_carry_keeps_mode(s.cpu, on);
}

} // verus!
