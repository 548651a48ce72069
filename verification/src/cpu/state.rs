//! The register file and the lazily evaluated arithmetic flags.
//!
//! Flags are written far more often than they are read, so an arithmetic
//! instruction only notes what it computed (`cc_*`), and a flag is worked out
//! when somebody asks for it. [`Cpu::eflags`] is the truth about the flags; the
//! field `flags` is only while `cc_op` is [`CC_NONE`].

use vstd::prelude::*;
use crate::bits::even_parity;
use crate::cpu::fpu::Fpu;

verus! {

pub const AX: usize = 0;
pub const CX: usize = 1;
pub const DX: usize = 2;
pub const BX: usize = 3;
pub const SP: usize = 4;
pub const BP: usize = 5;
pub const SI: usize = 6;
pub const DI: usize = 7;

pub const ES: usize = 0;
pub const CS: usize = 1;
pub const SS: usize = 2;
pub const DS: usize = 3;
pub const FS: usize = 4;
pub const GS: usize = 5;

pub const CF: u32 = 0x0001;
pub const PF: u32 = 0x0004;
pub const AF: u32 = 0x0010;
pub const ZF: u32 = 0x0040;
pub const SF: u32 = 0x0080;
/// Trap flag: while it is set, interrupt 1 follows each instruction.
pub const TF: u32 = 0x0100;
pub const IF: u32 = 0x0200;
pub const DF: u32 = 0x0400;
pub const OF: u32 = 0x0800;
/// Virtual 8086 mode.
pub const VM: u32 = 0x2_0000;

/// The six flags that arithmetic writes. The control flags are outside of the
/// lazy scheme: for them the field `flags` is always right.
pub const CC_MASK: u32 = 0x08D5;
/// `cc_op` while nothing is pending: `flags` holds all the flags.
pub const CC_NONE: u8 = 0xFF;
/// `cc_op` of INC and DEC, whose carry stays in `flags`.
pub const CC_INC: u8 = 8;
pub const CC_DEC: u8 = 9;

/// What the processor copied out of a descriptor when a segment register was
/// loaded. Accesses look at this copy and never at the descriptor table.
#[derive(Clone, Copy, Debug, PartialEq, Eq, Structural)]
pub struct SegHidden {
    pub base: u32,
    pub limit: u32,
    /// Access byte of the descriptor (present, privilege level, type).
    pub access: u8,
    /// The D bit: a code segment with it runs 32-bit code.
    pub big: bool,
}

impl SegHidden {
    /// A flat writable data segment: base 0, limit 4 GB, present, expanding
    /// upwards. Through such a segment every access is allowed and an offset is
    /// its own linear address.
    #[verifier::allow_in_spec]
    pub fn flat_rw(&self) -> bool
        returns
            self.base == 0 && self.limit == 0xFFFF_FFFF && self.access & 0x9E == 0x92,
    {
        self.base == 0 && self.limit == 0xFFFF_FFFF && self.access & 0x9E == 0x92
    }

    /// Whether so many bytes at an offset lie in the segment. One that expands
    /// downwards holds what is above its limit.
    #[verifier::allow_in_spec]
    pub fn holds(&self, off: u32, size: u32) -> bool
        returns
            (if self.access & 0x0C == 0x04 {
                off > self.limit && off + size <= (if self.big {
                    0x1_0000_0000int
                } else {
                    0x1_0000int
                })
            } else {
                off + size <= self.limit + 1
            }),
    {
        let end: u64 = off as u64 + size as u64;
        if self.access & 0x0C == 0x04 {
            off > self.limit && end <= (if self.big {
                0x1_0000_0000
            } else {
                0x1_0000
            })
        } else {
            end <= self.limit as u64 + 1
        }
    }

    /// Whether an access goes through the segment: it is there, a write finds
    /// writable data, and all bytes lie in it.
    #[verifier::allow_in_spec]
    pub fn allows(&self, off: u32, size: u32, write: bool) -> bool
        returns
            self.flat_rw() || (self.access & 0x80 != 0 && (write ==> self.access & 0x0A == 0x02)
                && self.holds(off, size)),
    {
        self.flat_rw() || (self.access & 0x80 != 0 && (!write || self.access & 0x0A == 0x02)
            && self.holds(off, size))
    }

    /// The copy that belongs to a real-mode selector: base sixteen times the
    /// selector, 64 KB, 16-bit.
    #[verifier::allow_in_spec]
    pub fn real_mode(sel: u16) -> SegHidden
        returns
            (SegHidden { base: (sel as u32) << 4, limit: 0xFFFF, access: 0x93, big: false }),
    {
        SegHidden { base: (sel as u32) << 4, limit: 0xFFFF, access: 0x93, big: false }
    }
}

#[derive(Clone, Copy)]
pub struct Cpu {
    /// EAX ECX EDX EBX ESP EBP ESI EDI
    pub regs: [u32; 8],
    /// Selectors of ES CS SS DS FS GS.
    pub sregs: [u16; 6],
    /// EIP. In 16-bit code only its low half counts, and wraps at 64 KB.
    pub ip: u32,
    /// EFLAGS, but for the six arithmetic flags while `cc_op` is not `CC_NONE`.
    pub flags: u32,
    /// The operation that last wrote the flags: an `alu` operation 0 to 7,
    /// `CC_INC`, `CC_DEC` or `CC_NONE`.
    pub cc_op: u8,
    /// Its width: 0 byte, 1 word, 2 doubleword.
    pub cc_w: u8,
    /// Its operands, the carry that went in, and its result.
    pub cc_a: u32,
    pub cc_b: u32,
    pub cc_cin: u32,
    pub cc_r: u32,
    /// Bit 0 is PE, bit 31 is PG.
    pub cr0: u32,
    /// Linear address of the last page fault.
    pub cr2: u32,
    /// Physical address of the page directory.
    pub cr3: u32,
    /// Kept and read back; no bit of it changes what the machine does.
    pub cr4: u32,
    pub gdtr_base: u32,
    pub gdtr_limit: u16,
    pub idtr_base: u32,
    pub idtr_limit: u16,
    /// Control word of the FPU.
    pub fpu_cw: u16,
    pub fpu: Fpu,
    /// Time stamp counter, one count per instruction.
    pub tsc: u64,
    /// Debug registers, kept and read back only.
    pub dr: [u32; 8],
    pub ldtr_sel: u16,
    pub ldtr_base: u32,
    pub ldtr_limit: u32,
    pub tr_sel: u16,
    pub tr_base: u32,
    pub tr_limit: u32,
    pub xmm: [u128; 8],
    pub mxcsr: u32,
    pub hidden: [SegHidden; 6],
}

/// The part of the processor that a cached instruction can change; enough to
/// take the instruction back.
#[derive(Clone, Copy)]
pub struct SlimSave {
    pub regs: [u32; 8],
    pub ip: u32,
    pub flags: u32,
    pub cc_op: u8,
    pub cc_w: u8,
    pub cc_a: u32,
    pub cc_b: u32,
    pub cc_cin: u32,
    pub cc_r: u32,
}

/// The word with the six arithmetic flags as given, and no other bit.
pub open spec fn flag_word(cf: bool, pf: bool, af: bool, zf: bool, sf: bool, of: bool) -> u32 {
    (if cf { CF } else { 0u32 }) | (if pf { PF } else { 0u32 }) | (if af { AF } else { 0u32 })
        | (if zf { ZF } else { 0u32 }) | (if sf { SF } else { 0u32 })
        | (if of { OF } else { 0u32 })
}

impl Default for Cpu {
    fn default() -> (r: Self)
        ensures
            r == Cpu::initial(),
    {
        Cpu::new()
    }
}

impl Cpu {
    /// The processor after reset.
    pub open spec fn initial() -> Cpu {
        Cpu {
            regs: [0u32, 0u32, 0u32, 0u32, 0u32, 0u32, 0u32, 0u32],
            sregs: [0u16, 0u16, 0u16, 0u16, 0u16, 0u16],
            ip: 0,
            flags: 0x0002,
            cc_op: CC_NONE,
            cc_w: 0,
            cc_a: 0,
            cc_b: 0,
            cc_cin: 0,
            cc_r: 0,
            cr0: 0,
            cr2: 0,
            cr3: 0,
            cr4: 0,
            gdtr_base: 0,
            gdtr_limit: 0,
            idtr_base: 0,
            idtr_limit: 0,
            fpu_cw: 0x037F,
            fpu: Fpu::initial(),
            tsc: 0,
            dr: [0u32, 0u32, 0u32, 0u32, 0u32, 0u32, 0xFFFF_0FF0u32, 0x400u32],
            ldtr_sel: 0,
            ldtr_base: 0,
            ldtr_limit: 0,
            tr_sel: 0,
            tr_base: 0,
            tr_limit: 0,
            xmm: [0u128, 0u128, 0u128, 0u128, 0u128, 0u128, 0u128, 0u128],
            mxcsr: 0x1F80,
            hidden: [
                SegHidden::real_mode(0),
                SegHidden::real_mode(0),
                SegHidden::real_mode(0),
                SegHidden::real_mode(0),
                SegHidden::real_mode(0),
                SegHidden::real_mode(0),
            ],
        }
    }

    pub fn new() -> (r: Self)
        ensures
            r == Cpu::initial(),
    {
        Cpu {
            regs: [0u32, 0u32, 0u32, 0u32, 0u32, 0u32, 0u32, 0u32],
            sregs: [0u16, 0u16, 0u16, 0u16, 0u16, 0u16],
            ip: 0,
            flags: 0x0002,
            cc_op: CC_NONE,
            cc_w: 0,
            cc_a: 0,
            cc_b: 0,
            cc_cin: 0,
            cc_r: 0,
            cr0: 0,
            cr2: 0,
            cr3: 0,
            cr4: 0,
            gdtr_base: 0,
            gdtr_limit: 0,
            idtr_base: 0,
            idtr_limit: 0,
            fpu_cw: 0x037F,
            fpu: Fpu::new(),
            tsc: 0,
            dr: [0u32, 0u32, 0u32, 0u32, 0u32, 0u32, 0xFFFF_0FF0u32, 0x400u32],
            ldtr_sel: 0,
            ldtr_base: 0,
            ldtr_limit: 0,
            tr_sel: 0,
            tr_base: 0,
            tr_limit: 0,
            xmm: [0u128, 0u128, 0u128, 0u128, 0u128, 0u128, 0u128, 0u128],
            mxcsr: 0x1F80,
            hidden: [
                SegHidden::real_mode(0),
                SegHidden::real_mode(0),
                SegHidden::real_mode(0),
                SegHidden::real_mode(0),
                SegHidden::real_mode(0),
                SegHidden::real_mode(0),
            ],
        }
    }

    // ---- modes ----

    /// Protected mode.
    #[verifier::allow_in_spec]
    pub fn pe(&self) -> bool
        returns
            self.cr0 & 1 != 0,
    {
        self.cr0 & 1 != 0
    }

    /// Paging.
    #[verifier::allow_in_spec]
    pub fn pg(&self) -> bool
        returns
            self.cr0 & 0x8000_0000 != 0,
    {
        self.cr0 & 0x8000_0000 != 0
    }

    /// Virtual 8086 mode.
    #[verifier::allow_in_spec]
    pub fn vm86(&self) -> bool
        returns
            self.pe() && self.flags & VM != 0,
    {
        self.pe() && self.flags & VM != 0
    }

    /// Current privilege level: the low bits of CS in protected mode, 0 in real
    /// mode, 3 in virtual 8086 mode.
    #[verifier::allow_in_spec]
    pub fn cpl(&self) -> u8
        returns
            (if self.vm86() {
                3u8
            } else if self.pe() {
                (self.sregs[CS as int] & 3) as u8
            } else {
                0u8
            }),
    {
        if self.vm86() {
            3
        } else if self.pe() {
            (self.sregs[CS] & 3) as u8
        } else {
            0
        }
    }

    /// I/O privilege level, bits 12 and 13 of EFLAGS.
    #[verifier::allow_in_spec]
    pub fn iopl(&self) -> u8
        returns
            ((self.flags >> 12) & 3) as u8,
    {
        ((self.flags >> 12) & 3) as u8
    }

    /// Base of a segment. Real mode goes by the selector, protected mode by the
    /// copy of the descriptor.
    #[verifier::allow_in_spec]
    pub fn seg_base(&self, i: usize) -> u32
        requires
            i < 6,
        returns
            (if self.pe() {
                self.hidden[i as int].base
            } else {
                (self.sregs[i as int] as u32) << 4
            }),
    {
        if self.pe() {
            self.hidden[i].base
        } else {
            (self.sregs[i] as u32) << 4
        }
    }

    /// The D bit of a segment; real mode is always 16-bit.
    #[verifier::allow_in_spec]
    pub fn seg_is32(&self, i: usize) -> bool
        requires
            i < 6,
        returns
            self.pe() && self.hidden[i as int].big,
    {
        self.pe() && self.hidden[i].big
    }

    /// The bits of the instruction pointer that count in the current code.
    #[verifier::allow_in_spec]
    pub fn ip_mask(&self) -> u32
        returns
            (if self.seg_is32(CS) {
                0xFFFF_FFFFu32
            } else {
                0xFFFFu32
            }),
    {
        if self.seg_is32(CS) {
            0xFFFF_FFFF
        } else {
            0xFFFF
        }
    }

    pub open spec fn with_ip(self, v: u32) -> Cpu {
        Cpu { ip: v & self.ip_mask(), ..self }
    }

    pub fn set_ip(&mut self, v: u32)
        ensures
            *final(self) == old(self).with_ip(v),
    {
        self.ip = v & self.ip_mask();
    }

    pub open spec fn advanced(self, n: u32) -> Cpu {
        Cpu { ip: self.ip.wrapping_add(n) & self.ip_mask(), ..self }
    }

    pub fn advance_ip(&mut self, n: u32)
        ensures
            *final(self) == old(self).advanced(n),
    {
        self.ip = self.ip.wrapping_add(n) & self.ip_mask();
    }

    /// [`advance_ip`](Self::advance_ip) for code that is known to be 32-bit.
    pub fn advance_ip32(&mut self, n: u32)
        ensures
            *final(self) == (Cpu { ip: old(self).ip.wrapping_add(n), ..*old(self) }),
            old(self).seg_is32(CS) ==> *final(self) == old(self).advanced(n),
    {
        self.ip = self.ip.wrapping_add(n);
        proof {
            lemma_full_mask(self.ip);
        }
    }

    /// [`set_ip`](Self::set_ip) for code that is known to be 32-bit.
    pub fn set_ip32(&mut self, v: u32)
        ensures
            *final(self) == (Cpu { ip: v, ..*old(self) }),
            old(self).seg_is32(CS) ==> *final(self) == old(self).with_ip(v),
    {
        self.ip = v;
        proof {
            lemma_full_mask(v);
        }
    }

    /// Linear address of an offset in a segment. Real mode wraps at 1 MB.
    #[verifier::allow_in_spec]
    pub fn lin(&self, seg: usize, off: u32) -> u32
        requires
            seg < 6,
        returns
            (if self.pe() {
                self.seg_base(seg).wrapping_add(off)
            } else {
                self.seg_base(seg).wrapping_add(off) & 0xF_FFFF
            }),
    {
        let a: u32 = self.seg_base(seg).wrapping_add(off);
        if self.pe() {
            a
        } else {
            a & 0xF_FFFF
        }
    }

    pub open spec fn with_sreg(self, i: usize, sel: u16) -> Cpu {
        Cpu { sregs: vstd::array::spec_array_update(self.sregs, i as int, sel), ..self }
    }

    pub open spec fn with_hidden(self, i: usize, h: SegHidden) -> Cpu {
        Cpu { hidden: vstd::array::spec_array_update(self.hidden, i as int, h), ..self }
    }

    pub fn set_cs_ip(&mut self, cs: u16, ip: u16)
        ensures
            *final(self) == (Cpu { ip: ip as u32, ..old(self).with_sreg(CS, cs) }),
    {
        self.sregs[CS] = cs;
        self.ip = ip as u32;
    }

    // ---- general registers ----

    pub open spec fn with_reg(self, r: usize, v: u32) -> Cpu {
        Cpu { regs: vstd::array::spec_array_update(self.regs, r as int, v), ..self }
    }

    pub open spec fn with_reg16(self, r: usize, v: u16) -> Cpu {
        self.with_reg(r, (self.regs[r as int] & 0xFFFF_0000) | v as u32)
    }

    pub open spec fn with_reg_w(self, r: usize, v: u32, wide: bool) -> Cpu {
        if wide {
            self.with_reg(r, v)
        } else {
            self.with_reg16(r, v as u16)
        }
    }

    pub open spec fn with_reg8(self, r: usize, v: u8) -> Cpu {
        if r < 4 {
            self.with_reg(r, (self.regs[r as int] & 0xFFFF_FF00) | v as u32)
        } else {
            self.with_reg((r - 4) as usize, (self.regs[r - 4] & 0xFFFF_00FF) | ((v as u32) << 8))
        }
    }

    #[verifier::allow_in_spec]
    pub fn reg16(&self, r: usize) -> u16
        requires
            r < 8,
        returns
            self.regs[r as int] as u16,
    {
        self.regs[r] as u16
    }

    /// The upper half of the register stays.
    pub fn set_reg16(&mut self, r: usize, v: u16)
        requires
            r < 8,
        ensures
            *final(self) == old(self).with_reg16(r, v),
    {
        self.regs[r] = (self.regs[r] & 0xFFFF_0000) | v as u32;
    }

    #[verifier::allow_in_spec]
    pub fn reg32(&self, r: usize) -> u32
        requires
            r < 8,
        returns
            self.regs[r as int],
    {
        self.regs[r]
    }

    pub fn set_reg32(&mut self, r: usize, v: u32)
        requires
            r < 8,
        ensures
            *final(self) == old(self).with_reg(r, v),
    {
        self.regs[r] = v;
    }

    #[verifier::allow_in_spec]
    pub fn reg_w(&self, r: usize, wide: bool) -> u32
        requires
            r < 8,
        returns
            (if wide {
                self.regs[r as int]
            } else {
                self.regs[r as int] as u16 as u32
            }),
    {
        if wide {
            self.reg32(r)
        } else {
            self.reg16(r) as u32
        }
    }

    pub fn set_reg_w(&mut self, r: usize, v: u32, wide: bool)
        requires
            r < 8,
        ensures
            *final(self) == old(self).with_reg_w(r, v, wide),
    {
        if wide {
            self.set_reg32(r, v)
        } else {
            self.set_reg16(r, v as u16)
        }
    }

    /// Byte register: 0 to 3 are AL CL DL BL, 4 to 7 are AH CH DH BH.
    #[verifier::allow_in_spec]
    pub fn reg8(&self, r: usize) -> u8
        requires
            r < 8,
        returns
            (if r < 4 {
                self.regs[r as int] as u8
            } else {
                (self.regs[r - 4] >> 8) as u8
            }),
    {
        if r < 4 {
            self.regs[r] as u8
        } else {
            (self.regs[r - 4] >> 8) as u8
        }
    }

    pub fn set_reg8(&mut self, r: usize, v: u8)
        requires
            r < 8,
        ensures
            *final(self) == old(self).with_reg8(r, v),
    {
        if r < 4 {
            self.regs[r] = (self.regs[r] & 0xFFFF_FF00) | v as u32;
        } else {
            self.regs[r - 4] = (self.regs[r - 4] & 0xFFFF_00FF) | ((v as u32) << 8);
        }
    }

    // ---- lazy flags ----

    pub open spec fn with_cc(self, op: u8, w: u8, a: u32, b: u32, cin: u32, r: u32) -> Cpu {
        Cpu { cc_op: op, cc_w: w, cc_a: a, cc_b: b, cc_cin: cin, cc_r: r, ..self }
    }

    /// Notes what an operation computed; no flag is worked out yet.
    pub fn set_cc(&mut self, op: u8, w: u8, a: u32, b: u32, cin: u32, r: u32)
        ensures
            *final(self) == old(self).with_cc(op, w, a, b, cin, r),
    {
        self.cc_op = op;
        self.cc_w = w;
        self.cc_a = a;
        self.cc_b = b;
        self.cc_cin = cin;
        self.cc_r = r;
    }

    #[verifier::opaque]
    pub open spec fn with_cc_incdec(self, op: u8, w: u8, a: u32, r: u32) -> Cpu {
        let f: u32 = if self.flag(CF) {
            self.flags | CF
        } else {
            self.flags & !CF
        };
        Cpu { flags: f, ..self.with_cc(op, w, a, 1, 0, r) }
    }

    /// For INC and DEC, which keep the carry: it is worked out and stored in
    /// `flags` before the pending operation is replaced.
    pub fn set_cc_incdec(&mut self, op: u8, w: u8, a: u32, r: u32)
        ensures
            *final(self) == old(self).with_cc_incdec(op, w, a, r),
    {
        proof {
            reveal(Cpu::with_cc_incdec);
        }
        let cf = self.flag(CF);
        self.set_cc(op, w, a, 1, 0, r);
        if cf {
            self.flags = self.flags | CF;
        } else {
            self.flags = self.flags & !CF;
        }
    }

    /// Sign bit of the pending operation's width.
    #[verifier::allow_in_spec]
    pub fn cc_sign(&self) -> u32
        returns
            (if self.cc_w == 0 {
                0x80u32
            } else if self.cc_w == 1 {
                0x8000u32
            } else {
                0x8000_0000u32
            }),
    {
        if self.cc_w == 0 {
            0x80
        } else if self.cc_w == 1 {
            0x8000
        } else {
            0x8000_0000
        }
    }

    /// Carry of the pending operation: a sum that does not fit, a difference
    /// that borrows; INC and DEC keep the carry in `flags`.
    #[verifier::allow_in_spec]
    pub fn cc_cf(&self) -> bool
        returns
            (match self.cc_op {
                0 | 2 => self.cc_a + self.cc_b + self.cc_cin >= 2 * self.cc_sign(),
                3 | 5 | 7 => self.cc_a < self.cc_b + self.cc_cin,
                8 | 9 => self.flags & CF != 0,
                _ => false,
            }),
    {
        let a: u64 = self.cc_a as u64;
        let b: u64 = self.cc_b as u64;
        let cin: u64 = self.cc_cin as u64;
        match self.cc_op {
            0 | 2 => a + b + cin >= 2 * self.cc_sign() as u64,
            3 | 5 | 7 => a < b + cin,
            8 | 9 => self.flags & CF != 0,
            _ => false,
        }
    }

    /// Signed overflow of the pending operation.
    #[verifier::allow_in_spec]
    pub fn cc_of(&self) -> bool
        returns
            (match self.cc_op {
                0 | 2 => (self.cc_a ^ !self.cc_b) & (self.cc_a ^ self.cc_r) & self.cc_sign() != 0,
                3 | 5 | 7 => (self.cc_a ^ self.cc_b) & (self.cc_a ^ self.cc_r) & self.cc_sign()
                    != 0,
                8 => self.cc_a == self.cc_sign() - 1,
                9 => self.cc_a == self.cc_sign(),
                _ => false,
            }),
    {
        let a: u32 = self.cc_a;
        let b: u32 = self.cc_b;
        let r: u32 = self.cc_r;
        let s: u32 = self.cc_sign();
        match self.cc_op {
            0 | 2 => (a ^ !b) & (a ^ r) & s != 0,
            3 | 5 | 7 => (a ^ b) & (a ^ r) & s != 0,
            8 => a == s - 1,
            9 => a == s,
            _ => false,
        }
    }

    /// Carry out of the low four bits of the pending operation.
    #[verifier::allow_in_spec]
    pub fn cc_af(&self) -> bool
        returns
            (match self.cc_op {
                0 | 2 => (self.cc_a & 0xF) + (self.cc_b & 0xF) + self.cc_cin > 0xF,
                3 | 5 | 7 => (self.cc_a & 0xF) < (self.cc_b & 0xF) + self.cc_cin,
                8 => self.cc_a & 0xF == 0xF,
                9 => self.cc_a & 0xF == 0,
                _ => false,
            }),
    {
        let a: u64 = (self.cc_a & 0xF) as u64;
        let b: u64 = (self.cc_b & 0xF) as u64;
        let cin: u64 = self.cc_cin as u64;
        match self.cc_op {
            0 | 2 => a + b + cin > 0xF,
            3 | 5 | 7 => a < b + cin,
            8 => a == 0xF,
            9 => a == 0,
            _ => false,
        }
    }

    #[verifier::allow_in_spec]
    pub fn cc_sf(&self) -> bool
        returns
            self.cc_r & self.cc_sign() != 0,
    {
        self.cc_r & self.cc_sign() != 0
    }

    #[verifier::allow_in_spec]
    pub fn cc_pf(&self) -> bool
        returns
            even_parity(self.cc_r as u8),
    {
        even_parity(self.cc_r as u8)
    }

    /// The six flags of the pending operation.
    #[verifier::allow_in_spec]
    pub fn cc_compute(&self) -> u32
        returns
            flag_word(
                self.cc_cf(),
                self.cc_pf(),
                self.cc_af(),
                self.cc_r == 0,
                self.cc_sf(),
                self.cc_of(),
            ),
    {
        (if self.cc_cf() { CF } else { 0 }) | (if self.cc_pf() { PF } else { 0 })
            | (if self.cc_af() { AF } else { 0 }) | (if self.cc_r == 0 { ZF } else { 0 })
            | (if self.cc_sf() { SF } else { 0 }) | (if self.cc_of() { OF } else { 0 })
    }

    /// What EFLAGS come to: `flags`, with the six arithmetic flags of what is
    /// pending.
    #[verifier::opaque]
    pub open spec fn flags_now(self) -> u32 {
        if self.cc_op == CC_NONE {
            self.flags
        } else {
            (self.flags & !CC_MASK) | self.cc_compute()
        }
    }

    /// All of EFLAGS, with what is pending worked out.
    #[verifier::allow_in_spec]
    pub fn eflags(&self) -> u32
        returns
            self.flags_now(),
    {
        proof {
            reveal(Cpu::flags_now);
        }
        if self.cc_op == CC_NONE {
            self.flags
        } else {
            (self.flags & !CC_MASK) | self.cc_compute()
        }
    }

    pub open spec fn with_eflags(self, v: u32) -> Cpu {
        Cpu { flags: v, cc_op: CC_NONE, ..self }
    }

    /// Writes all of EFLAGS; nothing stays pending.
    pub fn set_eflags(&mut self, v: u32)
        ensures
            *final(self) == old(self).with_eflags(v),
            final(self).eflags() == v,
    {
        proof {
            reveal(Cpu::flags_now);
        }
        self.flags = v;
        self.cc_op = CC_NONE;
    }

    /// Folds what is pending into `flags`.
    pub fn materialize(&mut self)
        ensures
            *final(self) == old(self).with_eflags(old(self).eflags()),
            final(self).eflags() == old(self).eflags(),
    {
        proof {
            reveal(Cpu::flags_now);
        }
        self.flags = self.eflags();
        self.cc_op = CC_NONE;
    }

    /// Whether any flag under the mask is set.
    #[verifier::allow_in_spec]
    pub fn flag(&self, mask: u32) -> bool
        returns
            self.eflags() & mask != 0,
    {
        proof {
            reveal(Cpu::flags_now);
        }
        proof {
            lemma_pending_flags(
                self.flags,
                mask,
                self.cc_cf(),
                self.cc_pf(),
                self.cc_af(),
                self.cc_r == 0,
                self.cc_sf(),
                self.cc_of(),
            );
        }
        if self.cc_op == CC_NONE || mask & CC_MASK == 0 {
            return self.flags & mask != 0;
        }
        if mask == CF {
            self.cc_cf()
        } else if mask == ZF {
            self.cc_r == 0
        } else if mask == SF {
            self.cc_sf()
        } else if mask == OF {
            self.cc_of()
        } else if mask == PF {
            self.cc_pf()
        } else if mask == AF {
            self.cc_af()
        } else {
            self.eflags() & mask != 0
        }
    }

    #[verifier::opaque]
    pub open spec fn with_flag(self, mask: u32, on: bool) -> Cpu {
        let c = if self.cc_op != CC_NONE && mask & CC_MASK != 0 {
            self.with_eflags(self.eflags())
        } else {
            self
        };
        Cpu { flags: if on { c.flags | mask } else { c.flags & !mask }, ..c }
    }

    /// Sets or clears the flags under the mask. Where one of them is among the
    /// six, what is pending is folded in first, so that the rest of the six stay.
    pub fn set_flag(&mut self, mask: u32, on: bool)
        ensures
            *final(self) == old(self).with_flag(mask, on),
            final(self).eflags() == (if on {
                old(self).eflags() | mask
            } else {
                old(self).eflags() & !mask
            }),
    {
        proof {
            reveal(Cpu::with_flag);
        }
        proof {
            lemma_with_flag(*self, mask, on);
        }
        if self.cc_op != CC_NONE && mask & CC_MASK != 0 {
            self.materialize();
        }
        if on {
            self.flags = self.flags | mask;
        } else {
            self.flags = self.flags & !mask;
        }
    }

    /// A BIOS service reports failure in the carry.
    pub fn set_flag_cf(&mut self, on: bool)
        ensures
            *final(self) == old(self).with_flag(CF, on),
    {
        self.set_flag(CF, on);
    }

    // ---- taking an instruction back ----

    pub open spec fn slim(self) -> SlimSave {
        SlimSave {
            regs: self.regs,
            ip: self.ip,
            flags: self.flags,
            cc_op: self.cc_op,
            cc_w: self.cc_w,
            cc_a: self.cc_a,
            cc_b: self.cc_b,
            cc_cin: self.cc_cin,
            cc_r: self.cc_r,
        }
    }

    pub open spec fn with_slim(self, s: SlimSave) -> Cpu {
        Cpu {
            regs: s.regs,
            ip: s.ip,
            flags: s.flags,
            cc_op: s.cc_op,
            cc_w: s.cc_w,
            cc_a: s.cc_a,
            cc_b: s.cc_b,
            cc_cin: s.cc_cin,
            cc_r: s.cc_r,
            ..self
        }
    }

    pub fn save_slim(&self, s: &mut SlimSave)
        ensures
            *final(s) == self.slim(),
    {
        s.regs = self.regs;
        s.ip = self.ip;
        s.flags = self.flags;
        s.cc_op = self.cc_op;
        s.cc_w = self.cc_w;
        s.cc_a = self.cc_a;
        s.cc_b = self.cc_b;
        s.cc_cin = self.cc_cin;
        s.cc_r = self.cc_r;
    }

    /// [`save_slim`](Self::save_slim) with another instruction pointer: the head
    /// of the instruction, when the pointer is already past it.
    pub fn save_slim_at(&self, s: &mut SlimSave, ip: u32)
        ensures
            *final(s) == (SlimSave { ip, ..self.slim() }),
    {
        self.save_slim(s);
        s.ip = ip;
    }

    pub fn restore_slim(&mut self, s: &SlimSave)
        ensures
            *final(self) == old(self).with_slim(*s),
    {
        self.regs = s.regs;
        self.ip = s.ip;
        self.flags = s.flags;
        self.cc_op = s.cc_op;
        self.cc_w = s.cc_w;
        self.cc_a = s.cc_a;
        self.cc_b = s.cc_b;
        self.cc_cin = s.cc_cin;
        self.cc_r = s.cc_r;
    }
}

pub proof fn lemma_full_mask(v: u32)
    by (bit_vector)
    ensures
        v & 0xFFFF_FFFF == v,
{
}

/// How the six pending flags show in the whole word.
pub proof fn lemma_pending_flags(
    flags: u32,
    mask: u32,
    cf: bool,
    pf: bool,
    af: bool,
    zf: bool,
    sf: bool,
    of: bool,
)
    by (bit_vector)
    ensures
        ({
            let e = (flags & !CC_MASK) | flag_word(cf, pf, af, zf, sf, of);
            &&& mask & CC_MASK == 0 ==> e & mask == flags & mask
            &&& (e & CF != 0) == cf
            &&& (e & PF != 0) == pf
            &&& (e & AF != 0) == af
            &&& (e & ZF != 0) == zf
            &&& (e & SF != 0) == sf
            &&& (e & OF != 0) == of
        }),
{
}

proof fn lemma_flag_bits(
    flags: u32,
    mask: u32,
    cf: bool,
    pf: bool,
    af: bool,
    zf: bool,
    sf: bool,
    of: bool,
)
    by (bit_vector)
    requires
        mask & CC_MASK == 0,
    ensures
        ({
            let f = flag_word(cf, pf, af, zf, sf, of);
            &&& ((flags | mask) & !CC_MASK) | f == ((flags & !CC_MASK) | f) | mask
            &&& ((flags & !mask) & !CC_MASK) | f == ((flags & !CC_MASK) | f) & !mask
        }),
{
}

/// Setting or clearing flags sets or clears them in EFLAGS and changes no other
/// flag, whether or not an operation was pending.
///
/// INC and DEC keep their carry in `flags`; the mask of such a call either holds
/// one of the six flags, and everything is folded in, or leaves that bit alone.
pub proof fn lemma_with_flag(c: Cpu, mask: u32, on: bool)
    ensures
        c.with_flag(mask, on).eflags() == (if on {
            c.eflags() | mask
        } else {
            c.eflags() & !mask
        }),
{
    reveal(Cpu::flags_now);
    reveal(Cpu::with_flag);
    if c.cc_op != CC_NONE && mask & CC_MASK == 0 {
        let d = c.with_flag(mask, on);
        lemma_keeps_carry(c.flags, mask);
        assert(d.cc_cf() == c.cc_cf());
        lemma_flag_bits(
            c.flags,
            mask,
            c.cc_cf(),
            c.cc_pf(),
            c.cc_af(),
            c.cc_r == 0,
            c.cc_sf(),
            c.cc_of(),
        );
    }
}

proof fn lemma_keeps_carry(flags: u32, mask: u32)
    by (bit_vector)
    requires
        mask & CC_MASK == 0,
    ensures
        (flags | mask) & CF == flags & CF,
        (flags & !mask) & CF == flags & CF,
{
}

proof fn lemma_keeps_vm(flags: u32, cf: bool, pf: bool, af: bool, zf: bool, sf: bool, of: bool)
    by (bit_vector)
    ensures
        ({
            let f = (flags & !CC_MASK) | flag_word(cf, pf, af, zf, sf, of);
            &&& f & VM == flags & VM
            &&& (f | CF) & VM == flags & VM
            &&& (f & !CF) & VM == flags & VM
        }),
        (flags | CF) & VM == flags & VM,
        (flags & !CF) & VM == flags & VM,
{
}

/// Setting or clearing the carry leaves the mode that the processor runs in alone.
pub proof fn lemma_carry_keeps_mode(c: Cpu, on: bool)
    ensures
        c.with_flag(CF, on) == (Cpu {
            flags: c.with_flag(CF, on).flags,
            cc_op: c.with_flag(CF, on).cc_op,
            ..c
        }),
        c.with_flag(CF, on).cpl() == c.cpl(),
{
    reveal(Cpu::flags_now);
    reveal(Cpu::with_flag);
    lemma_keeps_vm(
        c.flags,
        c.cc_cf(),
        c.cc_pf(),
        c.cc_af(),
        c.cc_r == 0,
        c.cc_sf(),
        c.cc_of(),
    );
}

/// Writing EFLAGS and reading them gives back what was written, and folding in
/// what is pending changes no flag.
pub proof fn law_eflags_read_back(c: Cpu, v: u32)
    ensures
        c.with_eflags(v).eflags() == v,
        c.with_eflags(c.eflags()).eflags() == c.eflags(),
        forall|mask: u32| #[trigger] c.with_eflags(c.eflags()).flag(mask) == c.flag(mask),
{
    reveal(Cpu::flags_now);
}

/// What was saved before a cached instruction and put back afterwards undoes
/// every change that stays within the registers, the instruction pointer and the
/// flags.
pub proof fn law_slim_restores(before: Cpu, written: SlimSave)
    ensures
        before.with_slim(written).with_slim(before.slim()) == before,
{
}

/// A register of each width reads back what was written to it, a narrow write
/// keeps the rest of the register, and no other register changes.
pub proof fn law_register_read_back(c: Cpu, r: usize, v: u32)
    requires
        r < 8,
    ensures
        c.with_reg(r, v).reg32(r) == v,
        c.with_reg16(r, v as u16).reg16(r) == v as u16,
        c.with_reg16(r, v as u16).reg32(r) >> 16 == c.reg32(r) >> 16,
        c.with_reg8(r, v as u8).reg8(r) == v as u8,
        forall|q: usize| q < 8 && q != r ==> #[trigger] c.with_reg(r, v).reg32(q) == c.reg32(q),
        forall|q: usize|
            q < 8 && q != r ==> #[trigger] c.with_reg16(r, v as u16).reg32(q) == c.reg32(q),
        forall|q: usize|
            q < 8 && q != r ==> #[trigger] c.with_reg8(r, v as u8).reg8(q) == c.reg8(q),
{
    let i: int = if r < 4 { r as int } else { r - 4 };
    lemma_halves(c.regs[r as int], v);
    lemma_bytes(c.regs[i], v);
    assert forall|q: usize| q < 8 && q != r implies #[trigger] c.with_reg8(r, v as u8).reg8(q)
        == c.reg8(q) by {
        lemma_bytes(c.regs[i], v);
    }
}

proof fn lemma_halves(old: u32, v: u32)
    by (bit_vector)
    ensures
        ((old & 0xFFFF_0000) | (v as u16 as u32)) as u16 == v as u16,
        ((old & 0xFFFF_0000) | (v as u16 as u32)) >> 16 == old >> 16,
{
}

proof fn lemma_bytes(old: u32, v: u32)
    by (bit_vector)
    ensures
        ((old & 0xFFFF_FF00) | (v as u8 as u32)) as u8 == v as u8,
        (((old & 0xFFFF_FF00) | (v as u8 as u32)) >> 8) as u8 == (old >> 8) as u8,
        (((old & 0xFFFF_00FF) | ((v as u8 as u32) << 8)) >> 8) as u8 == v as u8,
        ((old & 0xFFFF_00FF) | ((v as u8 as u32) << 8)) as u8 == old as u8,
{
}

} // verus!
