//! Fetching the bytes that were decoded.

use vstd::prelude::*;
use crate::cpu::dcache::decode::Prefixes;
use crate::cpu::dcache::{MemRef, Rm};
use crate::cpu::operand::{Decoder, Operand};
use crate::cpu::state::{Cpu, CS};
use crate::machine::{Fault, State};

verus! {

impl State {
    /// The instruction pointer of 32-bit code behind on.
    pub open spec fn behind(self, n: int) -> State {
        self.with_cpu(Cpu { ip: self.cpu.ip.wrapping_add(n as u32), ..self.cpu })
    }

    /// 32-bit code runs whose first byte is at a physical address and whose byte `i`
    /// comes next; its page is known to be accessed.
    pub open spec fn runs_at(self, pa: u32, i: int) -> bool {
        &&& self.cpu.seg_is32(CS)
        &&& 0 <= i <= 16
        &&& self.translate(self.cpu.lin(CS, self.cpu.ip.wrapping_sub(i as u32)), false)
            == Ok::<u32, Fault>(pa)
        &&& self.quiet(self.cpu.lin(CS, self.cpu.ip.wrapping_sub(i as u32)), false)
    }
}

pub proof fn lemma_page(a: u32, p: u32, i: u32)
    requires
        i < 0x1000,
        a % 0x1000 + i < 0x1000,
    ensures
        a + i <= u32::MAX,
        ((a + i) as u32) >> 22 == a >> 22,
        ((a + i) as u32) >> 12 == a >> 12,
        (p & 0xFFFF_F000) | (((a + i) as u32) & 0xFFF) == ((p & 0xFFFF_F000) | (a & 0xFFF)) + i,
{
    assert(a + i <= 0xFFFF_FFFF && ((a + i) as u32) >> 22 == a >> 22 && ((a + i) as u32) >> 12 == a
        >> 12 && (p & 0xFFFF_F000) | (((a + i) as u32) & 0xFFF) == ((p & 0xFFFF_F000) | (a & 0xFFF))
        + i) by (bit_vector)
        requires
            i < 0x1000,
            a % 0x1000 + i < 0x1000,
    ;
}

pub proof fn lemma_low_bits(a: u32, p: u32)
    ensures
        ((p & 0xFFFF_F000) | (a & 0xFFF)) % 0x1000 == a % 0x1000,
{
    assert(((p & 0xFFFF_F000) | (a & 0xFFF)) % 0x1000 == a % 0x1000) by (bit_vector);
}

/// The pages do not depend on the instruction pointer or on a fault that was noted.
pub proof fn lemma_translate_same(s: State, t: State, lin: u32, write: bool)
    requires
        s.mem == t.mem,
        s.sys_access == t.sys_access,
        s.cpu == (Cpu { ip: s.cpu.ip, ..t.cpu }),
    ensures
        s.translate(lin, write) == t.translate(lin, write),
{
    reveal(State::translate);
    reveal(State::phys32);
    reveal(State::phys8);
}

/// Bytes of one page are next to each other in physical memory.
proof fn lemma_translate_ahead(s: State, lin: u32, pa: u32, i: int)
    requires
        s.translate(lin, false) == Ok::<u32, Fault>(pa),
        0 <= i,
        pa % 0x1000 + i < 0x1000,
    ensures
        lin + i <= u32::MAX,
        pa + i <= u32::MAX,
        s.translate((lin + i) as u32, false) == Ok::<u32, Fault>((pa + i) as u32),
        s.quiet((lin + i) as u32, false) == s.quiet(lin, false),
{
    reveal(State::translate);
    if s.cpu.pg() {
        let pde = s.phys32((s.cpu.cr3 & 0xFFFF_F000) | ((lin >> 22) << 2));
        let pte = s.phys32((pde & 0xFFFF_F000) | (((lin >> 12) & 0x3FF) << 2));
        lemma_low_bits(lin, pte);
        lemma_page(lin, pte, i as u32);
        crate::walk::lemma_walk_ahead(s, lin, i as u32, false);
    }
}

/// A byte that was decoded is the byte that is fetched.
pub proof fn lemma_fetch8(s: State, pa: u32, i: int)
    requires
        s.runs_at(pa, i),
        crate::cpu::dcache::decode::code(s.mem, pa, i) is Some,
    ensures
        s.fetch8() == (s.behind(1), crate::cpu::dcache::decode::code(s.mem, pa, i)->0),
        s.behind(1).runs_at(pa, i + 1),
{
    reveal(State::behind);
    reveal(State::fetch8);
    reveal(State::read8);
    reveal(State::phys8);
    let lin = s.cpu.lin(CS, s.cpu.ip.wrapping_sub(i as u32));
    lemma_translate_ahead(s, lin, pa, i);
    assert(s.cpu.lin(CS, s.cpu.ip) == lin + i);
    crate::cpu::state::lemma_full_mask(s.cpu.ip.wrapping_add(1));
    lemma_translate_same(s.behind(1), s, lin, false);
    crate::walk::lemma_walk_same(s.behind(1), s, lin, false);
    assert(s.behind(1).cpu.ip.wrapping_sub((i + 1) as u32) == s.cpu.ip.wrapping_sub(i as u32));
}

pub proof fn lemma_behind_twice(s: State, a: int, b: int)
    requires
        0 <= a,
        0 <= b,
        a + b <= u32::MAX,
    ensures
        s.behind(a).behind(b) == s.behind(a + b),
{
    reveal(State::behind);
}

pub proof fn lemma_fetch32(s: State, pa: u32, i: int)
    requires
        s.runs_at(pa, i),
        crate::cpu::dcache::decode::code32(s.mem, pa, i) is Some,
    ensures
        s.fetch32() == (s.behind(4), crate::cpu::dcache::decode::code32(s.mem, pa, i)->0),
        s.behind(4).runs_at(pa, i + 4),
{
    reveal(State::fetch16);
    reveal(State::fetch32);
    lemma_fetch8(s, pa, i);
    lemma_fetch8(s.behind(1), pa, i + 1);
    lemma_behind_twice(s, 1, 1);
    lemma_fetch8(s.behind(2), pa, i + 2);
    lemma_behind_twice(s, 2, 1);
    lemma_fetch8(s.behind(3), pa, i + 3);
    lemma_behind_twice(s, 3, 1);
}

/// The decoder of the interpreter after the same prefixes.
pub open spec fn decoder_of(p: Prefixes) -> Decoder {
    Decoder {
        seg_override: match p.seg {
            Some(x) => Some(x as usize),
            None => None,
        },
        rep: p.rep,
        opsize32: !p.o16,
        addrsize32: true,
        p66: p.o16,
        lock: false,
    }
}

pub open spec fn is_segment(seg: Option<u8>) -> bool {
    seg matches Some(x) ==> x < 6
}

pub proof fn lemma_prefixes(s: State, pa: u32, i: int, p: Prefixes, limit: nat)
    requires
        s.runs_at(pa, i),
        i < 15,
        limit > 15 - i,
        is_segment(p.seg),
        crate::cpu::dcache::decode::prefixes_from(s.mem, pa, i, p) is Some,
    ensures
        ({
            let (q, op, j) = crate::cpu::dcache::decode::prefixes_from(s.mem, pa, i, p)->0;
            &&& i < j <= 15
            &&& is_segment(q.seg)
            &&& s.prefixes(decoder_of(p), true, limit) == Some((s.behind(j - i), decoder_of(q), op))
            &&& s.behind(j - i).runs_at(pa, j)
            &&& op != 0xF0 && op != 0x67
        }),
    decreases 15 - i,
{
    reveal_with_fuel(State::prefixes, 2);
    lemma_fetch8(s, pa, i);
    let x = crate::cpu::dcache::decode::code(s.mem, pa, i)->0;
    if let Some(q) = crate::cpu::dcache::decode::prefix_added(p, x) {
        lemma_prefixes(s.behind(1), pa, i + 1, q, (limit - 1) as nat);
        let j = (crate::cpu::dcache::decode::prefixes_from(s.mem, pa, i, p)->0).2;
        lemma_behind_twice(s, 1, j - (i + 1));
        assert(crate::cpu::prefixed(decoder_of(p), x, true) == Some(decoder_of(q)));
    } else {
        assert(crate::cpu::prefixed(decoder_of(p), x, true) is None);
    }
}

/// The base and the scaled index of a memory operand.
#[verifier::opaque]
pub open spec fn base_of(c: Cpu, base: i8, index: i8, scale: u8) -> u32 {
    let a = if base >= 0 {
        c.regs[crate::cpu::dcache::exec::reg_of(base as u8) as int]
    } else {
        0u32
    };
    if index >= 0 {
        a.wrapping_add(
            c.regs[crate::cpu::dcache::exec::reg_of(index as u8) as int] << (scale % 4) as u32,
        )
    } else {
        a
    }
}

#[verifier::spinoff_prover]
#[verifier::rlimit(60)]
proof fn lemma_base(s: State, pa: u32, i: int, md: u8, rm: u8)
    requires
        s.runs_at(pa, i),
        rm < 8,
        crate::cpu::dcache::decode::base_at(s.mem, pa, i, md, rm) is Some,
    ensures
        ({
            let (base, index, scale, disp, seg, j) = crate::cpu::dcache::decode::base_at(
                s.mem,
                pa,
                i,
                md,
                rm,
            )->0;
            &&& i <= j <= 16
            &&& seg < 6
            &&& s.modrm_base(md, rm as usize) == (
                s.behind(j - i),
                base_of(s.cpu, base, index, scale).wrapping_add(disp),
                seg as usize,
            )
            &&& s.behind(j - i).runs_at(pa, j)
        }),
{
    reveal(State::behind);
    reveal(State::modrm_base);
    reveal(base_of);
    if rm == 4 {
        lemma_fetch8(s, pa, i);
        let sib = crate::cpu::dcache::decode::code(s.mem, pa, i)->0;
        if sib % 8 == 5 && md == 0 {
            lemma_fetch32(s.behind(1), pa, i + 1);
            lemma_behind_twice(s, 1, 4);
        }
    } else if rm == 5 && md == 0 {
        lemma_fetch32(s, pa, i);
    } else {
        assert(s.behind(0) == s);
    }
}

proof fn lemma_disp(s: State, pa: u32, i: int, md: u8)
    requires
        s.runs_at(pa, i),
        md < 3,
        crate::cpu::dcache::decode::disp_at(s.mem, pa, i, md) is Some,
    ensures
        ({
            let (disp, j) = crate::cpu::dcache::decode::disp_at(s.mem, pa, i, md)->0;
            &&& i <= j <= 16
            &&& s.modrm_disp(md) == (s.behind(j - i), disp)
            &&& s.behind(j - i).runs_at(pa, j)
        }),
{
    reveal(State::behind);
    reveal(State::modrm_disp);
    if md == 0 {
        assert(s.behind(0) == s);
    } else if md == 1 {
        lemma_fetch8(s, pa, i);
    } else {
        lemma_fetch32(s, pa, i);
    }
}

proof fn lemma_offset(s: State, r: MemRef, disp0: u32, disp1: u32)
    requires
        r.disp == disp0.wrapping_add(disp1),
    ensures
        s.off_of(r) == base_of(s.cpu, r.base, r.index, r.scale).wrapping_add(disp0).wrapping_add(
            disp1,
        ),
{
    reveal(base_of);
}

/// An address form, from its base and its displacement.
proof fn lemma_address(
    s: State,
    d: Decoder,
    seg: Option<u8>,
    default_seg: u8,
    n: int,
    r: MemRef,
    disp0: u32,
    disp1: u32,
)
    requires
        is_segment(seg),
        default_seg < 6,
        d.seg_override == (match seg {
            Some(x) => Some(x as usize),
            None => None::<usize>,
        }),
        r.seg == (match seg {
            Some(x) => x,
            None => default_seg,
        }),
        r.disp == disp0.wrapping_add(disp1),
    ensures
        s.behind(n).mem_operand(
            d,
            default_seg as usize,
            base_of(s.cpu, r.base, r.index, r.scale).wrapping_add(disp0).wrapping_add(disp1),
        ) == s.operand_of(Rm::Mem(r)),
{
    reveal(State::behind);
    lemma_offset(s, r, disp0, disp1);
}

pub proof fn lemma_modrm(s: State, pa: u32, i: int, p: Prefixes)
    requires
        s.runs_at(pa, i),
        is_segment(p.seg),
        crate::cpu::dcache::decode::modrm_at(s.mem, pa, i, p.seg) is Some,
    ensures
        ({
            let (reg, rm, k) = crate::cpu::dcache::decode::modrm_at(s.mem, pa, i, p.seg)->0;
            &&& reg < 8
            &&& i < k <= 16
            &&& s.modrm(decoder_of(p)) == (s.behind(k - i), reg as usize, s.operand_of(rm))
            &&& s.behind(k - i).runs_at(pa, k)
        }),
{
    reveal(crate::cpu::dcache::decode::modrm_at);
    reveal(State::modrm);
    reveal(State::modrm32);
    lemma_fetch8(s, pa, i);
    let b = crate::cpu::dcache::decode::code(s.mem, pa, i)->0;
    let md = (b / 64) as u8;
    let rm = (b % 8) as u8;
    let s1 = s.behind(1);
    assert(s1.mem == s.mem) by {
        reveal(State::behind);
    }
    if md != 3 {
        lemma_base(s1, pa, i + 1, md, rm);
        let (base, index, scale, disp0, seg, j) = crate::cpu::dcache::decode::base_at(
            s.mem,
            pa,
            i + 1,
            md,
            rm,
        )->0;
        lemma_behind_twice(s, 1, j - (i + 1));
        assert(s.behind(j - i).mem == s.mem) by {
            reveal(State::behind);
        }
        lemma_disp(s.behind(j - i), pa, j, md);
        let (disp1, k) = crate::cpu::dcache::decode::disp_at(s.mem, pa, j, md)->0;
        lemma_behind_twice(s, j - i, k - j);
        let r = MemRef {
            base,
            index,
            scale,
            seg: match p.seg {
                Some(x) => x,
                None => seg,
            },
            disp: disp0.wrapping_add(disp1),
        };
        lemma_address(s, decoder_of(p), p.seg, seg, k - i, r, disp0, disp1);
        assert(s1.cpu.regs == s.cpu.regs) by {
            reveal(State::behind);
        }
        assert(base_of(s1.cpu, base, index, scale) == base_of(s.cpu, base, index, scale)) by {
            reveal(base_of);
        }
    }
}

/// Reading an operand and moving on can be done in either order.
pub proof fn lemma_read_behind(s: State, o: Operand, n: int)
    ensures
        s.behind(n).read_op8(o) == (s.read_op8(o).0.behind(n), s.read_op8(o).1),
        s.behind(n).read_op16(o) == (s.read_op16(o).0.behind(n), s.read_op16(o).1),
        s.behind(n).read_op32(o) == (s.read_op32(o).0.behind(n), s.read_op32(o).1),
        s.behind(n).read_op_w(o, true) == (s.read_op_w(o, true).0.behind(n), s.read_op_w(
            o,
            true,
        ).1),
        s.behind(n).read_op_w(o, false) == (s.read_op_w(o, false).0.behind(n), s.read_op_w(
            o,
            false,
        ).1),
{
    reveal(State::behind);
    reveal(State::read_op8);
    reveal(State::read_op16);
    reveal(State::read_op32);
    reveal(State::read_op_w);
    if let Operand::Mem { addr, .. } = o {
        lemma_linear_read_behind(s, addr, n);
    }
}

proof fn lemma_byte_read_behind(s: State, lin: u32, n: int)
    ensures
        s.behind(n).read8(lin) == (s.read8(lin).0.behind(n), s.read8(lin).1),
{
    reveal(State::behind);
    reveal(State::read8);
    reveal(State::phys8);
    lemma_translate_same(s.behind(n), s, lin, false);
    crate::walk::lemma_walk_same(s.behind(n), s, lin, false);
}

pub proof fn lemma_linear_read_behind(s: State, lin: u32, n: int)
    ensures
        s.behind(n).read8(lin) == (s.read8(lin).0.behind(n), s.read8(lin).1),
        s.behind(n).read16(lin) == (s.read16(lin).0.behind(n), s.read16(lin).1),
        s.behind(n).read32(lin) == (s.read32(lin).0.behind(n), s.read32(lin).1),
{
    reveal(State::read16);
    reveal(State::read32);
    lemma_byte_read_behind(s, lin, n);
    let s1 = s.read8(lin).0;
    lemma_byte_read_behind(s1, lin.wrapping_add(1), n);
    let s2 = s1.read8(lin.wrapping_add(1)).0;
    let hi = lin.wrapping_add(2);
    lemma_byte_read_behind(s2, hi, n);
    let s3 = s2.read8(hi).0;
    lemma_byte_read_behind(s3, hi.wrapping_add(1), n);
}

/// Reading an operand does not disturb the fetching of code.
pub proof fn lemma_read_runs(s: State, o: Operand, pa: u32, i: int)
    requires
        s.runs_at(pa, i),
    ensures
        s.read_op8(o).0.runs_at(pa, i),
        s.read_op_w(o, true).0.runs_at(pa, i),
        s.read_op8(o).0.mem == s.mem,
        s.read_op_w(o, true).0.mem == s.mem,
{
    reveal(State::read_op8);
    reveal(State::read_op32);
    reveal(State::read_op_w);
    let lin = s.cpu.lin(CS, s.cpu.ip.wrapping_sub(i as u32));
    if let Operand::Mem { addr, .. } = o {
        crate::machine::lemma_read_keeps(s, addr);
        crate::walk::lemma_read_grows(s, addr);
    }
    lemma_translate_same(s.read_op8(o).0, s, lin, false);
    lemma_translate_same(s.read_op_w(o, true).0, s, lin, false);
    crate::walk::lemma_quiet_stays(s, s.read_op8(o).0, lin, false);
    crate::walk::lemma_quiet_stays(s, s.read_op_w(o, true).0, lin, false);
}

/// An opcode whose operands are all in the page is at byte `i`, and it can be cached.
pub open spec fn decodes(s: State, pa: u32, i: int, op: u8, p: Prefixes) -> bool {
    &&& s.runs_at(pa, i)
    &&& is_segment(p.seg)
    &&& crate::cpu::dcache::decode::takes(op, p)
    &&& match crate::cpu::dcache::decode::operands_at(s.mem, pa, i, false, op, p.seg) {
        None => false,
        Some((reg, rm, imm, j)) => crate::cpu::dcache::decode::built(op, reg, rm, imm, p) is Some,
    }
}

/// What the cache makes of such an opcode.
pub open spec fn cached_effect(s: State, pa: u32, i: int, op: u8, p: Prefixes) -> Option<State> {
    let (reg, rm, imm, j) = crate::cpu::dcache::decode::operands_at(
        s.mem,
        pa,
        i,
        false,
        op,
        p.seg,
    )->0;
    s.behind(j - i).uop_effect(crate::cpu::dcache::decode::built(op, reg, rm, imm, p)->0)
}

/// The operands of an opcode at byte `i`.
pub open spec fn operands_of(s: State, pa: u32, i: int, two: bool, op: u8, p: Prefixes) -> (
    u8,
    Rm,
    u32,
    int,
) {
    crate::cpu::dcache::decode::operands_at(s.mem, pa, i, two, op, p.seg)->0
}

/// What follows an opcode: where its ModRM byte and what belongs to it end, and the
/// immediate after them.
pub proof fn lemma_operands(s: State, pa: u32, i: int, two: bool, op: u8, p: Prefixes) -> (k: int)
    requires
        s.runs_at(pa, i),
        is_segment(p.seg),
        crate::cpu::dcache::decode::operands_at(s.mem, pa, i, two, op, p.seg) is Some,
    ensures
        ({
            let (reg, rm, imm, j) = crate::cpu::dcache::decode::operands_at(
                s.mem,
                pa,
                i,
                two,
                op,
                p.seg,
            )->0;
            let n = crate::cpu::dcache::decode::imm_size(two, op, reg);
            &&& reg < 8
            &&& i <= k <= 16
            &&& s.behind(k - i).runs_at(pa, k)
            &&& crate::cpu::dcache::decode::has_modrm(two, op) ==> s.modrm(decoder_of(p)) == (
                s.behind(k - i),
                reg as usize,
                s.operand_of(rm),
            )
            &&& !crate::cpu::dcache::decode::has_modrm(two, op) ==> k == i && s.behind(k - i) == s
            &&& n == 0 ==> j == k
            &&& n == 1 ==> j == k + 1 && crate::cpu::dcache::decode::code(s.mem, pa, k) == Some(
                imm as u8,
            )
            &&& n == 4 ==> j == k + 4 && crate::cpu::dcache::decode::code32(s.mem, pa, k) == Some(
                imm,
            )
            &&& s.behind(k - i).behind(j - k) == s.behind(j - i)
            &&& s.behind(j - i).operand_of(rm) == s.operand_of(rm)
            &&& s.behind(k - i).operand_of(rm) == s.operand_of(rm)
        }),
{
    reveal(State::behind);
    reveal(crate::cpu::dcache::decode::operands_at);
    let (reg, rm, imm, j) = crate::cpu::dcache::decode::operands_at(
        s.mem,
        pa,
        i,
        two,
        op,
        p.seg,
    )->0;
    if crate::cpu::dcache::decode::has_modrm(two, op) {
        lemma_modrm(s, pa, i, p);
        let k = (crate::cpu::dcache::decode::modrm_at(s.mem, pa, i, p.seg)->0).2;
        lemma_behind_twice(s, k - i, j - k);
        k
    } else {
        assert(s.behind(0) == s);
        lemma_behind_twice(s, 0, j - i);
        i
    }
}

} // verus!
