//! What FXSAVE puts away, FXRSTOR brings back.

use vstd::prelude::*;
use crate::cpu::float::is_nan64;
use crate::cpu::fpu::{wide_double, Fpu};
use crate::cpu::mmx::low_half;
use crate::cpu::sse::{halves, high_half};
use crate::cpu::state::Cpu;
use crate::machine::{le16, State};

verus! {

/// The vector at an address.
spec fn vector_at(mem: Seq<u8>, a: int) -> u128 {
    halves(
        (crate::cpu::plain::dword_at(mem, a) + 0x1_0000_0000 * crate::cpu::plain::dword_at(
            mem,
            a + 4,
        )) as u64,
        (crate::cpu::plain::dword_at(mem, a + 8) + 0x1_0000_0000 * crate::cpu::plain::dword_at(
            mem,
            a + 12,
        )) as u64,
    )
}

proof fn lemma_vector_same(p: Seq<u8>, q: Seq<u8>, a: int)
    requires
        crate::cpu::plain::same_between(p, q, a, a + 16),
    ensures
        vector_at(p, a) == vector_at(q, a),
{
    crate::cpu::plain::lemma_dword_same(p, q, a);
    crate::cpu::plain::lemma_dword_same(p, q, a + 4);
    crate::cpu::plain::lemma_dword_same(p, q, a + 8);
    crate::cpu::plain::lemma_dword_same(p, q, a + 12);
}

proof fn lemma_vector_read(s: State, a: u32)
    requires
        crate::cpu::plain::in_memory(s, a as int, 16),
    ensures
        s.read128(a) == (s, vector_at(s.mem, a as int)),
{
    reveal(State::read64);
    reveal(State::read128);
    crate::cpu::plain::lemma_dword_read(s, a);
    crate::cpu::plain::lemma_dword_read(s, (a + 4) as u32);
    crate::cpu::plain::lemma_dword_read(s, (a + 8) as u32);
    crate::cpu::plain::lemma_dword_read(s, (a + 12) as u32);
}

proof fn lemma_vector_written(s: State, a: u32, v: u128)
    requires
        crate::cpu::plain::in_memory(s, a as int, 16),
    ensures
        crate::cpu::plain::same_outside(s, s.write128(a, v), a as int, a + 16),
        vector_at(s.write128(a, v).mem, a as int) == v,
{
    reveal(State::write64);
    reveal(State::write128);
    let lo = low_half(v);
    let hi = high_half(v);
    let d0 = (lo % 0x1_0000_0000) as u32;
    let d1 = (lo / 0x1_0000_0000) as u32;
    let d2 = (hi % 0x1_0000_0000) as u32;
    let d3 = (hi / 0x1_0000_0000) as u32;
    let s1 = s.write32(a, d0);
    crate::cpu::plain::lemma_dword_written(s, a, d0);
    let s2 = s1.write32((a + 4) as u32, d1);
    crate::cpu::plain::lemma_dword_written(s1, (a + 4) as u32, d1);
    let s3 = s2.write32((a + 8) as u32, d2);
    crate::cpu::plain::lemma_dword_written(s2, (a + 8) as u32, d2);
    let s4 = s3.write32((a + 12) as u32, d3);
    crate::cpu::plain::lemma_dword_written(s3, (a + 12) as u32, d3);
    crate::cpu::plain::lemma_dword_same(s1.mem, s4.mem, a as int);
    crate::cpu::plain::lemma_dword_same(s2.mem, s4.mem, a + 4);
    crate::cpu::plain::lemma_dword_same(s3.mem, s4.mem, a + 8);
    crate::cpu::sse::law_halves(v, lo, hi);
}

proof fn lemma_zeroed(s: State, a: u32, k: nat)
    requires
        k <= 512,
        crate::cpu::plain::in_memory(s, a as int, 512),
    ensures
        crate::cpu::plain::same_outside(s, s.zeroed_from(a, k), a as int, a + 512),
    decreases 512 - k,
{
    reveal_with_fuel(State::zeroed_from, 2);
    if k < 512 {
        lemma_word_written_byte(s, (a + k) as u32);
        lemma_zeroed(s.write8((a + k) as u32, 0), a, k + 1);
    }
}

proof fn lemma_word_written_byte(s: State, a: u32)
    requires
        crate::cpu::plain::in_memory(s, a as int, 1),
    ensures
        crate::cpu::plain::same_outside(s, s.write8(a, 0), a as int, a + 1),
{
    reveal(State::write8);
    reveal(State::translate);
    reveal(State::with_phys8);
}

proof fn lemma_saved(s: State, a: u32, k: nat)
    requires
        k <= 8,
        crate::cpu::plain::in_memory(s, a as int, 512),
    ensures
        crate::cpu::plain::same_outside(s, s.xmm_saved_from(a, k), a + 160 + 16 * k, a + 288),
        forall|j: int|
            k <= j < 8 ==> vector_at(s.xmm_saved_from(a, k).mem, a + 160 + 16 * j)
                == #[trigger] s.cpu.xmm[j],
    decreases 8 - k,
{
    reveal_with_fuel(State::xmm_saved_from, 2);
    if k < 8 {
        let at = (a + 160 + 16 * k) as u32;
        lemma_vector_written(s, at, s.cpu.xmm[k as int]);
        let t = s.write128(at, s.cpu.xmm[k as int]);
        lemma_saved(t, a, k + 1);
        lemma_vector_same(t.mem, t.xmm_saved_from(a, k + 1).mem, at as int);
    }
}

proof fn lemma_loaded(s: State, a: u32, k: nat)
    requires
        k <= 8,
        crate::cpu::plain::in_memory(s, a as int, 512),
    ensures
        ({
            let t = s.xmm_loaded_from(a, k);
            &&& t == (State { cpu: Cpu { xmm: t.cpu.xmm, ..s.cpu }, ..s })
            &&& forall|j: int|
                0 <= j < 8 ==> #[trigger] t.cpu.xmm[j] == (if j < k {
                    s.cpu.xmm[j]
                } else {
                    vector_at(s.mem, a + 160 + 16 * j)
                })
        }),
    decreases 8 - k,
{
    reveal_with_fuel(State::xmm_loaded_from, 2);
    if k < 8 {
        let at = (a + 160 + 16 * k) as u32;
        lemma_vector_read(s, at);
        let t = s.with_xmm(k as usize, vector_at(s.mem, at as int));
        lemma_loaded(t, a, k + 1);
    }
}

/// The extended number at an address.
spec fn extended_at(mem: Seq<u8>, a: int) -> (u64, u16) {
    (
        (crate::cpu::plain::dword_at(mem, a) + 0x1_0000_0000 * crate::cpu::plain::dword_at(
            mem,
            a + 4,
        )) as u64,
        le16(mem[a + 8], mem[a + 9]),
    )
}

proof fn lemma_extended_same(p: Seq<u8>, q: Seq<u8>, a: int)
    requires
        crate::cpu::plain::same_between(p, q, a, a + 10),
    ensures
        extended_at(p, a) == extended_at(q, a),
{
    crate::cpu::plain::lemma_dword_same(p, q, a);
    crate::cpu::plain::lemma_dword_same(p, q, a + 4);
}

proof fn lemma_extended_written(s: State, a: u32, i: usize)
    requires
        crate::cpu::plain::in_memory(s, a as int, 16),
    ensures
        crate::cpu::plain::same_outside(s, s.write_extended(a, i), a as int, a + 10),
        extended_at(s.write_extended(a, i).mem, a as int) == s.cpu.fpu.extended(
            s.cpu.fpu.phys(i),
        ),
{
    reveal(State::write_extended);
    reveal(State::write64);
    let (m, se) = s.cpu.fpu.extended(s.cpu.fpu.phys(i));
    let d0 = (m % 0x1_0000_0000) as u32;
    let d1 = (m / 0x1_0000_0000) as u32;
    let s1 = s.write32(a, d0);
    crate::cpu::plain::lemma_dword_written(s, a, d0);
    let s2 = s1.write32((a + 4) as u32, d1);
    crate::cpu::plain::lemma_dword_written(s1, (a + 4) as u32, d1);
    let s3 = s2.write16((a + 8) as u32, se);
    crate::cpu::plain::lemma_word_written(s2, (a + 8) as u32, se);
    crate::cpu::plain::lemma_dword_same(s1.mem, s3.mem, a as int);
    crate::cpu::plain::lemma_dword_same(s2.mem, s3.mem, a + 4);
}

proof fn lemma_extended_read(s: State, a: u32)
    requires
        crate::cpu::plain::in_memory(s, a as int, 16),
    ensures
        s.read_extended(a) == (s, extended_at(s.mem, a as int).0, extended_at(s.mem, a as int).1),
{
    reveal(State::read_extended);
    reveal(State::read64);
    crate::cpu::plain::lemma_dword_read(s, a);
    crate::cpu::plain::lemma_dword_read(s, (a + 4) as u32);
    crate::cpu::plain::lemma_dword_read(s, (a + 8) as u32);
}

proof fn lemma_stack_saved(s: State, a: u32, k: nat)
    requires
        k <= 8,
        crate::cpu::plain::in_memory(s, a as int, 128),
    ensures
        crate::cpu::plain::same_outside(s, s.save_from(a, 16, k), a + 16 * k, a + 128),
        forall|j: usize|
            k <= j < 8 ==> extended_at(s.save_from(a, 16, k).mem, a + 16 * j)
                == s.cpu.fpu.extended(#[trigger] s.cpu.fpu.phys(j)),
    decreases 8 - k,
{
    reveal_with_fuel(State::save_from, 2);
    if k < 8 {
        let at = (a + 16 * k) as u32;
        lemma_extended_written(s, at, k as usize);
        let t = s.write_extended(at, k as usize);
        lemma_stack_saved(t, a, k + 1);
        lemma_extended_same(t.mem, t.save_from(a, 16, k + 1).mem, at as int);
        assert forall|j: usize| k <= j < 8 implies extended_at(
            s.save_from(a, 16, k).mem,
            a + 16 * j,
        ) == s.cpu.fpu.extended(#[trigger] s.cpu.fpu.phys(j)) by {
            assert(t.cpu.fpu.phys(j) == s.cpu.fpu.phys(j));
        }
    }
}

/// A physical register holds an extended number.
pub open spec fn holds_extended(f: Fpu, p: usize, n: (u64, u16)) -> bool {
    if n.1 == 0xFFFF {
        f.is_wide[p as int] && f.wide[p as int] == n.0 && f.regs[p as int] == wide_double(n.0)
    } else {
        !f.is_wide[p as int] && f.regs[p as int] == crate::cpu::float::double_of_extended(n.0, n.1)
    }
}

#[verifier::spinoff_prover]
#[verifier::rlimit(60)]
proof fn lemma_stack_loaded(s: State, a: u32, k: nat)
    requires
        k <= 8,
        crate::cpu::plain::in_memory(s, a as int, 128),
    ensures
        ({
            let t = s.restored_from(a, 16, k);
            let f = t.cpu.fpu;
            let g = s.cpu.fpu;
            &&& t == (State { cpu: Cpu { fpu: f, ..s.cpu }, ..s })
            &&& f == (Fpu { regs: f.regs, wide: f.wide, is_wide: f.is_wide, ..g })
            &&& forall|j: usize|
                k <= j < 8 ==> holds_extended(
                    f,
                    #[trigger] g.phys(j),
                    extended_at(s.mem, a + 16 * j),
                )
            &&& forall|j: usize|
                j < k ==> f.regs[#[trigger] g.phys(j) as int] == g.regs[g.phys(j) as int]
                    && f.wide[g.phys(j) as int] == g.wide[g.phys(j) as int]
                    && f.is_wide[g.phys(j) as int] == g.is_wide[g.phys(j) as int]
        }),
    decreases 8 - k,
{
    reveal_with_fuel(State::restored_from, 2);
    if k < 8 {
        let at = (a + 16 * k) as u32;
        lemma_extended_read(s, at);
        let (m, se) = extended_at(s.mem, at as int);
        let g = s.cpu.fpu;
        let t = s.with_fpu(g.with_extended(g.phys(k as usize), m, se));
        lemma_stack_loaded(t, a, k + 1);
        let h = t.cpu.fpu;
        let f = s.restored_from(a, 16, k).cpu.fpu;
        assert forall|j: usize| k <= j < 8 implies holds_extended(
            f,
            #[trigger] g.phys(j),
            extended_at(s.mem, a + 16 * j),
        ) by {
            assert(h.phys(j) == g.phys(j));
        }
        assert forall|j: usize| j < k implies f.regs[#[trigger] g.phys(j) as int]
            == g.regs[g.phys(j) as int] && f.wide[g.phys(j) as int] == g.wide[g.phys(j) as int]
            && f.is_wide[g.phys(j) as int] == g.is_wide[g.phys(j) as int] by {
            assert(h.phys(j) == g.phys(j));
            assert(g.phys(j) != g.phys(k as usize));
        }
    }
}

/// A stack register that was put away and brought back has its value, unless it is a
/// NaN, and its significand if an MMX instruction left it.
proof fn lemma_register_back(f: Fpu, p: usize, g: Fpu, q: usize)
    requires
        p < 8,
        q < 8,
        holds_extended(g, q, f.extended(p)),
    ensures
        f.is_wide[p as int] ==> g.is_wide[q as int] && g.wide[q as int] == f.wide[p as int],
        !f.is_wide[p as int] && !is_nan64(f.regs[p as int]) ==> g.regs[q as int]
            == f.regs[p as int],
{
    if !f.is_wide[p as int] {
        let v = f.regs[p as int];
        crate::cpu::float::law_extended_round_trip(v);
        reveal(crate::cpu::float::extended_of);
        let (m, se) = crate::cpu::float::extended_of(v);
        let n = (v % 0x10_0000_0000_0000) as int;
        if n != 0 {
            vstd::arithmetic::power2::lemma2_to64();
            vstd::arithmetic::power2::lemma2_to64_rest();
            crate::cpu::float::lemma_normalized(n, 0x8000_0000_0000_0000, 1, 63);
        }
        if se == 0xFFFF && !is_nan64(v) {
            assert(v == 0xFFF0_0000_0000_0000);
        }
    }
}

/// What FXSAVE put away comes back with FXRSTOR, whatever was done in between with
/// the processor and the rest of memory: the vectors, both control words, and the
/// stack registers. Of those a NaN may come back as another one.
pub proof fn law_context_comes_back(s: State, u: State, a: u32)
    requires
        !s.cpu.pg(),
        !u.cpu.pg(),
        a + 512 <= s.mem.len(),
        s.mem.len() <= 0x1_0000_0000,
        u.mem.len() == s.mem.len(),
        crate::cpu::plain::same_between(s.fxsave(a).mem, u.mem, a as int, a + 512),
    ensures
        ({
            let t = u.fxrstor(a);
            let f = s.cpu.fpu;
            let g = t.cpu.fpu;
            &&& t == (State {
                cpu: Cpu {
                    xmm: t.cpu.xmm,
                    mxcsr: s.cpu.mxcsr,
                    fpu_cw: s.cpu.fpu_cw,
                    fpu: g,
                    ..u.cpu
                },
                ..u
            })
            &&& forall|j: int| 0 <= j < 8 ==> #[trigger] t.cpu.xmm[j] == s.cpu.xmm[j]
            &&& g == (Fpu { regs: g.regs, wide: g.wide, is_wide: g.is_wide, ..u.cpu.fpu })
            &&& forall|j: usize|
                j < 8 && !f.is_wide[#[trigger] f.phys(j) as int] && !is_nan64(f.st(j)) ==> g.st(j)
                    == f.st(j)
            &&& forall|j: usize|
                j < 8 && f.is_wide[#[trigger] f.phys(j) as int] ==> g.is_wide[g.phys(j) as int]
                    && g.wide[g.phys(j) as int] == f.wide[f.phys(j) as int]
        }),
{
    reveal(State::fxsave);
    reveal(State::fxrstor);
    let s1 = s.zeroed_from(a, 0);
    lemma_zeroed(s, a, 0);
    let s2 = s1.write16(a, s1.cpu.fpu_cw);
    crate::cpu::plain::lemma_word_written(s1, a, s1.cpu.fpu_cw);
    let s3 = s2.write16((a + 2) as u32, 0);
    crate::cpu::plain::lemma_word_written(s2, (a + 2) as u32, 0);
    let s4 = s3.write8((a + 4) as u32, 0);
    lemma_word_written_byte(s3, (a + 4) as u32);
    let s5 = s4.write32((a + 24) as u32, s1.cpu.mxcsr);
    crate::cpu::plain::lemma_dword_written(s4, (a + 24) as u32, s1.cpu.mxcsr);
    let s6 = s5.write32((a + 28) as u32, 0xFFFF);
    crate::cpu::plain::lemma_dword_written(s5, (a + 28) as u32, 0xFFFF);
    let b = (a + 32) as u32;
    let s7 = s6.save_from(b, 16, 0);
    lemma_stack_saved(s6, b, 0);
    let s8 = s7.xmm_saved_from(a, 0);
    lemma_saved(s7, a, 0);
    crate::cpu::plain::lemma_dword_same(s5.mem, s8.mem, a + 24);
    crate::cpu::plain::lemma_dword_same(s8.mem, u.mem, a + 24);
    crate::cpu::plain::lemma_dword_read(u, a);
    let u1 = u.with_cpu(Cpu { fpu_cw: s.cpu.fpu_cw, ..u.cpu });
    crate::cpu::plain::lemma_dword_read(u1, (a + 24) as u32);
    let u2 = u1.with_cpu(Cpu { mxcsr: s.cpu.mxcsr, ..u1.cpu });
    lemma_stack_loaded(u2, b, 0);
    let u3 = u2.restored_from(b, 16, 0);
    lemma_loaded(u3, a, 0);
    let t = u3.xmm_loaded_from(a, 0);
    assert(t == u.fxrstor(a));
    assert forall|j: int| 0 <= j < 8 implies #[trigger] t.cpu.xmm[j] == s.cpu.xmm[j] by {
        assert(s7.cpu.xmm[j] == s.cpu.xmm[j]);
        lemma_vector_same(s8.mem, u.mem, a + 160 + 16 * j);
    }
    let f = s.cpu.fpu;
    let g = t.cpu.fpu;
    assert forall|j: usize| j < 8 implies holds_extended(
        g,
        g.phys(j),
        f.extended(#[trigger] f.phys(j)),
    ) by {
        assert(s6.cpu.fpu.phys(j) == f.phys(j));
        assert(u2.cpu.fpu.phys(j) == g.phys(j));
        lemma_extended_same(s7.mem, s8.mem, b + 16 * j);
        lemma_extended_same(s8.mem, u.mem, b + 16 * j);
    }
    assert forall|j: usize|
        j < 8 && !f.is_wide[#[trigger] f.phys(j) as int] && !is_nan64(f.st(j)) implies g.st(j)
        == f.st(j) by {
        lemma_register_back(f, f.phys(j), g, g.phys(j));
    }
    assert forall|j: usize| j < 8 && f.is_wide[#[trigger] f.phys(j) as int] implies g.is_wide[g.phys(
        j,
    ) as int] && g.wide[g.phys(j) as int] == f.wide[f.phys(j) as int] by {
        lemma_register_back(f, f.phys(j), g, g.phys(j));
    }
}

} // verus!
