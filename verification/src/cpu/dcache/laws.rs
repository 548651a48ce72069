//! What holds of the cache as a whole: an entry that matches is what decoding the
//! memory would give now, whatever was written in between.

use vstd::prelude::*;
use crate::cpu::dcache::decode::Prefixes;
use crate::cpu::dcache::jit::JitOp;
use crate::cpu::dcache::{empty_entry, len_flags_of, slot_of, CacheState, Entry};
use crate::machine::State;

verus! {

/// Two memories of the same size agree on the page of an address.
pub open spec fn same_page_bytes(a: Seq<u8>, b: Seq<u8>, pa: u32) -> bool {
    &&& a.len() == b.len()
    &&& forall|k: int|
        0 <= k < a.len() && k / 0x1000 == (pa / 0x1000) as int ==> #[trigger] a[k] == b[k]
}

proof fn lemma_code_local(a: Seq<u8>, b: Seq<u8>, pa: u32)
    requires
        same_page_bytes(a, b, pa),
    ensures
        forall|i: int|
            #[trigger] crate::cpu::dcache::decode::code(a, pa, i)
                == crate::cpu::dcache::decode::code(b, pa, i),
{
    assert forall|i: int|
        #[trigger] crate::cpu::dcache::decode::code(a, pa, i) == crate::cpu::dcache::decode::code(
            b,
            pa,
            i,
        ) by {
        if 0 <= i < crate::cpu::dcache::decode::window(a, pa) {
            assert((pa + i) / 0x1000 == (pa / 0x1000) as int);
            assert(a[pa + i] == b[pa + i]);
        }
    }
}

proof fn lemma_prefixes_local(a: Seq<u8>, b: Seq<u8>, pa: u32, i: int, p: Prefixes)
    requires
        same_page_bytes(a, b, pa),
    ensures
        crate::cpu::dcache::decode::prefixes_from(a, pa, i, p)
            == crate::cpu::dcache::decode::prefixes_from(b, pa, i, p),
    decreases 15 - i,
{
    lemma_code_local(a, b, pa);
    assert(crate::cpu::dcache::decode::code(a, pa, i) == crate::cpu::dcache::decode::code(
        b,
        pa,
        i,
    ));
    if let Some(x) = crate::cpu::dcache::decode::code(a, pa, i) {
        if let Some(q) = crate::cpu::dcache::decode::prefix_added(p, x) {
            if i + 1 < 15 {
                lemma_prefixes_local(a, b, pa, i + 1, q);
            }
        }
    }
}

proof fn lemma_code32_local(a: Seq<u8>, b: Seq<u8>, pa: u32, i: int)
    requires
        same_page_bytes(a, b, pa),
    ensures
        crate::cpu::dcache::decode::code32(a, pa, i) == crate::cpu::dcache::decode::code32(b, pa, i),
        crate::cpu::dcache::decode::code(a, pa, i) == crate::cpu::dcache::decode::code(b, pa, i),
{
    lemma_code_local(a, b, pa);
    assert(crate::cpu::dcache::decode::code(a, pa, i) == crate::cpu::dcache::decode::code(b, pa, i));
    assert(crate::cpu::dcache::decode::code(a, pa, i + 1) == crate::cpu::dcache::decode::code(b, pa, i + 1));
    assert(crate::cpu::dcache::decode::code(a, pa, i + 2) == crate::cpu::dcache::decode::code(b, pa, i + 2));
    assert(crate::cpu::dcache::decode::code(a, pa, i + 3) == crate::cpu::dcache::decode::code(b, pa, i + 3));
}

proof fn lemma_modrm_local(a: Seq<u8>, b: Seq<u8>, pa: u32, i: int, seg: Option<u8>)
    requires
        same_page_bytes(a, b, pa),
    ensures
        crate::cpu::dcache::decode::modrm_at(a, pa, i, seg) == crate::cpu::dcache::decode::modrm_at(b, pa, i, seg),
{
    reveal(crate::cpu::dcache::decode::modrm_at);
    lemma_code32_local(a, b, pa, i);
    lemma_code32_local(a, b, pa, i + 1);
    lemma_code32_local(a, b, pa, i + 2);
    if let Some(x) = crate::cpu::dcache::decode::code(a, pa, i) {
        let md = (x / 64) as u8;
        let rm = (x % 8) as u8;
        assert(crate::cpu::dcache::decode::base_at(a, pa, i + 1, md, rm) == crate::cpu::dcache::decode::base_at(b, pa, i + 1, md, rm));
        if let Some((_, _, _, _, _, j)) = crate::cpu::dcache::decode::base_at(a, pa, i + 1, md, rm) {
            lemma_code32_local(a, b, pa, j);
        }
    }
}

proof fn lemma_operands_local(
    a: Seq<u8>,
    b: Seq<u8>,
    pa: u32,
    i: int,
    two: bool,
    op: u8,
    seg: Option<u8>,
)
    requires
        same_page_bytes(a, b, pa),
    ensures
        crate::cpu::dcache::decode::operands_at(a, pa, i, two, op, seg) == crate::cpu::dcache::decode::operands_at(b, pa, i, two, op, seg),
{
    reveal(crate::cpu::dcache::decode::operands_at);
    lemma_modrm_local(a, b, pa, i, seg);
    lemma_code32_local(a, b, pa, i);
    if let Some((_, _, j)) = crate::cpu::dcache::decode::modrm_at(a, pa, i, seg) {
        lemma_code32_local(a, b, pa, j);
    }
}

/// What an instruction decodes to depends on the bytes of its page alone.
pub proof fn law_decoding_is_local(a: Seq<u8>, b: Seq<u8>, pa: u32)
    requires
        same_page_bytes(a, b, pa),
    ensures
        crate::cpu::dcache::decode::decoded(a, pa) == crate::cpu::dcache::decode::decoded(b, pa),
{
    reveal(crate::cpu::dcache::decode::decoded);
    let start = Prefixes { seg: None, o16: false, rep: None };
    lemma_prefixes_local(a, b, pa, 0, start);
    if let Some((p, op, i)) = crate::cpu::dcache::decode::prefixes_from(a, pa, 0, start) {
        lemma_code32_local(a, b, pa, i);
        lemma_operands_local(a, b, pa, i, false, op, p.seg);
        if let Some(op2) = crate::cpu::dcache::decode::code(a, pa, i) {
            lemma_operands_local(a, b, pa, i + 1, true, op2, p.seg);
        }
    }
}

proof fn lemma_prefixes_end(mem: Seq<u8>, pa: u32, i: int, p: Prefixes)
    requires
        0 <= i,
    ensures
        crate::cpu::dcache::decode::prefixes_from(mem, pa, i, p) matches Some(r) ==> i < r.2
            <= crate::cpu::dcache::decode::window(mem, pa),
    decreases 15 - i,
{
    if let Some(x) = crate::cpu::dcache::decode::code(mem, pa, i) {
        if let Some(q) = crate::cpu::dcache::decode::prefix_added(p, x) {
            if i + 1 < 15 {
                lemma_prefixes_end(mem, pa, i + 1, q);
            }
        }
    }
}

proof fn lemma_modrm_end(mem: Seq<u8>, pa: u32, i: int, seg: Option<u8>)
    requires
        0 <= i,
    ensures
        crate::cpu::dcache::decode::modrm_at(mem, pa, i, seg) matches Some(r) ==> i < r.2 <= crate::cpu::dcache::decode::window(mem, pa),
{
    reveal(crate::cpu::dcache::decode::modrm_at);
}

proof fn lemma_operands_end(mem: Seq<u8>, pa: u32, i: int, two: bool, op: u8, seg: Option<u8>)
    requires
        0 <= i <= crate::cpu::dcache::decode::window(mem, pa),
    ensures
        crate::cpu::dcache::decode::operands_at(mem, pa, i, two, op, seg) matches Some(r) ==> i <= r.3 <= crate::cpu::dcache::decode::window(
            mem,
            pa,
        ),
{
    reveal(crate::cpu::dcache::decode::operands_at);
    lemma_modrm_end(mem, pa, i, seg);
}

/// An instruction that decodes ends in its page and in memory.
pub proof fn law_decoded_in_page(mem: Seq<u8>, pa: u32)
    ensures
        crate::cpu::dcache::decode::decoded(mem, pa) matches Some(r) ==> {
            &&& 1 <= r.0 <= 15
            &&& pa % 0x1000 + r.0 <= 0x1000
            &&& pa + r.0 <= mem.len()
        },
{
    reveal(crate::cpu::dcache::decode::decoded);
    let start = Prefixes { seg: None, o16: false, rep: None };
    lemma_prefixes_end(mem, pa, 0, start);
    if let Some((p, op, i)) = crate::cpu::dcache::decode::prefixes_from(mem, pa, 0, start) {
        lemma_operands_end(mem, pa, i, false, op, p.seg);
        if let Some(op2) = crate::cpu::dcache::decode::code(mem, pa, i) {
            lemma_operands_end(mem, pa, i + 1, true, op2, p.seg);
        }
    }
}

/// The bytes of a block.
pub open spec fn block_length(ops: Seq<(u8, JitOp)>) -> int
    decreases ops.len(),
{
    if ops.len() == 0 {
        0
    } else {
        ops[0].0 + block_length(ops.skip(1))
    }
}

/// A block lies in one page.
pub proof fn law_block_in_page(mem: Seq<u8>, pa: u32, cap: nat, caps: u32)
    ensures
        pa % 0x1000 + block_length(
            crate::cpu::dcache::jit::block_from(mem, pa, cap, caps),
        ) <= 0x1000,
        crate::cpu::dcache::jit::block_from(mem, pa, cap, caps).len() <= cap,
    decreases cap,
{
    reveal_with_fuel(block_length, 2);
    let ops = crate::cpu::dcache::jit::block_from(mem, pa, cap, caps);
    law_decoded_in_page(mem, pa);
    if cap > 0 {
        if let Some((len, uop)) = crate::cpu::dcache::decode::decoded(mem, pa) {
            if let Some((op, ends)) = crate::cpu::dcache::jit::convert(uop, caps) {
                let next = pa.wrapping_add(len as u32);
                law_block_in_page(mem, next, (cap - 1) as nat, caps);
                if ends || next % 0x1000 == 0 {
                    assert(ops.skip(1) == Seq::<(u8, JitOp)>::empty());
                } else {
                    assert(ops.skip(1) == crate::cpu::dcache::jit::block_from(
                        mem,
                        next,
                        (cap - 1) as nat,
                        caps,
                    ));
                }
            }
        }
    }
}

impl CacheState {
    /// Code of the page of an address was cached.
    pub open spec fn has_code(self, pa: u32) -> bool {
        let p = (pa / 0x1000) as int;
        p < self.page_has_code.len() && self.page_has_code[p]
    }

    /// The pages of a memory are all known.
    pub open spec fn covers(self, mem: Seq<u8>) -> bool {
        &&& self.page_gen.len() == self.page_has_code.len()
        &&& mem.len() <= 0x1000 * self.page_gen.len()
    }

    /// An entry is no newer than its page, and one that matches is what its bytes in
    /// memory decode to.
    pub open spec fn entry_holds(self, mem: Seq<u8>, e: Entry) -> bool {
        e.tag == crate::cpu::dcache::TAG_INVALID || {
            let p = (e.tag / 0x1000) as int;
            &&& p < self.page_gen.len()
            &&& e.gen <= self.page_gen[p]
            &&& e.gen == self.page_gen[p] ==> self.page_has_code[p]
                && crate::cpu::dcache::decode::decoded(mem, e.tag) is Some && {
                let r = crate::cpu::dcache::decode::decoded(mem, e.tag)->0;
                e.uop == r.1 && e.len_flags == len_flags_of(r.0, r.1)
            }
        }
    }

    /// The cache agrees with memory.
    pub open spec fn coherent(self, mem: Seq<u8>) -> bool {
        &&& self.covers(mem)
        &&& forall|i: int|
            0 <= i < self.entries.len() ==> #[trigger] self.entry_holds(mem, self.entries[i])
    }
}

/// A fresh cache agrees with any memory that it was made for.
pub proof fn law_fresh_coherent(mem: Seq<u8>)
    ensures
        CacheState::fresh(mem.len()).coherent(mem),
{
}

/// In a cache that agrees with memory, what matches is what memory decodes to.
pub proof fn law_hit_is_decoding(c: CacheState, mem: Seq<u8>, pa: u32)
    requires
        c.coherent(mem),
        pa < mem.len(),
        pa != crate::cpu::dcache::TAG_INVALID,
        c.hit(pa) is Some,
    ensures
        crate::cpu::dcache::decode::decoded(mem, pa) matches Some(r) && c.hit(pa) == Some(
            (len_flags_of(r.0, r.1), r.1),
        ),
{
    let e = c.entries[slot_of(pa) as int];
    assert(c.entry_holds(mem, e));
}

/// Keeping an instruction keeps the agreement.
pub proof fn law_fill_keeps_coherence(c: CacheState, mem: Seq<u8>, pa: u32)
    requires
        c.coherent(mem),
        crate::cpu::dcache::decode::decoded(mem, pa) is Some,
    ensures
        ({
            let r = crate::cpu::dcache::decode::decoded(mem, pa)->0;
            c.filled(pa, len_flags_of(r.0, r.1), r.1).coherent(mem)
        }),
{
    let r = crate::cpu::dcache::decode::decoded(mem, pa)->0;
    law_decoded_in_page(mem, pa);
    let d = c.filled(pa, len_flags_of(r.0, r.1), r.1);
    assert forall|i: int| 0 <= i < d.entries.len() implies #[trigger] d.entry_holds(
        mem,
        d.entries[i],
    ) by {
        if i != slot_of(pa) as int {
            if c.entries.len() == 0 {
                assert(d.entries[i] == empty_entry());
            } else {
                assert(c.entry_holds(mem, c.entries[i]));
            }
        }
    }
}

/// A byte written to memory keeps the agreement: the entries of its page stop to
/// match. Generations go round after all the values of a doubleword; a page with code
/// in it must not be at the last one.
pub proof fn law_write_keeps_coherence(s: State, pa: u32, v: u8)
    requires
        s.dcache.coherent(s.mem),
        s.dcache.has_code(pa) ==> s.dcache.gen_of(pa) < u32::MAX,
    ensures
        s.with_phys8(pa, v).dcache.coherent(s.with_phys8(pa, v).mem),
{
    reveal(State::with_phys8);
    let t = s.with_phys8(pa, v);
    if pa < s.mem.len() {
        let q = (pa / 0x1000) as int;
        assert forall|i: int| 0 <= i < t.dcache.entries.len() implies #[trigger] t.dcache.entry_holds(
            t.mem,
            t.dcache.entries[i],
        ) by {
            let e = s.dcache.entries[i];
            assert(s.dcache.entry_holds(s.mem, e));
            let p = (e.tag / 0x1000) as int;
            if e.tag != crate::cpu::dcache::TAG_INVALID && p != q {
                assert(same_page_bytes(s.mem, t.mem, e.tag)) by {
                    assert forall|k: int|
                        0 <= k < s.mem.len() && k / 0x1000 == p implies #[trigger] s.mem[k]
                        == t.mem[k] by {
                        assert(k != pa as int);
                    }
                }
                law_decoding_is_local(s.mem, t.mem, e.tag);
            }
        }
    }
}

} // verus!
