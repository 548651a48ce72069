//! String instructions.

use vstd::prelude::*;
use crate::cpu::dcache::decode::Prefixes;
use crate::cpu::dcache::{Rm, Uop};
use crate::machine::State;

verus! {

/// The decoder that the cache makes for a string instruction is that of the
/// interpreter.
proof fn lemma_decoder(p: Prefixes)
    requires
        crate::cpu::dcache::agreement::fetch::is_segment(p.seg),
    ensures
        crate::cpu::dcache::exec::string_decoder(
            crate::cpu::dcache::decode::named_segment(p.seg),
            p.rep,
            p.o16,
        ) == crate::cpu::dcache::agreement::fetch::decoder_of(p),
{
}

proof fn lemma_built(op: u8, reg: u8, rm: Rm, imm: u32, p: Prefixes)
    requires
        crate::cpu::dcache::decode::is_string(op),
    ensures
        crate::cpu::dcache::decode::built(op, reg, rm, imm, p) == Some(
            match p.rep {
                Some(rep) => Uop::StrRep {
                    op,
                    seg: crate::cpu::dcache::decode::named_segment(p.seg),
                    rep,
                    o16: p.o16,
                },
                None => Uop::StrOne { op, seg: crate::cpu::dcache::decode::named_segment(p.seg), o16: p.o16 },
            },
        ),
{
    reveal(crate::cpu::dcache::decode::built);
}

/// String instructions.
pub proof fn lemma_strings_agree(s: State, pa: u32, i: int, op: u8, p: Prefixes)
    requires
        crate::cpu::dcache::agreement::fetch::decodes(s, pa, i, op, p),
        crate::cpu::dcache::decode::is_string(op),
    ensures
        s.string_exec(crate::cpu::dcache::agreement::fetch::decoder_of(p), op) == crate::cpu::dcache::agreement::fetch::cached_effect(s, pa, i, op, p),
{
    let (reg, rm, imm, j) = crate::cpu::dcache::agreement::fetch::operands_of(s, pa, i, false, op, p);
    let k = crate::cpu::dcache::agreement::fetch::lemma_operands(s, pa, i, false, op, p);
    lemma_decoder(p);
    lemma_built(op, reg, rm, imm, p);
    reveal(State::uop_effect);
}

} // verus!
