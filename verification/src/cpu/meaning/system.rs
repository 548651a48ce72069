//! Instructions on the tables, registers and segments that the system keeps.

use vstd::prelude::*;
use crate::cpu::operand::{Decoder, Operand};
use crate::cpu::state::Cpu;
use crate::machine::State;

verus! {

/// The opcode after 0F, with the bytes behind it next.
pub open spec fn second(s: State, t: State, d: Decoder, v: State, op: u8) -> bool {
    &&& s.instruction() == Some((t, d, 0x0Fu8))
    &&& !d.lock
    &&& v == t.fetch8().0
    &&& op == t.code(0)
}

/// What comes after 0F is read as code, and the opcode decides.
pub proof fn lemma_second(s: State, t: State, d: Decoder, v: State, op: u8)
    requires
        second(s, t, d, v, op),
    ensures
        crate::cpu::meaning::begun(s, v),
        t.fetch8().1 == op,
        s.step() == t.step_0f(d, s.cpu.ip),
        d.wf(),
        forall|i: u32| i < u32::MAX ==> #[trigger] v.code(i) == t.code((i + 1) as u32),
{
    crate::cpu::meaning::lemma_step(s, t, d, 0x0F);
    crate::cpu::meaning::lemma_fetch8(t);
    reveal(State::onebyte);
}

/// The tables: 0F 01 /2 loads the register of the global table and /3 that of the
/// interrupt table from six bytes in memory, a word for the limit and a doubleword for the
/// base, of which operands of 16 bits take three bytes. The other register stays, and so
/// does everything else.
pub proof fn law_load_table(s: State, t: State, d: Decoder, v: State, u: State)
    requires
        second(s, t, d, v, 0x01),
        v.named(d) is Mem,
        v.field() == 2 || v.field() == 3,
        s.step() == Some(u),
    ensures
        ({
            let addr = v.named(d)->addr;
            let limit = s.read16(addr).1;
            let whole = s.read32(addr.wrapping_add(2)).1;
            let base = if d.opsize32 {
                whole
            } else {
                (whole % 0x100_0000) as u32
            };
            let (c, e) = (s.cpu, u.cpu);
            &&& v.field() == 2 ==> e.gdtr_limit == limit && e.gdtr_base == base && e.idtr_limit
                == c.idtr_limit && e.idtr_base == c.idtr_base
            &&& v.field() == 3 ==> e.idtr_limit == limit && e.idtr_base == base && e.gdtr_limit
                == c.gdtr_limit && e.gdtr_base == c.gdtr_base
            &&& crate::cpu::meaning::begun(
                s,
                State {
                    cpu: Cpu {
                        gdtr_limit: c.gdtr_limit,
                        gdtr_base: c.gdtr_base,
                        idtr_limit: c.idtr_limit,
                        idtr_base: c.idtr_base,
                        ..e
                    },
                    ..u
                },
            )
        }),
{
    lemma_second(s, t, d, v, 0x01);
    crate::cpu::meaning::lemma_modrm(v, d);
    let x = v.modrm(d).0;
    let addr = v.named(d)->addr;
    crate::cpu::meaning::lemma_read_elsewhere(s, x, addr);
    crate::machine::lemma_read_keeps(x, addr);
    let y = x.read16(addr).0;
    crate::machine::lemma_read_keeps(y, addr.wrapping_add(2));
    crate::cpu::meaning::lemma_read_elsewhere(s, y, addr.wrapping_add(2));
    assert(s.step() == v.grp7(d)) by {
        reveal(State::step_0f);
    }
    reveal(State::grp7);
}

} // verus!
