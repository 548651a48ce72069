//! The processor: its registers, the decoder and the instruction set.

pub mod alu;
pub mod bulk;
pub mod context;
pub mod dcache;
pub mod decimal;
pub mod float;
pub mod fpu;
pub mod group;
pub mod interrupt;
pub mod meaning;
pub mod mmx;
pub mod onebyte;
pub mod operand;
pub mod plain;
pub mod repeat;
pub mod rings;
pub mod segment;
pub mod shift;
pub mod sse;
pub mod state;
pub mod string;
pub mod twobyte;
pub mod vector;

pub use self::interrupt::{interrupt, iret, page_fault};
pub use self::operand::{Decoder, Operand};
pub use self::segment::load_seg_pub;
pub use self::state::{Cpu, SegHidden};

use vstd::prelude::*;
use self::operand::fetch8;
use self::state::{CS, DS, ES, FS, GS, SS};
use crate::machine::{LogState, Machine, State};

verus! {

/// The opcodes that may follow a LOCK prefix: those that read and write memory, and
/// the two-byte opcodes.
#[verifier::allow_in_spec]
pub fn lockable(op: u8) -> bool
    returns
        (op < 0x38 && op % 8 <= 1) || (0x80 <= op <= 0x83) || op == 0x86 || op == 0x87 || op
            == 0xF6 || op == 0xF7 || op == 0xFE || op == 0xFF || op == 0x0F,
{
    (op < 0x38 && op % 8 <= 1) || (0x80 <= op && op <= 0x83) || op == 0x86 || op == 0x87 || op
        == 0xF6 || op == 0xF7 || op == 0xFE || op == 0xFF || op == 0x0F
}

/// What a prefix byte does to the decoder of an instruction in a code segment of
/// that width; nothing for a byte that is no prefix.
#[verifier::allow_in_spec]
pub fn prefixed(d: Decoder, b: u8, cs32: bool) -> Option<Decoder>
    returns
        (if b == 0x26 {
            Some(Decoder { seg_override: Some(ES), ..d })
        } else if b == 0x2E {
            Some(Decoder { seg_override: Some(CS), ..d })
        } else if b == 0x36 {
            Some(Decoder { seg_override: Some(SS), ..d })
        } else if b == 0x3E {
            Some(Decoder { seg_override: Some(DS), ..d })
        } else if b == 0x64 {
            Some(Decoder { seg_override: Some(FS), ..d })
        } else if b == 0x65 {
            Some(Decoder { seg_override: Some(GS), ..d })
        } else if b == 0xF0 {
            Some(Decoder { lock: true, ..d })
        } else if b == 0x66 {
            Some(Decoder { opsize32: !cs32, p66: true, ..d })
        } else if b == 0x67 {
            Some(Decoder { addrsize32: !cs32, ..d })
        } else if b == 0xF2 || b == 0xF3 {
            Some(Decoder { rep: Some(b), ..d })
        } else {
            None
        }),
{
    if b == 0x26 {
        Some(Decoder { seg_override: Some(ES), ..d })
    } else if b == 0x2E {
        Some(Decoder { seg_override: Some(CS), ..d })
    } else if b == 0x36 {
        Some(Decoder { seg_override: Some(SS), ..d })
    } else if b == 0x3E {
        Some(Decoder { seg_override: Some(DS), ..d })
    } else if b == 0x64 {
        Some(Decoder { seg_override: Some(FS), ..d })
    } else if b == 0x65 {
        Some(Decoder { seg_override: Some(GS), ..d })
    } else if b == 0xF0 {
        Some(Decoder { lock: true, ..d })
    } else if b == 0x66 {
        Some(Decoder { opsize32: !cs32, p66: true, ..d })
    } else if b == 0x67 {
        Some(Decoder { addrsize32: !cs32, ..d })
    } else if b == 0xF2 || b == 0xF3 {
        Some(Decoder { rep: Some(b), ..d })
    } else {
        None
    }
}

/// The decoder before the first prefix.
#[verifier::allow_in_spec]
pub fn unprefixed(cs32: bool) -> Decoder
    returns
        (Decoder {
            seg_override: None,
            rep: None,
            opsize32: cs32,
            addrsize32: cs32,
            p66: false,
            lock: false,
        }),
{
    Decoder {
        seg_override: None,
        rep: None,
        opsize32: cs32,
        addrsize32: cs32,
        p66: false,
        lock: false,
    }
}

impl State {
    /// The prefixes and the opcode after them, where there are fewer than `limit`
    /// bytes of prefixes.
    #[verifier::opaque]
    pub open spec fn prefixes(self, d: Decoder, cs32: bool, limit: nat) -> Option<
        (State, Decoder, u8),
    >
        decreases limit,
    {
        if limit == 0 {
            None
        } else {
            let (s, b) = self.fetch8();
            match prefixed(d, b, cs32) {
                None => Some((s, d, b)),
                Some(e) => s.prefixes(e, cs32, (limit - 1) as nat),
            }
        }
    }

    /// The log after an opcode with an operand size prefix.
    pub open spec fn seen_prefixed(self, op: u8) -> State {
        State {
            log: LogState {
                prefixed_seen: vstd::array::spec_array_update(
                    self.log.prefixed_seen,
                    op as int,
                    true,
                ),
                ..self.log
            },
            ..self
        }
    }

    /// One instruction whose prefixes and opcode have been read.
    #[verifier::opaque]
    pub open spec fn step_with(self, d: Decoder, op: u8, start_ip: u32) -> Option<State> {
        if d.lock && !lockable(op) {
            self.with_cpu(self.cpu.with_ip(start_ip)).interrupt(6)
        } else {
            let s = if d.p66 {
                self.seen_prefixed(op)
            } else {
                self
            };
            s.onebyte(d, op, start_ip)
        }
    }

    /// One instruction. There is no next state where prefixes go round the whole
    /// address space without an end.
    #[verifier::opaque]
    pub open spec fn step(self) -> Option<State> {
        let cs32 = self.cpu.seg_is32(CS);
        match self.prefixes(unprefixed(cs32), cs32, 0x1_0000_0000) {
            None => None,
            Some((s, d, op)) => s.step_with(d, op, self.cpu.ip),
        }
    }
}

fn prefixes(m: &mut Machine, cs32: bool) -> (r: (Decoder, u8))
    requires
        old(m)@.prefixes(unprefixed(cs32), cs32, 0x1_0000_0000) is Some,
    ensures
        Some((final(m)@, r.0, r.1)) == old(m)@.prefixes(unprefixed(cs32), cs32, 0x1_0000_0000),
        r.0.wf(),
{
    let mut d = unprefixed(cs32);
    let ghost mut limit: nat = 0x1_0000_0000;
    loop
        invariant
            d.wf(),
            m@.prefixes(d, cs32, limit) is Some,
            m@.prefixes(d, cs32, limit) == old(m)@.prefixes(
                unprefixed(cs32),
                cs32,
                0x1_0000_0000,
            ),
        decreases limit,
    {
        proof {
            reveal_with_fuel(State::prefixes, 2);
        }
        let b: u8 = fetch8(m);
        match prefixed(d, b, cs32) {
            None => {
                return (d, b);
            },
            Some(e) => {
                d = e;
            },
        }
        proof {
            limit = (limit - 1) as nat;
        }
    }
}

/// Notes that an opcode came with an operand size prefix.
pub fn note_prefixed(m: &mut Machine, op: u8)
    ensures
        final(m)@ == old(m)@.seen_prefixed(op),
{
    m.log.prefixed_seen[op as usize] = true;
}

fn step_with(m: &mut Machine, d: &Decoder, op: u8, start_ip: u32)
    requires
        d.wf(),
        old(m)@.step_with(*d, op, start_ip) is Some,
    ensures
        Some(final(m)@) == old(m)@.step_with(*d, op, start_ip),
{
    proof {
        reveal(State::step_with);
    }
    if d.lock && !lockable(op) {
        m.cpu.set_ip(start_ip);
        interrupt(m, 6);
        return;
    }
    if d.p66 {
        note_prefixed(m, op);
    }
    onebyte::exec(m, d, op, start_ip);
}

/// Executes one instruction.
pub fn step(m: &mut Machine)
    requires
        old(m)@.step() is Some,
    ensures
        Some(final(m)@) == old(m)@.step(),
{
    proof {
        reveal(State::step);
    }
    let start_ip: u32 = m.cpu.ip;
    let cs32 = m.cpu.seg_is32(CS);
    let (d, op) = prefixes(m, cs32);
    step_with(m, &d, op, start_ip);
}

} // verus!
