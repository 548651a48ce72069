//! Which instructions the cache holds, and why it does not hold the others: for
//! those who want to know what to add to it.

use vstd::prelude::*;
use crate::cpu::dcache::{Rm, Uop};
use crate::machine::Machine;

verus! {

/// Why an instruction is not held.
#[derive(Clone, Copy, Debug, PartialEq, Eq, Structural)]
pub enum Reason {
    OperandSizePrefix,
    AddressSizePrefix,
    RepeatPrefix,
    LockPrefix,
    /// It may reach over the end of the page.
    PageEnd,
    /// It is none that the cache knows.
    Opcode,
}

#[verifier::allow_in_spec]
pub fn is_segment_prefix(b: u8) -> bool
    returns
        b == 0x26 || b == 0x2E || b == 0x36 || b == 0x3E || b == 0x64 || b == 0x65,
{
    b == 0x26 || b == 0x2E || b == 0x36 || b == 0x3E || b == 0x64 || b == 0x65
}

/// The reason, as the bytes from `i` on give it.
pub open spec fn reason_from(window: Seq<u8>, i: int) -> Reason
    decreases window.len() - i,
{
    if i >= window.len() {
        Reason::PageEnd
    } else if is_segment_prefix(window[i]) {
        reason_from(window, i + 1)
    } else if window[i] == 0x66 {
        Reason::OperandSizePrefix
    } else if window[i] == 0x67 {
        Reason::AddressSizePrefix
    } else if window[i] == 0xF2 || window[i] == 0xF3 {
        Reason::RepeatPrefix
    } else if window[i] == 0xF0 {
        Reason::LockPrefix
    } else if window.len() < 16 {
        Reason::PageEnd
    } else {
        Reason::Opcode
    }
}

/// Memory from an address to the end of its page.
pub open spec fn page_rest(mem: Seq<u8>, pa: u32) -> Seq<u8> {
    let end = 0x1000 * (pa / 0x1000 + 1);
    mem.subrange(pa as int, if end < mem.len() { end } else { mem.len() as int })
}

/// Why the instruction at an address is not held; nothing where there is no memory.
pub fn classify_fallback(m: &Machine, pa: u32) -> (r: Option<Reason>)
    ensures
        r == (if pa < m@.mem.len() {
            Some(reason_from(page_rest(m@.mem, pa), 0))
        } else {
            None
        }),
{
    let start: usize = pa as usize;
    if start >= m.mem.len() {
        return None;
    }
    let page_end: u64 = 0x1000 * (pa as u64 / 0x1000 + 1);
    let end: usize = if page_end < m.mem.len() as u64 {
        page_end as usize
    } else {
        m.mem.len()
    };
    let ghost window = page_rest(m@.mem, pa);
    let mut i: usize = start;
    while i < end && is_segment_prefix(m.mem[i])
        invariant
            start <= i <= end <= m.mem@.len(),
            window == m@.mem.subrange(start as int, end as int),
            reason_from(window, i - start) == reason_from(window, 0),
        decreases end - i,
    {
        i = i + 1;
    }
    if i >= end {
        return Some(Reason::PageEnd);
    }
    let b: u8 = m.mem[i];
    Some(
        if b == 0x66 {
            Reason::OperandSizePrefix
        } else if b == 0x67 {
            Reason::AddressSizePrefix
        } else if b == 0xF2 || b == 0xF3 {
            Reason::RepeatPrefix
        } else if b == 0xF0 {
            Reason::LockPrefix
        } else if end - start < 16 {
            Reason::PageEnd
        } else {
            Reason::Opcode
        },
    )
}

#[verifier::allow_in_spec]
fn in_memory(rm: &Rm) -> bool
    returns
        *rm is Mem,
{
    matches!(rm, Rm::Mem(_))
}

/// The name of a kind of instruction.
pub open spec fn name_of(u: Uop) -> Seq<char> {
    match u {
        Uop::MovRmR { rm, .. } => if rm is Mem { "mov [m],r"@ } else { "mov r,r"@ },
        Uop::Mov8RmR { rm, .. } => if rm is Mem { "mov8 [m],r"@ } else { "mov8 r,r"@ },
        Uop::Mov8RRm { rm, .. } => if rm is Mem { "mov8 r,[m]"@ } else { "mov8 r,r"@ },
        Uop::Alu8RmR { .. } | Uop::Alu8RRm { .. } | Uop::Alu8AImm { .. } => "alu8"@,
        Uop::Grp18RmImm { .. } => "grp1-8"@,
        Uop::Test8RmR { .. } => "test8"@,
        Uop::MovRm8Imm { .. } => "mov8 [m],imm"@,
        Uop::Mov8AMoffs { .. } => "mov8 moffs"@,
        Uop::MovAMoffs { .. } => "mov moffs"@,
        Uop::ShiftRmImm { rm, .. } | Uop::ShiftRmCl { rm, .. } => if rm is Mem {
            "shift [m]"@
        } else {
            "shift r"@
        },
        Uop::MovzxB { rm, .. } => if rm is Mem { "movzx8 r,[m]"@ } else { "movzx8 r,r"@ },
        Uop::MovzxW { rm, .. } => if rm is Mem { "movzx16 r,[m]"@ } else { "movzx16 r,r"@ },
        Uop::Grp3b { .. } => "grp3-8"@,
        Uop::Grp3w { .. } => "grp3"@,
        Uop::Grp5 { .. } => "grp5 (inc/call/jmp/push rm)"@,
        Uop::SetCC { .. } => "setcc"@,
        Uop::ImulRRm { .. } => "imul"@,
        Uop::StrOne { .. } => "string once"@,
        Uop::CallRel { .. } => "call rel"@,
        Uop::Ret => "ret"@,
        Uop::Leave => "leave"@,
        _ => "other"@,
    }
}

pub fn uop_name(u: &Uop) -> (r: &'static str)
    ensures
        r@ == name_of(*u),
{
    match u {
        Uop::MovRmR { rm, .. } => if in_memory(rm) {
            "mov [m],r"
        } else {
            "mov r,r"
        },
        Uop::Mov8RmR { rm, .. } => if in_memory(rm) {
            "mov8 [m],r"
        } else {
            "mov8 r,r"
        },
        Uop::Mov8RRm { rm, .. } => if in_memory(rm) {
            "mov8 r,[m]"
        } else {
            "mov8 r,r"
        },
        Uop::Alu8RmR { .. } | Uop::Alu8RRm { .. } | Uop::Alu8AImm { .. } => "alu8",
        Uop::Grp18RmImm { .. } => "grp1-8",
        Uop::Test8RmR { .. } => "test8",
        Uop::MovRm8Imm { .. } => "mov8 [m],imm",
        Uop::Mov8AMoffs { .. } => "mov8 moffs",
        Uop::MovAMoffs { .. } => "mov moffs",
        Uop::ShiftRmImm { rm, .. } | Uop::ShiftRmCl { rm, .. } => if in_memory(rm) {
            "shift [m]"
        } else {
            "shift r"
        },
        Uop::MovzxB { rm, .. } => if in_memory(rm) {
            "movzx8 r,[m]"
        } else {
            "movzx8 r,r"
        },
        Uop::MovzxW { rm, .. } => if in_memory(rm) {
            "movzx16 r,[m]"
        } else {
            "movzx16 r,r"
        },
        Uop::Grp3b { .. } => "grp3-8",
        Uop::Grp3w { .. } => "grp3",
        Uop::Grp5 { .. } => "grp5 (inc/call/jmp/push rm)",
        Uop::SetCC { .. } => "setcc",
        Uop::ImulRRm { .. } => "imul",
        Uop::StrOne { .. } => "string once",
        Uop::CallRel { .. } => "call rel",
        Uop::Ret => "ret",
        Uop::Leave => "leave",
        _ => "other",
    }
}

} // verus!
