//! Blocks of decoded instructions for a code generator.
//!
//! A generator sees only a small neutral language ([`JitOp`]). A block ends before the
//! first instruction that the language does not have.

use vstd::prelude::*;
use crate::cpu::dcache::decode::decode_at;
use crate::cpu::dcache::{MemRef, Rm, Uop};
use crate::machine::Machine;

verus! {

/// How the address of a memory operand is made.
#[derive(Clone, Copy, Debug, PartialEq, Eq, Structural)]
pub struct JitMem {
    /// Base register; -1 for none.
    pub base: i8,
    /// Index register; -1 for none.
    pub index: i8,
    pub scale: u8,
    pub seg: u8,
    pub disp: u32,
}

/// What a generator has to know how to do.
#[allow(inconsistent_fields)]
#[derive(Clone, Copy, Debug, PartialEq, Eq, Structural)]
pub enum JitOp {
    /// Moves.
    MovRI { dst: u8, imm: u32 },
    MovRR { dst: u8, src: u8 },
    /// `dst = dst op src`; operation 7 compares and writes nothing.
    AluRR { kind: u8, dst: u8, src: u8 },
    AluRI { kind: u8, dst: u8, imm: u32 },
    /// Flags only.
    TestRR { a: u8, b: u8 },
    /// The carry stays.
    IncDec { reg: u8, dec: bool },
    /// The sum alone; no memory is touched.
    Lea { dst: u8, base: i8, index: i8, scale: u8, disp: u32 },
    /// Loads. Where one would fault, the block is left before it.
    MovRM { dst: u8, mem: JitMem },
    AluRM { kind: u8, dst: u8, mem: JitMem },
    CmpMR { mem: JitMem, reg: u8 },
    CmpMI { mem: JitMem, imm: u32 },
    TestMR { mem: JitMem, reg: u8 },
    /// Stores, left before they would fault in the same way.
    StoreMR { mem: JitMem, src: u8 },
    StoreMI { mem: JitMem, imm: u32 },
    /// Read, operation and write in one.
    AluMR { kind: u8, mem: JitMem, reg: u8 },
    AluMI { kind: u8, mem: JitMem, imm: u32 },
    /// The stack.
    PushR { src: u8 },
    PushI { imm: u32 },
    PopR { dst: u8 },
    Leave,
    XchgA { reg: u8 },
    /// Ends of a block; a jump is relative to the end of its instruction.
    Jcc { cc: u8, rel: u32 },
    Jmp { rel: u32 },
    CallRel { rel: u32 },
    Ret,
    /// The second vocabulary.
    ShiftRI { kind: u8, reg: u8, count: u8 },
    ShiftRC { kind: u8, reg: u8 },
    /// Eight-bit registers are numbered as in instructions, 4 to 7 the high bytes.
    MovzxBR { dst: u8, src8: u8 },
    MovzxBM { dst: u8, mem: JitMem },
    MovzxWR { dst: u8, src: u8 },
    MovzxWM { dst: u8, mem: JitMem },
    Alu8RR { kind: u8, dst8: u8, src8: u8 },
    Alu8RI { kind: u8, dst8: u8, imm: u8 },
    Alu8RM { kind: u8, dst8: u8, mem: JitMem },
    Cmp8MR { mem: JitMem, reg8: u8 },
    Cmp8MI { mem: JitMem, imm: u8 },
    Test8RR { a8: u8, b8: u8 },
    Test8MR { mem: JitMem, reg8: u8 },
    Grp3b8R { kind: u8, reg8: u8, imm: u8 },
    Mov8RR { dst8: u8, src8: u8 },
    Mov8RM { dst8: u8, mem: JitMem },
}

/// The first vocabulary alone.
pub const CAP_F1B: u32 = 0;

/// Shifts, extensions and bytes as well.
pub const CAP_VOCAB2: u32 = 1;

/// A conditional jump does not end a block; the block goes on where it is not taken.
pub const CAP_CHAIN: u32 = 2;

/// A block: the physical address of its head, and lengths and operations.
#[derive(Debug)]
pub struct JitBlock {
    pub head_pa: u32,
    pub ops: Vec<(u8, JitOp)>,
}

#[verifier::ext_equal]
pub struct BlockState {
    pub head_pa: u32,
    pub ops: Seq<(u8, JitOp)>,
}

impl View for JitBlock {
    type V = BlockState;

    open spec fn view(&self) -> BlockState {
        BlockState { head_pa: self.head_pa, ops: self.ops@ }
    }
}

/// A memory operand in the language of generators.
#[verifier::allow_in_spec]
pub fn jit_mem(m: MemRef) -> JitMem
    returns
        (JitMem { base: m.base, index: m.index, scale: m.scale, seg: m.seg, disp: m.disp }),
{
    JitMem { base: m.base, index: m.index, scale: m.scale, seg: m.seg, disp: m.disp }
}

/// An instruction in the second vocabulary.
#[verifier::allow_in_spec]
pub fn convert_second(u: Uop) -> Option<JitOp>
    returns
        (match u {
            Uop::ShiftRmImm { kind, rm, count } => match rm {
                Rm::Reg(reg) => Some(JitOp::ShiftRI { kind, reg, count }),
                Rm::Mem(_) => None,
            },
            Uop::ShiftRmCl { kind, rm } => match rm {
                Rm::Reg(reg) => Some(JitOp::ShiftRC { kind, reg }),
                Rm::Mem(_) => None,
            },
            Uop::MovzxB { reg, rm } => match rm {
                Rm::Reg(src8) => Some(JitOp::MovzxBR { dst: reg, src8 }),
                Rm::Mem(r) => Some(JitOp::MovzxBM { dst: reg, mem: jit_mem(r) }),
            },
            Uop::MovzxW { reg, rm } => match rm {
                Rm::Reg(src) => Some(JitOp::MovzxWR { dst: reg, src }),
                Rm::Mem(r) => Some(JitOp::MovzxWM { dst: reg, mem: jit_mem(r) }),
            },
            Uop::Alu8RmR { kind, rm, reg } => match rm {
                Rm::Reg(dst8) => Some(JitOp::Alu8RR { kind, dst8, src8: reg }),
                Rm::Mem(r) => if kind == 7 {
                    Some(JitOp::Cmp8MR { mem: jit_mem(r), reg8: reg })
                } else {
                    None
                },
            },
            Uop::Alu8RRm { kind, reg, rm } => match rm {
                Rm::Reg(src8) => Some(JitOp::Alu8RR { kind, dst8: reg, src8 }),
                Rm::Mem(r) => Some(JitOp::Alu8RM { kind, dst8: reg, mem: jit_mem(r) }),
            },
            Uop::Grp18RmImm { kind, rm, imm } => match rm {
                Rm::Reg(dst8) => Some(JitOp::Alu8RI { kind, dst8, imm }),
                Rm::Mem(r) => if kind == 7 {
                    Some(JitOp::Cmp8MI { mem: jit_mem(r), imm })
                } else {
                    None
                },
            },
            Uop::Alu8AImm { kind, imm } => Some(JitOp::Alu8RI { kind, dst8: 0, imm }),
            Uop::Test8RmR { rm, reg } => match rm {
                Rm::Reg(a8) => Some(JitOp::Test8RR { a8, b8: reg }),
                Rm::Mem(r) => Some(JitOp::Test8MR { mem: jit_mem(r), reg8: reg }),
            },
            Uop::Grp3b { kind, rm, imm } => match rm {
                Rm::Reg(reg8) => if kind < 4 {
                    Some(JitOp::Grp3b8R { kind, reg8, imm })
                } else {
                    None
                },
                Rm::Mem(_) => None,
            },
            Uop::Mov8RmR { rm, reg } => match rm {
                Rm::Reg(dst8) => Some(JitOp::Mov8RR { dst8, src8: reg }),
                Rm::Mem(_) => None,
            },
            Uop::Mov8RRm { reg, rm } => match rm {
                Rm::Reg(src8) => Some(JitOp::Mov8RR { dst8: reg, src8 }),
                Rm::Mem(r) => Some(JitOp::Mov8RM { dst8: reg, mem: jit_mem(r) }),
            },
            _ => None,
        }),
{
    match u {
        Uop::ShiftRmImm { kind, rm, count } => match rm {
            Rm::Reg(reg) => Some(JitOp::ShiftRI { kind, reg, count }),
            Rm::Mem(_) => None,
        },
        Uop::ShiftRmCl { kind, rm } => match rm {
            Rm::Reg(reg) => Some(JitOp::ShiftRC { kind, reg }),
            Rm::Mem(_) => None,
        },
        Uop::MovzxB { reg, rm } => match rm {
            Rm::Reg(src8) => Some(JitOp::MovzxBR { dst: reg, src8 }),
            Rm::Mem(r) => Some(JitOp::MovzxBM { dst: reg, mem: jit_mem(r) }),
        },
        Uop::MovzxW { reg, rm } => match rm {
            Rm::Reg(src) => Some(JitOp::MovzxWR { dst: reg, src }),
            Rm::Mem(r) => Some(JitOp::MovzxWM { dst: reg, mem: jit_mem(r) }),
        },
        Uop::Alu8RmR { kind, rm, reg } => match rm {
            Rm::Reg(dst8) => Some(JitOp::Alu8RR { kind, dst8, src8: reg }),
            Rm::Mem(r) => if kind == 7 {
                Some(JitOp::Cmp8MR { mem: jit_mem(r), reg8: reg })
            } else {
                None
            },
        },
        Uop::Alu8RRm { kind, reg, rm } => match rm {
            Rm::Reg(src8) => Some(JitOp::Alu8RR { kind, dst8: reg, src8 }),
            Rm::Mem(r) => Some(JitOp::Alu8RM { kind, dst8: reg, mem: jit_mem(r) }),
        },
        Uop::Grp18RmImm { kind, rm, imm } => match rm {
            Rm::Reg(dst8) => Some(JitOp::Alu8RI { kind, dst8, imm }),
            Rm::Mem(r) => if kind == 7 {
                Some(JitOp::Cmp8MI { mem: jit_mem(r), imm })
            } else {
                None
            },
        },
        Uop::Alu8AImm { kind, imm } => Some(JitOp::Alu8RI { kind, dst8: 0, imm }),
        Uop::Test8RmR { rm, reg } => match rm {
            Rm::Reg(a8) => Some(JitOp::Test8RR { a8, b8: reg }),
            Rm::Mem(r) => Some(JitOp::Test8MR { mem: jit_mem(r), reg8: reg }),
        },
        Uop::Grp3b { kind, rm, imm } => match rm {
            Rm::Reg(reg8) => if kind < 4 {
                Some(JitOp::Grp3b8R { kind, reg8, imm })
            } else {
                None
            },
            Rm::Mem(_) => None,
        },
        Uop::Mov8RmR { rm, reg } => match rm {
            Rm::Reg(dst8) => Some(JitOp::Mov8RR { dst8, src8: reg }),
            Rm::Mem(_) => None,
        },
        Uop::Mov8RRm { reg, rm } => match rm {
            Rm::Reg(src8) => Some(JitOp::Mov8RR { dst8: reg, src8 }),
            Rm::Mem(r) => Some(JitOp::Mov8RM { dst8: reg, mem: jit_mem(r) }),
        },
        _ => None,
    }
}

/// An instruction in the first vocabulary.
#[verifier::allow_in_spec]
pub fn convert_first(u: Uop) -> Option<JitOp>
    returns
        (match u {
            Uop::MovRImm { reg, imm } => Some(JitOp::MovRI { dst: reg, imm }),
            Uop::MovRmR { rm, reg } => match rm {
                Rm::Reg(dst) => Some(JitOp::MovRR { dst, src: reg }),
                Rm::Mem(r) => Some(JitOp::StoreMR { mem: jit_mem(r), src: reg }),
            },
            Uop::MovRRm { reg, rm } => match rm {
                Rm::Reg(src) => Some(JitOp::MovRR { dst: reg, src }),
                Rm::Mem(r) => Some(JitOp::MovRM { dst: reg, mem: jit_mem(r) }),
            },
            Uop::AluRRm { kind, reg, rm } => match rm {
                Rm::Reg(src) => Some(JitOp::AluRR { kind, dst: reg, src }),
                Rm::Mem(r) => Some(JitOp::AluRM { kind, dst: reg, mem: jit_mem(r) }),
            },
            Uop::AluRmR { kind, rm, reg } => match rm {
                Rm::Reg(dst) => Some(JitOp::AluRR { kind, dst, src: reg }),
                Rm::Mem(r) => if kind == 7 {
                    Some(JitOp::CmpMR { mem: jit_mem(r), reg })
                } else {
                    Some(JitOp::AluMR { kind, mem: jit_mem(r), reg })
                },
            },
            Uop::Grp1RmImm { kind, rm, imm } => match rm {
                Rm::Reg(dst) => Some(JitOp::AluRI { kind, dst, imm }),
                Rm::Mem(r) => if kind == 7 {
                    Some(JitOp::CmpMI { mem: jit_mem(r), imm })
                } else {
                    Some(JitOp::AluMI { kind, mem: jit_mem(r), imm })
                },
            },
            Uop::TestRmR { rm, reg } => match rm {
                Rm::Reg(a) => Some(JitOp::TestRR { a, b: reg }),
                Rm::Mem(r) => Some(JitOp::TestMR { mem: jit_mem(r), reg }),
            },
            Uop::MovRmImm { rm, imm } => match rm {
                Rm::Reg(dst) => Some(JitOp::MovRI { dst, imm }),
                Rm::Mem(r) => Some(JitOp::StoreMI { mem: jit_mem(r), imm }),
            },
            Uop::AluAImm { kind, imm } => Some(JitOp::AluRI { kind, dst: 0, imm }),
            Uop::IncR { reg } => Some(JitOp::IncDec { reg, dec: false }),
            Uop::DecR { reg } => Some(JitOp::IncDec { reg, dec: true }),
            Uop::Lea { reg, mem } => Some(
                JitOp::Lea {
                    dst: reg,
                    base: mem.base,
                    index: mem.index,
                    scale: mem.scale,
                    disp: mem.disp,
                },
            ),
            Uop::PushR { reg } => Some(JitOp::PushR { src: reg }),
            Uop::PushImm { imm } => Some(JitOp::PushI { imm }),
            Uop::PopR { reg } => Some(JitOp::PopR { dst: reg }),
            Uop::Leave => Some(JitOp::Leave),
            Uop::XchgAR { reg } => Some(JitOp::XchgA { reg }),
            Uop::Jcc { cc, rel } => Some(JitOp::Jcc { cc, rel }),
            Uop::JmpRel { rel } => Some(JitOp::Jmp { rel }),
            Uop::CallRel { rel } => Some(JitOp::CallRel { rel }),
            Uop::Ret => Some(JitOp::Ret),
            _ => None,
        }),
{
    match u {
        Uop::MovRImm { reg, imm } => Some(JitOp::MovRI { dst: reg, imm }),
        Uop::MovRmR { rm, reg } => match rm {
            Rm::Reg(dst) => Some(JitOp::MovRR { dst, src: reg }),
            Rm::Mem(r) => Some(JitOp::StoreMR { mem: jit_mem(r), src: reg }),
        },
        Uop::MovRRm { reg, rm } => match rm {
            Rm::Reg(src) => Some(JitOp::MovRR { dst: reg, src }),
            Rm::Mem(r) => Some(JitOp::MovRM { dst: reg, mem: jit_mem(r) }),
        },
        Uop::AluRRm { kind, reg, rm } => match rm {
            Rm::Reg(src) => Some(JitOp::AluRR { kind, dst: reg, src }),
            Rm::Mem(r) => Some(JitOp::AluRM { kind, dst: reg, mem: jit_mem(r) }),
        },
        Uop::AluRmR { kind, rm, reg } => match rm {
            Rm::Reg(dst) => Some(JitOp::AluRR { kind, dst, src: reg }),
            Rm::Mem(r) => if kind == 7 {
                Some(JitOp::CmpMR { mem: jit_mem(r), reg })
            } else {
                Some(JitOp::AluMR { kind, mem: jit_mem(r), reg })
            },
        },
        Uop::Grp1RmImm { kind, rm, imm } => match rm {
            Rm::Reg(dst) => Some(JitOp::AluRI { kind, dst, imm }),
            Rm::Mem(r) => if kind == 7 {
                Some(JitOp::CmpMI { mem: jit_mem(r), imm })
            } else {
                Some(JitOp::AluMI { kind, mem: jit_mem(r), imm })
            },
        },
        Uop::TestRmR { rm, reg } => match rm {
            Rm::Reg(a) => Some(JitOp::TestRR { a, b: reg }),
            Rm::Mem(r) => Some(JitOp::TestMR { mem: jit_mem(r), reg }),
        },
        Uop::MovRmImm { rm, imm } => match rm {
            Rm::Reg(dst) => Some(JitOp::MovRI { dst, imm }),
            Rm::Mem(r) => Some(JitOp::StoreMI { mem: jit_mem(r), imm }),
        },
        Uop::AluAImm { kind, imm } => Some(JitOp::AluRI { kind, dst: 0, imm }),
        Uop::IncR { reg } => Some(JitOp::IncDec { reg, dec: false }),
        Uop::DecR { reg } => Some(JitOp::IncDec { reg, dec: true }),
        Uop::Lea { reg, mem } => Some(
            JitOp::Lea {
                dst: reg,
                base: mem.base,
                index: mem.index,
                scale: mem.scale,
                disp: mem.disp,
            },
        ),
        Uop::PushR { reg } => Some(JitOp::PushR { src: reg }),
        Uop::PushImm { imm } => Some(JitOp::PushI { imm }),
        Uop::PopR { reg } => Some(JitOp::PopR { dst: reg }),
        Uop::Leave => Some(JitOp::Leave),
        Uop::XchgAR { reg } => Some(JitOp::XchgA { reg }),
        Uop::Jcc { cc, rel } => Some(JitOp::Jcc { cc, rel }),
        Uop::JmpRel { rel } => Some(JitOp::Jmp { rel }),
        Uop::CallRel { rel } => Some(JitOp::CallRel { rel }),
        Uop::Ret => Some(JitOp::Ret),
        _ => None,
    }
}

/// Whether an operation can end a block.
#[verifier::allow_in_spec]
pub fn is_jump(op: JitOp) -> bool
    returns
        (match op {
            JitOp::Jcc { .. } | JitOp::Jmp { .. } | JitOp::CallRel { .. } | JitOp::Ret => true,
            _ => false,
        }),
{
    match op {
        JitOp::Jcc { .. } | JitOp::Jmp { .. } | JitOp::CallRel { .. } | JitOp::Ret => true,
        _ => false,
    }
}

/// An instruction in the language of a generator, and whether it ends the block.
#[verifier::allow_in_spec]
pub fn convert(u: Uop, caps: u32) -> Option<(JitOp, bool)>
    returns
        (match (if caps % 2 == 1 {
            convert_second(u)
        } else {
            None
        }) {
            Some(op) => Some((op, false)),
            None => match convert_first(u) {
                Some(op) => match op {
                    JitOp::Jcc { .. } => Some((op, caps / 2 % 2 == 0)),
                    _ => Some((op, is_jump(op))),
                },
                None => None,
            },
        }),
{
    match (if caps % 2 == 1 {
        convert_second(u)
    } else {
        None
    }) {
        Some(op) => Some((op, false)),
        None => match convert_first(u) {
            Some(op) => match op {
                JitOp::Jcc { .. } => Some((op, caps / 2 % 2 == 0)),
                _ => Some((op, is_jump(op))),
            },
            None => None,
        },
    }
}

/// Whether a generator with the second vocabulary has an instruction.
#[verifier::allow_in_spec]
pub fn in_vocab(u: &Uop) -> bool
    returns
        convert(*u, CAP_VOCAB2) is Some,
{
    convert(*u, CAP_VOCAB2).is_some()
}

/// The operations of a block of up to `cap` instructions.
pub open spec fn block_from(mem: Seq<u8>, pa: u32, cap: nat, caps: u32) -> Seq<(u8, JitOp)>
    decreases cap,
{
    if cap == 0 {
        Seq::empty()
    } else {
        match crate::cpu::dcache::decode::decoded(mem, pa) {
            None => Seq::empty(),
            Some((len, uop)) => match convert(uop, caps) {
                None => Seq::empty(),
                Some((op, ends)) => {
                    let next = pa.wrapping_add(len as u32);
                    if ends || next % 0x1000 == 0 {
                        seq![(len, op)]
                    } else {
                        seq![(len, op)] + block_from(mem, next, (cap - 1) as nat, caps)
                    }
                },
            },
        }
    }
}

/// Where a block that starts at an address ends.
pub open spec fn end_of(pa: u32, ops: Seq<(u8, JitOp)>) -> u32
    decreases ops.len(),
{
    if ops.len() == 0 {
        pa
    } else {
        end_of(pa, ops.drop_last()).wrapping_add(ops.last().0 as u32)
    }
}

/// The address after the instruction at `pa`, where the page goes on there.
pub open spec fn skipped(mem: Seq<u8>, pa: u32) -> Option<u32> {
    match crate::cpu::dcache::decode::decoded(mem, pa) {
        None => None,
        Some((len, _)) => if pa.wrapping_add(len as u32) % 0x1000 == 0 {
            None
        } else {
            Some(pa.wrapping_add(len as u32))
        },
    }
}

/// The blocks of a run. An instruction that the vocabulary does not have is skipped;
/// the run ends at a jump and at the end of the page.
pub open spec fn run_from(
    mem: Seq<u8>,
    pa: u32,
    cap: nat,
    room: nat,
    caps: u32,
    tries: nat,
) -> Seq<BlockState>
    decreases tries,
{
    if room == 0 || tries == 0 {
        Seq::empty()
    } else {
        let ops = block_from(mem, pa, cap, caps);
        if ops.len() == 0 {
            match skipped(mem, pa) {
                None => Seq::empty(),
                Some(q) => run_from(mem, q, cap, room, caps, (tries - 1) as nat),
            }
        } else {
            let first = seq![BlockState { head_pa: pa, ops }];
            let end = end_of(pa, ops);
            if is_jump(ops.last().1) || end % 0x1000 == 0 {
                first
            } else if ops.len() >= cap {
                first + run_from(mem, end, cap, (room - 1) as nat, caps, (tries - 1) as nat)
            } else {
                match skipped(mem, end) {
                    None => first,
                    Some(q) => first + run_from(
                        mem,
                        q,
                        cap,
                        (room - 1) as nat,
                        caps,
                        (tries - 1) as nat,
                    ),
                }
            }
        }
    }
}

/// What each of some blocks is.
pub open spec fn views(blocks: Seq<JitBlock>) -> Seq<BlockState> {
    Seq::new(blocks.len(), |i: int| blocks[i]@)
}

/// The blocks of a run that starts at `pa`, in the first vocabulary.
pub fn collect_run(m: &Machine, pa: u32, cap: usize, max_blocks: usize) -> (r: Vec<JitBlock>)
    ensures
        views(r@) == run_from(m@.mem, pa, cap as nat, max_blocks as nat, CAP_F1B, 64),
{
    collect_run_caps(m, pa, cap, max_blocks, CAP_F1B)
}

fn skip_one(m: &Machine, pa: u32) -> (r: Option<u32>)
    ensures
        r == skipped(m@.mem, pa),
{
    match decode_at(m, pa) {
        None => None,
        Some((len, _)) => {
            let q: u32 = pa.wrapping_add(len as u32);
            if q % 0x1000 == 0 {
                None
            } else {
                Some(q)
            }
        },
    }
}

fn block_end(pa: u32, ops: &Vec<(u8, JitOp)>) -> (r: u32)
    ensures
        r == end_of(pa, ops@),
{
    let mut e: u32 = pa;
    let mut i: usize = 0;
    while i < ops.len()
        invariant
            i <= ops.len(),
            e == end_of(pa, ops@.take(i as int)),
        decreases ops.len() - i,
    {
        e = e.wrapping_add(ops[i].0 as u32);
        i = i + 1;
        assert(ops@.take(i as int).drop_last() == ops@.take(i as int - 1));
    }
    assert(ops@.take(i as int) == ops@);
    e
}

/// The blocks of a run that starts at `pa`, in the vocabulary that `caps` says.
pub fn collect_run_caps(
    m: &Machine,
    pa: u32,
    cap: usize,
    max_blocks: usize,
    caps: u32,
) -> (r: Vec<JitBlock>)
    ensures
        views(r@) == run_from(m@.mem, pa, cap as nat, max_blocks as nat, caps, 64),
{
    let mut blocks: Vec<JitBlock> = Vec::new();
    let mut p: u32 = pa;
    let mut tries: usize = 64;
    let ghost whole = run_from(m@.mem, pa, cap as nat, max_blocks as nat, caps, 64);
    assert(views(blocks@) + whole == whole);
    while blocks.len() < max_blocks && tries > 0
        invariant_except_break
            blocks.len() <= max_blocks,
            views(blocks@) + run_from(
                m@.mem,
                p,
                cap as nat,
                (max_blocks - blocks.len()) as nat,
                caps,
                tries as nat,
            ) == whole,
        ensures
            views(blocks@) == whole,
        decreases tries,
    {
        tries = tries - 1;
        let ghost before = views(blocks@);
        let next: Option<u32> = match collect_block_caps(m, p, cap, caps) {
            None => skip_one(m, p),
            Some(b) => {
                let end: u32 = block_end(p, &b.ops);
                let n: usize = b.ops.len();
                let jumps = is_jump(b.ops[n - 1].1);
                blocks.push(b);
                assert(views(blocks@) == before + seq![blocks@.last()@]);
                if jumps || end % 0x1000 == 0 {
                    None
                } else if n >= cap {
                    Some(end)
                } else {
                    skip_one(m, end)
                }
            },
        };
        match next {
            None => {
                assert(views(blocks@) + Seq::<BlockState>::empty() == views(blocks@));
                assert(before + Seq::<BlockState>::empty() == before);
                break;
            },
            Some(q) => {
                p = q;
            },
        }
        proof {
            let rest = run_from(
                m@.mem,
                p,
                cap as nat,
                (max_blocks - blocks.len()) as nat,
                caps,
                tries as nat,
            );
            if blocks.len() > before.len() {
                assert(before + (seq![blocks@.last()@] + rest) == (before + seq![
                    blocks@.last()@,
                ]) + rest);
            }
        }
    }
    assert(views(blocks@) + Seq::<BlockState>::empty() == views(blocks@));
    blocks
}

/// The block that starts at `pa`, of up to `cap` instructions; nothing where not even
/// one instruction can be taken.
pub fn collect_block(m: &Machine, pa: u32, cap: usize) -> (r: Option<JitBlock>)
    ensures
        match r {
            None => block_from(m@.mem, pa, cap as nat, CAP_F1B).len() == 0,
            Some(b) => b@.head_pa == pa && b@.ops.len() > 0 && b@.ops == block_from(
                m@.mem,
                pa,
                cap as nat,
                CAP_F1B,
            ),
        },
{
    collect_block_caps(m, pa, cap, CAP_F1B)
}

/// The block that starts at `pa`, in the vocabulary that `caps` says.
pub fn collect_block_caps(m: &Machine, pa: u32, cap: usize, caps: u32) -> (r: Option<JitBlock>)
    ensures
        match r {
            None => block_from(m@.mem, pa, cap as nat, caps).len() == 0,
            Some(b) => b@.head_pa == pa && b@.ops.len() > 0 && b@.ops == block_from(
                m@.mem,
                pa,
                cap as nat,
                caps,
            ),
        },
{
    let mut ops: Vec<(u8, JitOp)> = Vec::new();
    let mut p: u32 = pa;
    let ghost whole = block_from(m@.mem, pa, cap as nat, caps);
    assert(ops@ + whole == whole);
    while ops.len() < cap
        invariant_except_break
            ops.len() <= cap,
            ops@ + block_from(m@.mem, p, (cap - ops.len()) as nat, caps) == whole,
        ensures
            ops@ == whole,
        decreases cap - ops.len(),
    {
        let ghost before = ops@;
        assert(before + Seq::<(u8, JitOp)>::empty() == before);
        let (len, uop) = match decode_at(m, p) {
            None => {
                break;
            },
            Some(x) => x,
        };
        let (op, ends) = match convert(uop, caps) {
            None => {
                break;
            },
            Some(x) => x,
        };
        ops.push((len, op));
        assert(ops@ == before + seq![(len, op)]);
        p = p.wrapping_add(len as u32);
        if ends || p % 0x1000 == 0 {
            break;
        }
        proof {
            let rest = block_from(m@.mem, p, (cap - ops.len()) as nat, caps);
            assert(before + (seq![(len, op)] + rest) == (before + seq![(len, op)]) + rest);
        }
    }
    assert(ops@ + Seq::<(u8, JitOp)>::empty() == ops@);
    if ops.len() == 0 {
        None
    } else {
        Some(JitBlock { head_pa: pa, ops })
    }
}

/// The generation of the page of an address, by which a generated block is known to
/// be up to date.
pub fn page_gen(m: &Machine, pa: u32) -> (r: u32)
    ensures
        r == m@.dcache.gen_of(pa),
{
    m.dcache.page_gen_of(pa)
}

} // verus!
