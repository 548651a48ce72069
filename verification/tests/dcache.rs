use rustx86_core::cpu::dcache::census::{classify_fallback, uop_name, Reason};
use rustx86_core::cpu::dcache::decode::decode_at;
use rustx86_core::cpu::dcache::exec::{is_control, may_touch_memory, prefixed_opcode, reprobe_after};
use rustx86_core::cpu::dcache::jit::{
    collect_block, collect_block_caps, collect_run, in_vocab, page_gen, JitOp, CAP_CHAIN, CAP_VOCAB2,
};
use rustx86_core::cpu::dcache::{len_flags_of, step_cached, MemRef, Rm, Uop};
use rustx86_core::cpu::state::{AX, BX, CF, CS, CX, DI, DX, SI, SP, ZF};
use rustx86_core::cpu::{step, SegHidden};
use rustx86_core::machine::{Machine, MachineProfile};

fn flat(code: &[u8]) -> Machine {
    let mut m = Machine::new(0x11_0000, MachineProfile { has_fpu: true, has_cpuid: true }, 1000);
    m.store(0x8000, code);
    m.cpu.cr0 = 1;
    for i in 0..6usize {
        m.cpu.hidden[i] = SegHidden { base: 0, limit: 0xFFFF_FFFF, access: 0x93, big: true };
        m.cpu.sregs[i] = 0x18;
    }
    m.cpu.sregs[CS] = 0x10;
    m.cpu.ip = 0x8000;
    m.cpu.set_reg32(SP, 0x7000);
    m
}

/// Registers that make memory operands land in memory.
fn with_registers(code: &[u8]) -> Machine {
    let mut m = flat(code);
    for i in 0..8usize {
        m.cpu.set_reg32(i, 0x1000 + 0x123 * i as u32);
    }
    m.cpu.set_reg32(SP, 0x7000);
    m.cpu.set_reg32(CX, 3);
    m.cpu.set_flag(CF, true);
    for a in 0..0x4000u32 {
        m.mem[a as usize] = (a.wrapping_mul(7) >> 2) as u8;
    }
    m
}

/// The same instruction through the cache and through the interpreter.
fn both_ways(code: &[u8]) {
    let mut a = with_registers(code);
    let mut b = with_registers(code);
    step(&mut a);
    step_cached(&mut b, 0);
    assert_eq!(a.cpu.regs, b.cpu.regs, "{code:02x?}");
    assert_eq!(a.cpu.ip, b.cpu.ip, "{code:02x?}");
    assert_eq!(a.cpu.eflags(), b.cpu.eflags(), "{code:02x?}");
    assert_eq!(a.mem, b.mem, "{code:02x?}");
    assert_eq!(a.pending_fault, b.pending_fault, "{code:02x?}");
    assert_eq!(a.log.prefixed_seen, b.log.prefixed_seen, "{code:02x?}");
    assert_eq!(b.dcache.fills, 1, "{code:02x?} was not cached");
}

#[test]
fn cached_instructions_do_what_the_interpreter_does() {
    both_ways(&[0x89, 0xD8]);
    both_ways(&[0x8B, 0x44, 0x8B, 0x08]);
    both_ways(&[0x66, 0x89, 0x07]);
    both_ways(&[0x66, 0x8B, 0x1E]);
    both_ways(&[0x88, 0x27]);
    both_ways(&[0x8A, 0x2E]);
    both_ways(&[0xB8, 0x78, 0x56, 0x34, 0x12]);
    for op in [0x00u8, 0x01, 0x02, 0x03, 0x10, 0x19, 0x22, 0x2B, 0x31, 0x38, 0x3B] {
        both_ways(&[op, 0x03]);
        both_ways(&[op, 0xD1]);
    }
    both_ways(&[0x14, 0x55]);
    both_ways(&[0x3D, 1, 2, 3, 4]);
    both_ways(&[0x83, 0xC0, 0xFE]);
    both_ways(&[0x81, 0x2B, 1, 0, 0, 0]);
    both_ways(&[0x80, 0x3B, 0x10]);
    both_ways(&[0x85, 0xC0]);
    both_ways(&[0x84, 0x03]);
    both_ways(&[0x40]);
    both_ways(&[0x4B]);
    both_ways(&[0x53]);
    both_ways(&[0x58]);
    both_ways(&[0x68, 1, 2, 3, 4]);
    both_ways(&[0x6A, 0x80]);
    both_ways(&[0x72, 0x10]);
    both_ways(&[0x73, 0x10]);
    both_ways(&[0x0F, 0x82, 0, 1, 0, 0]);
    both_ways(&[0x0F, 0x92, 0xC0]);
    both_ways(&[0x0F, 0xAF, 0xC3]);
    both_ways(&[0x0F, 0xB6, 0x03]);
    both_ways(&[0x0F, 0xB7, 0xC3]);
    both_ways(&[0x8D, 0x84, 0x93, 1, 2, 3, 4]);
    both_ways(&[0x93]);
    both_ways(&[0xA1, 0, 0x10, 0, 0]);
    both_ways(&[0xA2, 0, 0x10, 0, 0]);
    both_ways(&[0xC1, 0xE0, 5]);
    both_ways(&[0xD1, 0x1B]);
    both_ways(&[0xD3, 0xC8]);
    both_ways(&[0xC6, 0x03, 9]);
    both_ways(&[0xC7, 0x03, 9, 8, 7, 6]);
    both_ways(&[0xC9]);
    both_ways(&[0xC3]);
    both_ways(&[0xF6, 0x03, 0x0F]);
    both_ways(&[0xF7, 0xD8]);
    both_ways(&[0xF7, 0x13]);
    both_ways(&[0xFF, 0xC0]);
    both_ways(&[0xFF, 0x33]);
    both_ways(&[0xFF, 0x13]);
    both_ways(&[0xE8, 0x10, 0, 0, 0]);
    both_ways(&[0xE9, 0x10, 0, 0, 0]);
    both_ways(&[0xEB, 0xF0]);
    both_ways(&[0xA5]);
    both_ways(&[0xF3, 0xA4]);
    both_ways(&[0x66, 0xAB]);
    both_ways(&[0xF3, 0x66, 0xA5]);
    both_ways(&[0x64, 0x8B, 0x03]);
}

#[test]
fn what_is_not_cached_is_interpreted() {
    for code in [
        &[0x66u8, 0x01, 0xD8][..],
        &[0x67, 0x8B, 0x07][..],
        &[0xF0, 0x01, 0x03][..],
        &[0xF7, 0xE3][..],
        &[0x0F, 0xA2][..],
        &[0x9C][..],
    ] {
        let mut m = with_registers(code);
        step_cached(&mut m, 0);
        assert_eq!((m.dcache.fills, m.dcache.fallbacks), (0, 1), "{code:02x?}");
        assert_eq!(m.trap_ip, 0x8000);
    }
}

#[test]
fn decoding_makes_an_operand_without_its_address() {
    let m = flat(&[0x2E, 0x8B, 0x44, 0x8B, 0x08]);
    assert_eq!(
        decode_at(&m, 0x8000),
        Some((
            5,
            Uop::MovRRm {
                reg: 0,
                rm: Rm::Mem(MemRef { base: 3, index: 1, scale: 2, seg: 1, disp: 8 })
            }
        ))
    );
    // mov eax, ebx is two bytes; the second alone is something else
    let m = flat(&[0x89, 0xD8]);
    assert_eq!(decode_at(&m, 0x8000), Some((2, Uop::MovRmR { rm: Rm::Reg(0), reg: 3 })));
}

#[test]
fn an_instruction_across_pages_is_not_kept() {
    let mut m = flat(&[]);
    m.store(0x8FFE, &[0xB8, 1, 0, 0, 0]);
    assert_eq!(decode_at(&m, 0x8FFE), None);
    m.cpu.ip = 0x8FFE;
    step_cached(&mut m, 0);
    assert_eq!(m.cpu.reg32(AX), 1);
    assert_eq!(m.cpu.ip, 0x9003);
    assert_eq!(m.dcache.fills, 0);
}

#[test]
fn a_second_visit_hits() {
    let mut m = flat(&[0x40, 0xEB, 0xFD]);
    for _ in 0..6 {
        step_cached(&mut m, 0);
    }
    assert_eq!(m.cpu.reg32(AX), 3);
    assert_eq!(m.dcache.fills, 2);
}

#[test]
fn code_that_changes_itself_is_decoded_again() {
    let mut m = flat(&[0x40, 0x40]);
    step_cached(&mut m, 0);
    assert_eq!(m.dcache.lookup(0x8000).map(|x| x.1), Some(Uop::IncR { reg: 0 }));
    let before = page_gen(&m, 0x8000);
    m.write8(0x8000, 0x43);
    assert_eq!(page_gen(&m, 0x8000), before + 1);
    assert_eq!(m.dcache.lookup(0x8000), None);
    m.cpu.ip = 0x8000;
    step_cached(&mut m, 0);
    assert_eq!((m.cpu.reg32(AX), m.cpu.reg32(BX)), (1, 1));
}

#[test]
fn a_write_to_data_leaves_the_cache_alone() {
    let mut m = flat(&[0x40]);
    step_cached(&mut m, 0);
    m.write8(0x1000, 1);
    assert_eq!(page_gen(&m, 0x1000), 0);
    assert!(m.dcache.lookup(0x8000).is_some());
    m.dcache.note_write_range(0x7FFF, 2);
    assert_eq!(m.dcache.lookup(0x8000), None);
}

#[test]
fn a_chain_runs_on_in_its_page() {
    let mut m = flat(&[0x40; 10]);
    step_cached(&mut m, 4);
    assert_eq!(m.cpu.reg32(AX), 5);
    assert_eq!(m.cpu.tsc, 4);
    // it ends at the end of the page
    let mut m = flat(&[]);
    m.store(0x8FFE, &[0x40; 8]);
    m.cpu.ip = 0x8FFE;
    step_cached(&mut m, 7);
    assert_eq!(m.cpu.reg32(AX), 2);
    // and it ends where an interrupt waits
    let mut m = flat(&[0x40; 10]);
    m.cpu.set_flag(0x200, true);
    m.pending_irq = Some(0x20);
    step_cached(&mut m, 7);
    assert_eq!(m.cpu.reg32(AX), 1);
}

#[test]
fn natures_of_instructions() {
    let mem = Rm::Mem(MemRef { base: -1, index: -1, scale: 0, seg: 3, disp: 0 });
    assert!(is_control(Uop::Ret));
    assert!(is_control(Uop::Grp5 { kind: 4, rm: mem }));
    assert!(!is_control(Uop::Grp5 { kind: 6, rm: mem }));
    assert!(may_touch_memory(Uop::MovRmR { rm: mem, reg: 0 }));
    assert!(!may_touch_memory(Uop::MovRmR { rm: Rm::Reg(1), reg: 0 }));
    assert!(reprobe_after(Uop::Cdq));
    assert!(!reprobe_after(Uop::Ret));
    assert_eq!(prefixed_opcode(Uop::Mov16RmR { rm: mem, reg: 0 }), Some(0x89));
    assert_eq!(prefixed_opcode(Uop::Ret), None);
    assert_eq!(len_flags_of(5, Uop::Ret), 5 + 16 + 32);
    assert_eq!(len_flags_of(1, Uop::IncR { reg: 0 }), 1);
}

#[test]
fn blocks_for_a_generator() {
    // mov eax, 5; add eax, ebx; jz +2
    let m = flat(&[0xB8, 5, 0, 0, 0, 0x01, 0xD8, 0x74, 0x02, 0x40, 0x90]);
    let b = collect_block(&m, 0x8000, 16).unwrap();
    assert_eq!(b.head_pa, 0x8000);
    assert_eq!(
        b.ops,
        vec![
            (5, JitOp::MovRI { dst: 0, imm: 5 }),
            (2, JitOp::AluRR { kind: 0, dst: 0, src: 3 }),
            (2, JitOp::Jcc { cc: 4, rel: 2 }),
        ]
    );
    // with chaining the block goes on behind the jump
    let c = collect_block_caps(&m, 0x8000, 4, CAP_CHAIN).unwrap();
    assert_eq!(c.ops.len(), 4);
    assert_eq!(c.ops[3].1, JitOp::IncDec { reg: 0, dec: false });
    // a run ends with a jump, and goes on where a block is full
    assert_eq!(collect_run(&m, 0x8000, 16, 2).len(), 1);
    let r = collect_run(&m, 0x8000, 2, 2);
    assert_eq!(r.len(), 2);
    assert_eq!((r[1].head_pa, r[1].ops.len()), (0x8007, 1));
}

#[test]
fn the_second_vocabulary_has_shifts() {
    // shl eax, 3
    let m = flat(&[0xC1, 0xE0, 3, 0x90]);
    assert!(collect_block(&m, 0x8000, 16).is_none());
    let b = collect_block_caps(&m, 0x8000, 1, CAP_VOCAB2).unwrap();
    assert_eq!(b.ops, vec![(3, JitOp::ShiftRI { kind: 4, reg: 0, count: 3 })]);
}

#[test]
fn reasons_not_to_be_held() {
    let reason = |code: &[u8]| classify_fallback(&flat(code), 0x8000);
    assert_eq!(reason(&[0x66, 0x90]), Some(Reason::OperandSizePrefix));
    assert_eq!(reason(&[0x26, 0x67, 0x90]), Some(Reason::AddressSizePrefix));
    assert_eq!(reason(&[0x64, 0x65, 0xF3, 0x90]), Some(Reason::RepeatPrefix));
    assert_eq!(reason(&[0xF0, 0x90]), Some(Reason::LockPrefix));
    assert_eq!(reason(&[0x0F, 0xA2]), Some(Reason::Opcode));
    let mut m = flat(&[]);
    assert_eq!(classify_fallback(&m, 0x8FF1), Some(Reason::PageEnd));
    assert_eq!(classify_fallback(&m, 0x8FF0), Some(Reason::Opcode));
    m.store(0x8FFF, &[0x2E]);
    assert_eq!(classify_fallback(&m, 0x8FFF), Some(Reason::PageEnd));
    assert_eq!(classify_fallback(&m, 0x11_0000), None);
}

#[test]
fn names_of_instructions() {
    let mem = Rm::Mem(MemRef { base: 3, index: -1, scale: 0, seg: 3, disp: 0 });
    assert_eq!(uop_name(&Uop::MovRmR { rm: Rm::Reg(1), reg: 0 }), "mov r,r");
    assert_eq!(uop_name(&Uop::MovRmR { rm: mem, reg: 0 }), "mov [m],r");
    assert_eq!(uop_name(&Uop::Ret), "ret");
    assert_eq!(uop_name(&Uop::Cdq), "other");
    assert!(in_vocab(&Uop::ShiftRmImm { kind: 4, rm: Rm::Reg(0), count: 3 }));
    assert!(!in_vocab(&Uop::Grp5 { kind: 2, rm: mem }));
}

#[test]
fn a_cached_loop_adds_up() {
    // mov ecx, 10; xor eax, eax; add eax, ecx; dec ecx; jnz -5; hlt
    let mut m = flat(&[
        0xB9, 10, 0, 0, 0, 0x31, 0xC0, 0x01, 0xC8, 0x49, 0x75, 0xFB, 0xF4,
    ]);
    let mut n = 0;
    while !m.halted && n < 100 {
        step_cached(&mut m, 3);
        n += 1;
    }
    assert!(m.halted);
    assert_eq!(m.cpu.reg32(AX), 55);
    assert!(m.cpu.flag(ZF));
}

#[test]
fn sixteen_bit_code_goes_the_ordinary_way() {
    let mut m = Machine::new(0x11_0000, MachineProfile { has_fpu: true, has_cpuid: true }, 1000);
    m.store(0x7C00, &[0x40]);
    m.cpu.set_cs_ip(0, 0x7C00);
    m.cpu.set_reg32(SI, 0);
    m.cpu.set_reg32(DI, 0);
    m.cpu.set_reg32(DX, 0);
    step_cached(&mut m, 0);
    assert_eq!(m.cpu.reg16(AX), 1);
    assert_eq!((m.dcache.fills, m.dcache.fallbacks), (0, 0));
}

/// Pages one to one, with a directory at 10000 and a table at 11000 in which nothing is
/// accessed yet.
fn paged(m: &mut Machine) {
    m.store(0x1_0000, &[0x07, 0x10, 0x01, 0x00]);
    for i in 0..64u32 {
        let e = (i << 12) | 7;
        m.store(0x1_1000 + 4 * i, &e.to_le_bytes());
    }
    m.cpu.cr3 = 0x1_0000;
    m.cpu.cr0 = 0x8000_0001;
}

fn entry(m: &Machine, page: u32) -> u32 {
    m.read_phys32(0x1_1000 + 4 * page) & 0xFFF
}

#[test]
fn page_tables_say_what_was_accessed() {
    // mov eax, [ebx]; mov [ecx], eax; nop
    let mut m = flat(&[0x8B, 0x03, 0x89, 0x01, 0x90]);
    paged(&mut m);
    m.cpu.set_reg32(BX, 0x5000);
    m.cpu.set_reg32(CX, 0x6000);
    let code = m.cpu.ip >> 12;
    step_cached(&mut m, 0);
    // the fetch is in the tables, the read comes with the next instruction
    assert_eq!(m.read_phys32(0x1_0000), 0x1_1027);
    assert_eq!((entry(&m, code), entry(&m, 5), entry(&m, 6)), (0x27, 0x07, 0x07));
    step_cached(&mut m, 0);
    assert_eq!((entry(&m, code), entry(&m, 5), entry(&m, 6)), (0x27, 0x27, 0x07));
    step_cached(&mut m, 0);
    assert_eq!((entry(&m, code), entry(&m, 5), entry(&m, 6)), (0x27, 0x27, 0x67));
    assert!(m.marks.is_empty());
    assert_eq!(entry(&m, 7), 0x07);
}

#[test]
fn a_chain_brings_the_tables_up_to_date() {
    // mov [ecx], eax; mov edx, [ebx]: the table itself says that page 6 is dirty
    let mut m = flat(&[0x89, 0x01, 0x8B, 0x13]);
    paged(&mut m);
    m.cpu.set_reg32(CX, 0x6000);
    m.cpu.set_reg32(BX, 0x1_1018);
    step_cached(&mut m, 1);
    assert_eq!(m.cpu.reg32(DX), 0x6067);
}

#[test]
fn bits_that_are_raised_are_written_once() {
    let mut m = flat(&[]);
    paged(&mut m);
    m.write32(0x5FFE, 0x1234_5678);
    m.write8(0x5000, 1);
    assert_eq!(m.read16(0x5FFE), 0x5678);
    assert_eq!(m.marks.len(), 5);
    assert_eq!(entry(&m, 5), 0x07);
    m.flush_ad();
    assert_eq!((entry(&m, 5), entry(&m, 6), m.read_phys32(0x1_0000)), (0x67, 0x67, 0x1_1027));
    m.write8(0x5001, 1);
    assert!(m.marks.is_empty() && m.walk_is_quiet(0x5000, true));
    // an access that faults raises nothing
    m.store(0x1_1000 + 4 * 7, &[0x06]);
    m.read8(0x7000);
    assert!(m.marks.is_empty() && m.pending_fault.is_some());
}

#[test]
fn a_copy_in_pages_notes_both() {
    // rep movsb
    let mut m = flat(&[0xF3, 0xA4]);
    paged(&mut m);
    m.cpu.set_reg32(SI, 0x5000);
    m.cpu.set_reg32(DI, 0x6000);
    m.cpu.set_reg32(CX, 0x20);
    for k in 0..0x20usize {
        m.mem[0x5000 + k] = k as u8 + 1;
    }
    step(&mut m);
    assert!(m.mem[0x5000..0x5020] == m.mem[0x6000..0x6020]);
    m.flush_ad();
    assert_eq!((entry(&m, 5), entry(&m, 6)), (0x27, 0x67));
}
