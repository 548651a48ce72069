use rustx86_core::cpu::state::{
    AX, BP, BX, CF, CS, CX, DF, DI, DS, DX, ES, IF, OF, SI, SP, SS, ZF,
};
use rustx86_core::cpu::dcache::step_cached;
use rustx86_core::cpu::{interrupt, iret, page_fault, step, SegHidden};
use rustx86_core::machine::{Fault, Machine, MachineProfile, PortEvent, TrapReason};

fn machine() -> Machine {
    Machine::new(0x11_0000, MachineProfile { has_fpu: true, has_cpuid: true }, 1000)
}

/// Real-mode code at 0000:7C00, the stack below it.
fn code16(code: &[u8]) -> Machine {
    let mut m = machine();
    m.store(0x7C00, code);
    m.cpu.set_cs_ip(0, 0x7C00);
    m.cpu.set_reg32(SP, 0x7000);
    m
}

/// 32-bit code at 8000 in flat segments.
fn flat(code: &[u8]) -> Machine {
    let mut m = machine();
    m.store(0x8000, code);
    m.cpu.cr0 = 1;
    for i in 0..6usize {
        m.cpu.hidden[i] = SegHidden { base: 0, limit: 0xFFFF_FFFF, access: 0x93, big: true };
        m.cpu.sregs[i] = 0x18;
    }
    m.cpu.sregs[CS] = 0x10;
    m.cpu.ip = 0x8000;
    m.cpu.set_reg32(SP, 0x7000);
    m
}

fn steps(m: &mut Machine, n: usize) {
    for _ in 0..n {
        step(m);
    }
}

#[test]
fn moves_of_immediates_and_registers() {
    // mov ax, 1234h; mov bl, 56h; mov cx, ax
    let mut m = code16(&[0xB8, 0x34, 0x12, 0xB3, 0x56, 0x89, 0xC1]);
    steps(&mut m, 3);
    assert_eq!(m.cpu.reg16(AX), 0x1234);
    assert_eq!(m.cpu.reg16(BX), 0x0056);
    assert_eq!(m.cpu.reg16(CX), 0x1234);
    assert_eq!(m.cpu.ip, 0x7C07);
}

#[test]
fn an_operand_size_prefix_is_noted() {
    // mov eax, 12345678h in 16-bit code
    let mut m = code16(&[0x66, 0xB8, 0x78, 0x56, 0x34, 0x12]);
    step(&mut m);
    assert_eq!(m.cpu.reg32(AX), 0x1234_5678);
    assert!(m.log.prefixed_seen[0xB8]);
    assert!(!m.log.prefixed_seen[0xB9]);
}

#[test]
fn sixteen_bit_addresses() {
    // mov [bx+si+2], al
    let mut m = code16(&[0x88, 0x40, 0x02]);
    m.cpu.set_reg32(BX, 0x500);
    m.cpu.set_reg32(SI, 0x10);
    m.cpu.set_reg8(0, 0xAB);
    step(&mut m);
    assert_eq!(m.read_phys8(0x512), 0xAB);
}

#[test]
fn segments_in_real_mode() {
    // mov es:[di], al
    let mut m = code16(&[0x26, 0x88, 0x05]);
    m.cpu.sregs[ES] = 0x1000;
    m.cpu.set_reg32(DI, 0x20);
    m.cpu.set_reg8(0, 0x77);
    step(&mut m);
    assert_eq!(m.read_phys8(0x1_0020), 0x77);
    assert_eq!(m.cpu.lin(ES, 0xFFFF), 0x1_FFFF);
    m.cpu.sregs[ES] = 0xFFFF;
    assert_eq!(m.cpu.lin(ES, 0x10), 0);
}

#[test]
fn a_scaled_index() {
    // mov eax, [ebx+ecx*4+8]
    let mut m = flat(&[0x8B, 0x44, 0x8B, 0x08]);
    m.cpu.set_reg32(BX, 0x1000);
    m.cpu.set_reg32(CX, 3);
    m.store(0x1014, &[0x78, 0x56, 0x34, 0x12]);
    step(&mut m);
    assert_eq!(m.cpu.reg32(AX), 0x1234_5678);
}

#[test]
fn push_and_pop() {
    // push eax; pop ebx
    let mut m = flat(&[0x50, 0x5B]);
    m.cpu.set_reg32(AX, 0xCAFE_F00D);
    step(&mut m);
    assert_eq!(m.cpu.reg32(SP), 0x6FFC);
    assert_eq!(m.read_phys32(0x6FFC), 0xCAFE_F00D);
    step(&mut m);
    assert_eq!(m.cpu.reg32(BX), 0xCAFE_F00D);
    assert_eq!(m.cpu.reg32(SP), 0x7000);
}

#[test]
fn call_and_return() {
    // call +2; hlt; hlt; ret
    let mut m = flat(&[0xE8, 0x02, 0x00, 0x00, 0x00, 0xF4, 0xF4, 0xC3]);
    step(&mut m);
    assert_eq!(m.cpu.ip, 0x8007);
    step(&mut m);
    assert_eq!(m.cpu.ip, 0x8005);
    step(&mut m);
    assert!(m.halted);
}

#[test]
fn conditional_jumps_and_loops() {
    // mov cx, 3; inc ax; loop -3
    let mut m = code16(&[0xB9, 0x03, 0x00, 0x40, 0xE2, 0xFD]);
    steps(&mut m, 7);
    assert_eq!(m.cpu.reg16(AX), 3);
    assert_eq!(m.cpu.reg16(CX), 0);
    assert_eq!(m.cpu.ip, 0x7C06);
    // cmp al, al; jne +2; je +2
    let mut m = code16(&[0x38, 0xC0, 0x75, 0x02, 0x74, 0x02]);
    steps(&mut m, 3);
    assert_eq!(m.cpu.ip, 0x7C08);
}

#[test]
fn multiplication_and_division() {
    // mul bl; div bl
    let mut m = code16(&[0xF6, 0xE3, 0xF6, 0xF3]);
    m.cpu.set_reg8(0, 200);
    m.cpu.set_reg8(3, 7);
    step(&mut m);
    assert_eq!(m.cpu.reg16(AX), 1400);
    assert!(m.cpu.flag(CF) && m.cpu.flag(OF));
    step(&mut m);
    assert_eq!(m.cpu.reg8(0), 200);
    assert_eq!(m.cpu.reg8(4), 0);
    // imul ecx, edx, -3
    let mut m = flat(&[0x6B, 0xCA, 0xFD]);
    m.cpu.set_reg32(DX, 5);
    step(&mut m);
    assert_eq!(m.cpu.reg32(CX), 0xFFFF_FFF1);
    assert!(!m.cpu.flag(CF));
}

#[test]
fn a_division_by_zero_takes_interrupt_0() {
    let mut m = code16(&[0xF6, 0xF3]);
    m.store(0, &[0x00, 0x90, 0x00, 0x00]);
    m.cpu.set_reg32(AX, 5);
    step(&mut m);
    assert_eq!((m.cpu.sregs[CS], m.cpu.ip), (0, 0x9000));
    // the stack holds the address of the division itself
    assert_eq!(m.read16(0x6FFA), 0x7C00);
}

#[test]
fn interrupts_and_their_return() {
    let mut m = code16(&[]);
    m.store(0x84, &[0x34, 0x12, 0x00, 0x20]);
    m.cpu.set_flag(IF, true);
    m.cpu.set_flag(CF, true);
    let before = m.cpu.eflags();
    interrupt(&mut m, 0x21);
    assert_eq!((m.cpu.sregs[CS], m.cpu.ip), (0x2000, 0x1234));
    assert!(!m.cpu.flag(IF));
    assert_eq!(m.cpu.reg16(SP), 0x6FFA);
    assert_eq!(m.log.int_counts[0x21], 1);
    iret(&mut m);
    assert_eq!((m.cpu.sregs[CS], m.cpu.ip), (0, 0x7C00));
    assert_eq!(m.cpu.eflags() & 0xFFFF, before & 0xFFFF);
    assert_eq!(m.cpu.reg16(SP), 0x7000);
}

#[test]
fn string_moves_and_their_repetition() {
    // rep movsb
    let mut m = code16(&[0xF3, 0xA4]);
    m.store(0x500, b"hello");
    m.cpu.set_reg32(SI, 0x500);
    m.cpu.set_reg32(DI, 0x600);
    m.cpu.set_reg32(CX, 5);
    step(&mut m);
    assert_eq!(&m.mem[0x600..0x605], b"hello");
    assert_eq!((m.cpu.reg16(CX), m.cpu.reg16(SI), m.cpu.reg16(DI)), (0, 0x505, 0x605));
    // std; stosw
    let mut m = code16(&[0xFD, 0xAB]);
    m.cpu.set_reg32(AX, 0xBEEF);
    m.cpu.set_reg32(DI, 0x600);
    steps(&mut m, 2);
    assert!(m.cpu.flag(DF));
    assert_eq!(m.read16(0x600), 0xBEEF);
    assert_eq!(m.cpu.reg16(DI), 0x5FE);
}

#[test]
fn a_scan_stops_at_the_byte() {
    // repne scasb
    let mut m = code16(&[0xF2, 0xAE]);
    m.store(0x600, b"abcdef");
    m.cpu.set_reg8(0, b'd');
    m.cpu.set_reg32(DI, 0x600);
    m.cpu.set_reg32(CX, 6);
    step(&mut m);
    assert!(m.cpu.flag(ZF));
    assert_eq!((m.cpu.reg16(DI), m.cpu.reg16(CX)), (0x604, 2));
}

#[test]
fn a_repetition_stops_at_a_page_fault() {
    // rep stosb in 32-bit code with one page mapped
    let mut m = flat(&[0xF3, 0xAA]);
    // directory at 0x1000, table at 0x2000: pages 0 to 15 present, 16 not
    m.store(0x1000, &[0x07, 0x20, 0x00, 0x00]);
    for i in 0..16u32 {
        let e = (i << 12) | 7;
        m.store(0x2000 + 4 * i, &e.to_le_bytes());
    }
    m.cpu.cr3 = 0x1000;
    m.cpu.cr0 = 0x8000_0001;
    m.cpu.set_reg32(DI, 0xFFFE);
    m.cpu.set_reg32(CX, 5);
    m.cpu.set_reg8(0, 0x5A);
    step(&mut m);
    assert_eq!(m.pending_fault, Some(Fault { vector: 14, addr: 0x1_0000, code: 2 }));
    assert_eq!(m.read_phys8(0xFFFE), 0x5A);
    assert_eq!(m.read_phys8(0xFFFF), 0x5A);
    assert_eq!(m.read_phys8(0x1_0000), 0);
    // the registers are at the element that faulted
    assert_eq!((m.cpu.reg32(DI), m.cpu.reg32(CX)), (0x1_0000, 3));
}

#[test]
fn paging_checks_rights() {
    let mut m = flat(&[]);
    m.store(0x1000, &[0x05, 0x20, 0x00, 0x00]);
    m.store(0x2000, &[0x05, 0x90, 0x00, 0x00]);
    m.cpu.cr3 = 0x1000;
    m.cpu.cr0 = 0x8000_0001;
    // a supervisor may write a page that is read only, unless CR0 says otherwise
    assert_eq!(m.translate_for(0x123, true), Ok(0x9123));
    m.cpu.cr0 = 0x8001_0001;
    assert_eq!(m.translate_for(0x123, true), Err(Fault { vector: 14, addr: 0x123, code: 3 }));
    m.cpu.sregs[CS] = 0x13;
    assert_eq!(m.translate_for(0x123, false), Ok(0x9123));
    assert_eq!(m.translate_for(0x123, true), Err(Fault { vector: 14, addr: 0x123, code: 7 }));
    assert_eq!(m.translate_for(0x1123, false), Err(Fault { vector: 14, addr: 0x1123, code: 4 }));
}

#[test]
fn a_page_fault_pushes_its_code() {
    let mut m = flat(&[]);
    // a 32-bit interrupt descriptor for vector 14 at 8E:0x9000 of selector 0x10
    m.cpu.gdtr_base = 0x800;
    m.cpu.gdtr_limit = 31;
    m.store(0x810, &[0xFF, 0xFF, 0, 0, 0, 0x9A, 0xCF, 0]);
    m.store(0x818, &[0xFF, 0xFF, 0, 0, 0, 0x92, 0xCF, 0]);
    m.cpu.idtr_base = 0xA00;
    m.cpu.idtr_limit = 0x7FF;
    m.store(0xA70, &[0x00, 0x90, 0x10, 0x00, 0x00, 0x8E, 0x00, 0x00]);
    page_fault(&mut m, 2);
    assert_eq!(m.cpu.ip, 0x9000);
    assert_eq!(m.cpu.sregs[CS], 0x10);
    let sp = m.cpu.reg32(SP);
    assert_eq!(sp, 0x7000 - 16);
    assert_eq!(m.read_phys32(sp), 2);
    assert_eq!(m.read_phys32(sp + 4), 0x8000);
}

#[test]
fn the_lock_prefix_is_refused_where_it_makes_no_sense() {
    // lock mov ax, 0: interrupt 6, at the prefix
    let mut m = code16(&[0xF0, 0xB8, 0x00, 0x00]);
    m.store(24, &[0x00, 0x90, 0x00, 0x00]);
    step(&mut m);
    assert_eq!(m.cpu.ip, 0x9000);
    assert_eq!(m.read16(0x6FFA), 0x7C00);
    // lock add [bx], al is allowed
    let mut m = code16(&[0xF0, 0x00, 0x07]);
    m.cpu.set_reg32(BX, 0x600);
    m.cpu.set_reg8(0, 3);
    step(&mut m);
    assert_eq!(m.read_phys8(0x600), 3);
}

#[test]
fn decimal_adjustment() {
    // mov al, 15h; add al, 27h; daa
    let mut m = code16(&[0xB0, 0x15, 0x04, 0x27, 0x27]);
    steps(&mut m, 3);
    assert_eq!(m.cpu.reg8(0), 0x42);
    // mov al, 53; aam; aad
    let mut m = code16(&[0xB0, 53, 0xD4, 10, 0xD5, 10]);
    steps(&mut m, 2);
    assert_eq!(m.cpu.reg16(AX), 0x0503);
    step(&mut m);
    assert_eq!(m.cpu.reg16(AX), 53);
    // mov al, 0Fh; aaa
    let mut m = code16(&[0xB0, 0x0F, 0x37]);
    steps(&mut m, 2);
    assert_eq!(m.cpu.reg16(AX), 0x0105);
    assert!(m.cpu.flag(CF));
}

#[test]
fn sign_extensions() {
    // cbw; cwd
    let mut m = code16(&[0x98, 0x99]);
    m.cpu.set_reg8(0, 0x80);
    steps(&mut m, 2);
    assert_eq!(m.cpu.reg16(AX), 0xFF80);
    assert_eq!(m.cpu.reg16(DX), 0xFFFF);
    // movsx eax, bl; movzx ecx, bx
    let mut m = flat(&[0x0F, 0xBE, 0xC3, 0x0F, 0xB7, 0xCB]);
    m.cpu.set_reg32(BX, 0x1234_56F0);
    steps(&mut m, 2);
    assert_eq!(m.cpu.reg32(AX), 0xFFFF_FFF0);
    assert_eq!(m.cpu.reg32(CX), 0x56F0);
}

#[test]
fn ports_leave_events() {
    // in al, 60h; out 20h, al; out dx, ax
    let mut m = code16(&[0xE4, 0x60, 0xE6, 0x20, 0xEF]);
    m.port_latch[0x60] = 0x1C;
    m.cpu.set_reg32(DX, 0x3F8);
    steps(&mut m, 3);
    assert_eq!(m.cpu.reg8(0), 0x1C);
    assert_eq!(
        m.port_events,
        vec![
            PortEvent::Read { port: 0x60, bytes: 1 },
            PortEvent::Write { port: 0x20, bytes: 1, value: 0x1C },
            PortEvent::Write { port: 0x3F8, bytes: 2, value: 0x001C },
        ]
    );
}

#[test]
fn stack_frames() {
    // enter 8, 0; leave
    let mut m = flat(&[0xC8, 0x08, 0x00, 0x00, 0xC9]);
    m.cpu.set_reg32(BP, 0x1111);
    step(&mut m);
    assert_eq!(m.cpu.reg32(BP), 0x6FFC);
    assert_eq!(m.cpu.reg32(SP), 0x6FF4);
    step(&mut m);
    assert_eq!((m.cpu.reg32(BP), m.cpu.reg32(SP)), (0x1111, 0x7000));
}

#[test]
fn pusha_and_popa() {
    let mut m = code16(&[0x60, 0x61]);
    for i in 0..8usize {
        if i != SP {
            m.cpu.set_reg16(i, 0x100 + i as u16);
        }
    }
    step(&mut m);
    assert_eq!(m.cpu.reg16(SP), 0x6FF0);
    for i in 0..8usize {
        if i != SP {
            m.cpu.set_reg16(i, 0);
        }
    }
    step(&mut m);
    for i in 0..8usize {
        assert_eq!(m.cpu.reg16(i), if i == SP { 0x7000 } else { 0x100 + i as u16 });
    }
}

#[test]
fn flags_on_the_stack() {
    // stc; pushf; clc; popf
    let mut m = code16(&[0xF9, 0x9C, 0xF8, 0x9D]);
    steps(&mut m, 4);
    assert!(m.cpu.flag(CF));
    // lahf with the carry; sahf
    let mut m = code16(&[0xF9, 0x9F, 0xF8, 0x9E]);
    steps(&mut m, 2);
    assert_eq!(m.cpu.reg8(4), 0x03);
    steps(&mut m, 2);
    assert!(m.cpu.flag(CF));
}

#[test]
fn far_jumps_and_calls_in_real_mode() {
    // jmp 1000h:0020h
    let mut m = code16(&[0xEA, 0x20, 0x00, 0x00, 0x10]);
    step(&mut m);
    assert_eq!((m.cpu.sregs[CS], m.cpu.ip), (0x1000, 0x20));
    // call 1000h:0020h, and retf there
    let mut m = code16(&[0x9A, 0x20, 0x00, 0x00, 0x10]);
    m.store(0x1_0020, &[0xCB]);
    steps(&mut m, 2);
    assert_eq!((m.cpu.sregs[CS], m.cpu.ip), (0, 0x7C05));
    assert_eq!(m.cpu.reg16(SP), 0x7000);
}

#[test]
fn segment_registers_from_a_descriptor() {
    // mov ds, ax in protected mode
    let mut m = flat(&[0x8E, 0xD8]);
    m.cpu.gdtr_base = 0x800;
    m.cpu.gdtr_limit = 31;
    m.store(0x818, &[0xFF, 0x0F, 0x00, 0x00, 0x01, 0x92, 0x40, 0x00]);
    m.cpu.set_reg32(AX, 0x18);
    step(&mut m);
    assert_eq!(m.cpu.sregs[DS], 0x18);
    assert_eq!(m.cpu.hidden[DS].base, 0x1_0000);
    assert_eq!(m.cpu.hidden[DS].limit, 0xFFF);
    assert!(m.cpu.hidden[DS].big);
    assert!(m.cpu.hidden[SS].flat_rw());
}

#[test]
fn bits_and_exchanges() {
    // bts eax, 5; btr eax, 0; xchg eax, ebx; bswap ecx
    let mut m = flat(&[
        0x0F, 0xBA, 0xE8, 0x05, 0x0F, 0xBA, 0xF0, 0x00, 0x93, 0x0F, 0xC9,
    ]);
    m.cpu.set_reg32(AX, 1);
    m.cpu.set_reg32(BX, 0x55);
    m.cpu.set_reg32(CX, 0x1234_5678);
    step(&mut m);
    assert_eq!(m.cpu.reg32(AX), 0x21);
    assert!(!m.cpu.flag(CF));
    step(&mut m);
    assert_eq!(m.cpu.reg32(AX), 0x20);
    assert!(m.cpu.flag(CF));
    steps(&mut m, 2);
    assert_eq!((m.cpu.reg32(AX), m.cpu.reg32(BX)), (0x55, 0x20));
    assert_eq!(m.cpu.reg32(CX), 0x7856_3412);
}

#[test]
fn compare_and_exchange() {
    // cmpxchg [ebx], ecx
    let mut m = flat(&[0x0F, 0xB1, 0x0B, 0x0F, 0xB1, 0x0B]);
    m.cpu.set_reg32(BX, 0x600);
    m.cpu.set_reg32(CX, 9);
    m.store(0x600, &[5, 0, 0, 0]);
    m.cpu.set_reg32(AX, 5);
    step(&mut m);
    assert!(m.cpu.flag(ZF));
    assert_eq!(m.read_phys32(0x600), 9);
    m.cpu.set_reg32(AX, 5);
    step(&mut m);
    assert!(!m.cpu.flag(ZF));
    assert_eq!(m.cpu.reg32(AX), 9);
}

#[test]
fn control_registers() {
    // mov cr3, eax; mov ebx, cr3
    let mut m = flat(&[0x0F, 0x22, 0xD8, 0x0F, 0x20, 0xDB]);
    m.cpu.set_reg32(AX, 0x5000);
    steps(&mut m, 2);
    assert_eq!(m.cpu.cr3, 0x5000);
    assert_eq!(m.cpu.reg32(BX), 0x5000);
}

#[test]
fn an_unknown_opcode_stops_the_machine() {
    let mut m = code16(&[0xD6]);
    m.trap_ip = 0x7C00;
    step(&mut m);
    let t = m.trap.unwrap();
    assert_eq!(t.reason, TrapReason::Opcode { op: 0xD6 });
    assert_eq!((t.cs, t.ip), (0, 0x7C00));
}

#[test]
fn cpuid_needs_a_processor_that_has_it() {
    let mut m = code16(&[0x0F, 0xA2]);
    m.profile.has_cpuid = false;
    step(&mut m);
    assert_eq!(m.trap.unwrap().reason, TrapReason::NoCpuid);
}

#[test]
fn memory_that_is_not_there() {
    let mut m = machine();
    assert_eq!(m.read_phys8(0xFFFF_0000), 0xFF);
    m.write_phys8(0xFFFF_0000, 1);
    assert_eq!(m.read_phys8(0xFFFF_0000), 0xFF);
    m.write32(0x500, 0x1122_3344);
    assert_eq!(m.read32(0x500), 0x1122_3344);
    assert_eq!(m.read16(0x501), 0x2233);
    assert_eq!(m.read8(0x503), 0x11);
}

#[test]
fn an_instruction_is_taken_back() {
    let mut m = flat(&[0x50]);
    m.guard_save();
    step(&mut m);
    assert_eq!(m.cpu.reg32(SP), 0x6FFC);
    m.guard_restore();
    assert_eq!((m.cpu.reg32(SP), m.cpu.ip), (0x7000, 0x8000));
    m.guard_save_slim();
    step(&mut m);
    m.guard_restore();
    assert_eq!((m.cpu.reg32(SP), m.cpu.ip), (0x7000, 0x8000));
}

#[test]
fn a_bit_number_is_signed() {
    // bts [ebx], ax: bit -1 is the highest of the byte before
    let mut m = flat(&[0x66, 0x0F, 0xAB, 0x03]);
    m.cpu.set_reg32(BX, 0x601);
    m.cpu.set_reg32(AX, 0x0000_FFFF);
    step(&mut m);
    assert_eq!(m.read_phys8(0x600), 0x80);
    assert_eq!(m.read_phys8(0x601), 0);
    assert!(!m.cpu.flag(CF));
    // the same in 16-bit code, of bit -9, then btr finds it
    let mut m = code16(&[0x0F, 0xAB, 0x07, 0x0F, 0xB3, 0x07]);
    m.cpu.set_reg32(BX, 0x602);
    m.cpu.set_reg32(AX, 0xFFF7);
    step(&mut m);
    assert_eq!((m.read_phys8(0x600), m.cpu.flag(CF)), (0x80, false));
    step(&mut m);
    assert_eq!((m.read_phys8(0x600), m.cpu.flag(CF)), (0, true));
    // bts [ebx], eax: with 32 bits the same number is 65535
    let mut m = flat(&[0x0F, 0xAB, 0x03]);
    m.cpu.set_reg32(BX, 0x601);
    m.cpu.set_reg32(AX, 0x0000_FFFF);
    step(&mut m);
    assert_eq!(m.read_phys8(0x601 + 0x1FFF), 0x80);
}

#[test]
fn a_bit_of_a_register() {
    // bt eax, ecx; btc eax, ecx
    let mut m = flat(&[0x0F, 0xA3, 0xC8, 0x0F, 0xBB, 0xC8]);
    m.cpu.set_reg32(AX, 0x08);
    m.cpu.set_reg32(CX, 35);
    step(&mut m);
    assert!(m.cpu.flag(CF));
    step(&mut m);
    assert_eq!(m.cpu.reg32(AX), 0);
}

#[test]
fn words_on_a_stack_that_wraps() {
    // push ax; pop bx
    let mut m = code16(&[0x50, 0x5B]);
    m.cpu.set_reg32(SP, 0);
    m.cpu.set_reg32(AX, 0xBEEF);
    step(&mut m);
    assert_eq!(m.cpu.reg16(SP), 0xFFFE);
    assert_eq!(m.read_phys8(0xFFFE), 0xEF);
    step(&mut m);
    assert_eq!((m.cpu.reg16(BX), m.cpu.reg16(SP)), (0xBEEF, 0));
}

#[test]
fn an_interrupt_on_a_stack_that_wraps_returns() {
    for sp in [0u32, 1, 2, 3, 4, 5] {
        let mut m = code16(&[]);
        m.store(0x100, &[0x34, 0x12, 0x00, 0x20]);
        m.cpu.set_reg32(SP, sp);
        m.cpu.set_flag(IF, true);
        let before = m.cpu.eflags();
        interrupt(&mut m, 0x40);
        assert_eq!((m.cpu.sregs[CS], m.cpu.ip), (0x2000, 0x1234));
        assert_eq!(m.cpu.reg16(SP), (sp as u16).wrapping_sub(6));
        iret(&mut m);
        assert_eq!((m.cpu.sregs[CS], m.cpu.ip), (0, 0x7C00));
        assert_eq!(m.cpu.reg16(SP), sp as u16);
        assert_eq!(m.cpu.eflags() & 0xFFFF, before & 0xFFFF);
    }
}

#[test]
fn a_new_machine() {
    let m = machine();
    assert_eq!((m.pending_fault, m.trap_ip, m.ticks), (None, 0, 0));
    assert_eq!((m.tick_countdown, m.tick_period), (1000, 1000));
    assert_eq!((m.pending_irq, m.pic_service, m.halted), (None, false, false));
    assert!(m.trap.is_none() && m.log.prefixed_seen.iter().all(|b| !b));
    assert!(m.mem.iter().all(|b| *b == 0));
}

const GP: Option<Fault> = Some(Fault { vector: 13, addr: 0, code: 0 });
const STACK: Option<Fault> = Some(Fault { vector: 12, addr: 0, code: 0 });

/// One instruction with a data segment of the given kind, by the interpreter and
/// through the cache, which leave the same behind.
fn through(code: &[u8], seg: usize, limit: u32, access: u8, ebx: u32) -> Machine {
    let prepared = || {
        let mut m = flat(code);
        m.cpu.hidden[seg] = SegHidden { base: 0, limit, access, big: true };
        m.cpu.set_reg32(BX, ebx);
        m.cpu.set_reg32(BP, ebx);
        m.cpu.set_reg32(AX, 0x1234_5678);
        m
    };
    let mut a = prepared();
    let mut b = prepared();
    step(&mut a);
    step_cached(&mut b, 0);
    assert_eq!(a.pending_fault, b.pending_fault);
    assert_eq!((a.cpu.regs, a.cpu.ip), (b.cpu.regs, b.cpu.ip));
    assert!(a.mem == b.mem);
    a
}

#[test]
fn a_segment_ends_at_its_limit() {
    let read = [0x8B, 0x03];
    assert_eq!(through(&read, DS, 0xFFF, 0x93, 0xFFC).pending_fault, None);
    assert_eq!(through(&read, DS, 0xFFF, 0x93, 0xFFD).pending_fault, GP);
    let byte = [0x8A, 0x03];
    assert_eq!(through(&byte, DS, 0xFFF, 0x93, 0xFFF).pending_fault, None);
    assert_eq!(through(&byte, DS, 0xFFF, 0x93, 0x1000).pending_fault, GP);
    let stack = [0x8B, 0x45, 0x00];
    assert_eq!(through(&stack, SS, 0xFFF, 0x93, 0xFFD).pending_fault, STACK);
    // mov eax, [0FFDh]; mov [0FFDh], al
    let offset = [0xA1, 0xFD, 0x0F, 0x00, 0x00];
    assert_eq!(through(&offset, DS, 0xFFF, 0x93, 0).pending_fault, GP);
    let offset = [0xA2, 0xFD, 0x0F, 0x00, 0x00];
    assert_eq!(through(&offset, DS, 0xFFF, 0x93, 0).pending_fault, None);
}

#[test]
fn a_segment_that_expands_downwards() {
    let read = [0x8B, 0x03];
    assert_eq!(through(&read, DS, 0xFFF, 0x97, 0x1000).pending_fault, None);
    assert_eq!(through(&read, DS, 0xFFF, 0x97, 0xFFF).pending_fault, GP);
}

#[test]
fn a_write_needs_a_writable_segment() {
    // mov [ebx], eax
    let write = [0x89, 0x03];
    let m = through(&write, DS, 0xFFFF_FFFF, 0x91, 0x600);
    assert_eq!(m.pending_fault, GP);
    assert_eq!(m.read_phys32(0x600), 0);
    assert_eq!(through(&[0x8B, 0x03], DS, 0xFFFF_FFFF, 0x91, 0x600).pending_fault, None);
    assert_eq!(through(&write, DS, 0xFFFF_FFFF, 0x9B, 0x600).pending_fault, GP);
    let m = through(&write, DS, 0xFFFF_FFFF, 0x93, 0x600);
    assert_eq!((m.pending_fault, m.read_phys32(0x600)), (None, 0x1234_5678));
}

#[test]
fn a_null_segment_allows_nothing() {
    assert_eq!(through(&[0x8B, 0x03], DS, 0, 0, 0).pending_fault, GP);
    assert_eq!(through(&[0x88, 0x03], DS, 0, 0, 0).pending_fault, GP);
}

#[test]
fn both_bounds_are_one_access() {
    // bound eax, [ebx]
    let code = [0x62, 0x03];
    assert_eq!(through(&code, DS, 0xFFF, 0x93, 0xFFC).pending_fault, GP);
    let mut m = flat(&code);
    m.cpu.hidden[DS] = SegHidden { base: 0, limit: 0xFFF, access: 0x93, big: true };
    m.store(0xFF8, &[1, 0, 0, 0, 9, 0, 0, 0]);
    m.cpu.set_reg32(BX, 0xFF8);
    m.cpu.set_reg32(AX, 9);
    step(&mut m);
    assert_eq!((m.pending_fault, m.cpu.ip), (None, 0x8002));
}

/// Pages one to one but for page 3, which is page 5 in memory, and page 4, which is
/// page 9; the directory is at 10000 and the table at 11000.
fn paged(m: &mut Machine) {
    m.store(0x1_0000, &[0x07, 0x10, 0x01, 0x00]);
    for i in 0..64u32 {
        let page = match i {
            3 => 5,
            4 => 9,
            _ => i,
        };
        let e = (page << 12) | 7;
        m.store(0x1_1000 + 4 * i, &e.to_le_bytes());
    }
    m.cpu.cr3 = 0x1_0000;
    m.cpu.cr0 = 0x8000_0001;
}

#[test]
fn a_doubleword_over_two_pages_comes_back() {
    // push eax; pop ebx
    let mut m = flat(&[0x50, 0x5B]);
    paged(&mut m);
    m.cpu.set_reg32(SP, 0x4002);
    m.cpu.set_reg32(AX, 0xCAFE_F00D);
    step(&mut m);
    assert_eq!(m.mem[0x5FFE..0x6000], [0x0D, 0xF0]);
    assert_eq!(m.mem[0x9000..0x9002], [0xFE, 0xCA]);
    step(&mut m);
    assert_eq!((m.cpu.reg32(BX), m.cpu.reg32(SP)), (0xCAFE_F00D, 0x4002));
    // push ax; pop bx
    let mut m = flat(&[0x66, 0x50, 0x66, 0x5B]);
    paged(&mut m);
    m.cpu.set_reg32(SP, 0x4001);
    m.cpu.set_reg32(AX, 0xBEEF);
    step(&mut m);
    assert_eq!((m.mem[0x5FFF], m.mem[0x9000]), (0xEF, 0xBE));
    step(&mut m);
    assert_eq!((m.cpu.reg16(BX), m.cpu.reg32(SP)), (0xBEEF, 0x4001));
}

#[test]
fn a_bit_of_a_page() {
    // bts [ebx], eax
    let mut m = flat(&[0x0F, 0xAB, 0x03]);
    paged(&mut m);
    m.cpu.set_reg32(BX, 0x4000);
    m.cpu.set_reg32(AX, 0xFFFF_FFFF);
    step(&mut m);
    assert_eq!((m.mem[0x5FFF], m.cpu.flag(CF)), (0x80, false));
}

#[test]
fn bytes_and_words_of_a_page_come_back() {
    let mut m = flat(&[]);
    paged(&mut m);
    m.write16(0x3FFF, 0x1234);
    assert_eq!((m.mem[0x5FFF], m.mem[0x9000]), (0x34, 0x12));
    assert_eq!(m.read16(0x3FFF), 0x1234);
    m.write8(0x3FFE, 0x77);
    assert_eq!((m.read8(0x3FFE), m.read16(0x3FFF)), (0x77, 0x1234));
}
