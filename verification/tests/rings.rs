use rustx86_core::cpu::segment::hidden_of;
use rustx86_core::cpu::state::{BX, CF, CS, DS, ES, FS, GS, IF, SP, SS};
use rustx86_core::cpu::{interrupt, iret, step};
use rustx86_core::machine::{Machine, MachineProfile};

/// Descriptors of flat code and data for ring 0 (8 and 10) and ring 3 (18 and 20) at
/// 800, an interrupt gate for vector 30 to 8:9000, and a stack for ring 0 at 6000.
fn protected(ring: u16) -> Machine {
    let mut m = Machine::new(0x11_0000, MachineProfile { has_fpu: true, has_cpuid: true }, 1000);
    let table: [u64; 5] = [
        0,
        0x00CF_9A00_0000_FFFF,
        0x00CF_9200_0000_FFFF,
        0x00CF_FA00_0000_FFFF,
        0x00CF_F200_0000_FFFF,
    ];
    for (i, d) in table.iter().enumerate() {
        m.store(0x800 + 8 * i as u32, &d.to_le_bytes());
    }
    m.store(0xA00 + 8 * 0x30, &[0x00, 0x90, 0x08, 0x00, 0x00, 0x8E, 0x00, 0x00]);
    m.store(0xD04, &[0x00, 0x60, 0x00, 0x00, 0x10, 0x00]);
    m.cpu.cr0 = 1;
    m.cpu.gdtr_base = 0x800;
    m.cpu.gdtr_limit = 39;
    m.cpu.idtr_base = 0xA00;
    m.cpu.idtr_limit = 0x1FF;
    m.cpu.tr_base = 0xD00;
    m.cpu.tr_limit = 0x67;
    let (code, data) = if ring == 0 { (1, 2) } else { (3, 4) };
    let hidden = |k: usize| hidden_of(table[k] as u32, (table[k] >> 32) as u32);
    m.cpu.sregs[CS] = 8 * code as u16 + ring;
    m.cpu.hidden[CS] = hidden(code);
    for i in [SS, DS, ES, FS, GS] {
        m.cpu.sregs[i] = 8 * data as u16 + ring;
        m.cpu.hidden[i] = hidden(data);
    }
    m.cpu.ip = 0x1234_5678;
    m.cpu.set_reg32(SP, 0x7000);
    m.cpu.set_reg32(BX, 0xABCD);
    m.cpu.set_flag(IF, true);
    m.cpu.set_flag(CF, true);
    m
}

#[test]
fn an_interrupt_in_the_same_ring_returns() {
    let mut m = protected(0);
    let flags = m.cpu.eflags();
    interrupt(&mut m, 0x30);
    assert_eq!((m.cpu.sregs[CS], m.cpu.ip, m.cpu.reg32(SP)), (0x08, 0x9000, 0x6FF4));
    assert_eq!(m.read32(0x6FF4), 0x1234_5678);
    assert_eq!(m.read32(0x6FF8), 0x08);
    assert_eq!(m.read32(0x6FFC), flags);
    assert!(!m.cpu.flag(IF));
    iret(&mut m);
    assert_eq!((m.cpu.sregs[CS], m.cpu.ip, m.cpu.reg32(SP)), (0x08, 0x1234_5678, 0x7000));
    assert_eq!(m.cpu.eflags(), flags);
}

#[test]
fn an_interrupt_from_user_code_changes_the_stack_and_returns() {
    let mut m = protected(3);
    let flags = m.cpu.eflags();
    assert_eq!(m.cpu.cpl(), 3);
    interrupt(&mut m, 0x30);
    assert_eq!(m.cpu.cpl(), 0);
    assert_eq!((m.cpu.sregs[CS], m.cpu.ip), (0x08, 0x9000));
    assert_eq!((m.cpu.sregs[SS], m.cpu.reg32(SP)), (0x10, 0x6000 - 20));
    assert_eq!(m.read32(0x6000 - 8), 0x7000);
    assert_eq!(m.read32(0x6000 - 4), 0x23);
    iret(&mut m);
    assert_eq!(m.cpu.cpl(), 3);
    assert_eq!((m.cpu.sregs[CS], m.cpu.ip), (0x1B, 0x1234_5678));
    assert_eq!((m.cpu.sregs[SS], m.cpu.reg32(SP)), (0x23, 0x7000));
    assert_eq!(m.cpu.reg32(BX), 0xABCD);
    assert_eq!(m.cpu.eflags(), flags);
}

#[test]
fn a_far_call_returns() {
    let mut m = protected(0);
    // call far 8:9100 at 9000, retf at 9100
    m.store(0x9000, &[0x9A, 0x00, 0x91, 0x00, 0x00, 0x08, 0x00]);
    m.store(0x9100, &[0xCB]);
    m.cpu.ip = 0x9000;
    step(&mut m);
    assert_eq!((m.cpu.sregs[CS], m.cpu.ip, m.cpu.reg32(SP)), (0x08, 0x9100, 0x6FF8));
    assert_eq!(m.read32(0x6FF8), 0x9007);
    step(&mut m);
    assert_eq!((m.cpu.sregs[CS], m.cpu.ip, m.cpu.reg32(SP)), (0x08, 0x9007, 0x7000));
}

#[test]
fn a_refused_far_call_pushes_nothing() {
    let mut m = protected(0);
    // general protection faults go to 8:9000
    m.store(0xA00 + 8 * 13, &[0x00, 0x90, 0x08, 0x00, 0x00, 0x8E, 0x00, 0x00]);
    // call far 18:9100: code of ring 3 cannot be called from ring 0
    m.store(0x8000, &[0x9A, 0x00, 0x91, 0x00, 0x00, 0x18, 0x00]);
    m.cpu.ip = 0x8000;
    m.trap_ip = 0x8000;
    step(&mut m);
    // only the frame of the fault: error code, IP of the call, CS and flags
    assert_eq!((m.cpu.sregs[CS], m.cpu.ip, m.cpu.reg32(SP)), (0x08, 0x9000, 0x7000 - 16));
    assert_eq!(m.read32(0x6FF0), 0x18);
    assert_eq!(m.read32(0x6FF4), 0x8000);
}
