use rustx86_core::cpu::state::{AX, CS, CX, DF, DI, SI, SP};
use rustx86_core::cpu::{step, SegHidden};
use rustx86_core::machine::{Fault, Machine, MachineProfile};

/// 32-bit code at 8000 in flat segments.
fn flat(code: &[u8]) -> Machine {
    let mut m = Machine::new(0x11_0000, MachineProfile { has_fpu: true, has_cpuid: true }, 1000);
    m.store(0x8000, code);
    m.cpu.cr0 = 1;
    for i in 0..6usize {
        m.cpu.hidden[i] = SegHidden { base: 0, limit: 0xFFFF_FFFF, access: 0x93, big: true };
        m.cpu.sregs[i] = 0x18;
    }
    m.cpu.sregs[CS] = 0x10;
    m.cpu.ip = 0x8000;
    m.cpu.set_reg32(SP, 0x7000);
    m
}

/// Pages one to one, with a directory at 1000 and a table at 2000, as far as the
/// number of pages says.
fn paged(m: &mut Machine, pages: u32) {
    m.store(0x1000, &[0x07, 0x20, 0x00, 0x00]);
    for i in 0..pages {
        let e = (i << 12) | 7;
        m.store(0x2000 + 4 * i, &e.to_le_bytes());
    }
    m.cpu.cr3 = 0x1000;
    m.cpu.cr0 = 0x8000_0001;
}

fn registers(m: &mut Machine, si: u32, di: u32, cx: u32) {
    m.cpu.set_reg32(SI, si);
    m.cpu.set_reg32(DI, di);
    m.cpu.set_reg32(CX, cx);
}

#[test]
fn a_fill_goes_over_pages() {
    // rep stosd
    let mut m = flat(&[0xF3, 0xAB]);
    registers(&mut m, 0, 0x1_0FF2, 3000);
    m.cpu.set_reg32(AX, 0x1234_5678);
    step(&mut m);
    assert_eq!((m.cpu.reg32(DI), m.cpu.reg32(CX)), (0x1_0FF2 + 12000, 0));
    for k in 0..3000usize {
        let at = 0x1_0FF2 + 4 * k;
        assert_eq!(m.mem[at..at + 4], [0x78, 0x56, 0x34, 0x12]);
    }
    assert_eq!(m.mem[0x1_0FF1], 0);
    assert_eq!(m.mem[0x1_0FF2 + 12000], 0);
}

#[test]
fn a_copy_goes_over_pages() {
    // rep movsb
    let mut m = flat(&[0xF3, 0xA4]);
    for k in 0..10000usize {
        m.mem[0x2_0123 + k] = (k * 7 + k / 256) as u8;
    }
    registers(&mut m, 0x2_0123, 0x4_0F00, 10000);
    step(&mut m);
    assert_eq!((m.cpu.reg32(SI), m.cpu.reg32(DI)), (0x2_0123 + 10000, 0x4_0F00 + 10000));
    assert_eq!(m.cpu.reg32(CX), 0);
    assert_eq!(m.mem[0x4_0F00..0x4_0F00 + 10000], m.mem[0x2_0123..0x2_0123 + 10000]);
    assert_eq!(m.mem[0x4_0EFF], 0);
    assert_eq!(m.mem[0x4_0F00 + 10000], 0);
}

#[test]
fn a_copy_onto_what_it_reads_repeats_a_pattern() {
    // rep movsb, two bytes up
    let mut m = flat(&[0xF3, 0xA4]);
    m.store(0x3000, &[1, 2, 3, 4, 5]);
    registers(&mut m, 0x3000, 0x3002, 6);
    step(&mut m);
    assert_eq!(m.mem[0x3000..0x3008], [1, 2, 1, 2, 1, 2, 1, 2]);
    // rep movsb, down
    let mut m = flat(&[0xF3, 0xA4]);
    m.store(0x3000, &[1, 2, 3, 4, 5, 6, 7, 8]);
    registers(&mut m, 0x3002, 0x3000, 6);
    step(&mut m);
    assert_eq!(m.mem[0x3000..0x3008], [3, 4, 5, 6, 7, 8, 7, 8]);
}

#[test]
fn the_direction_flag_turns_a_copy() {
    // rep movsw
    let mut m = flat(&[0x66, 0xF3, 0xA5]);
    m.store(0x3000, &[1, 2, 3, 4, 5, 6]);
    registers(&mut m, 0x3004, 0x4004, 3);
    m.cpu.set_flag(DF, true);
    step(&mut m);
    assert_eq!(m.mem[0x4000..0x4006], [1, 2, 3, 4, 5, 6]);
    assert_eq!((m.cpu.reg32(SI), m.cpu.reg32(DI)), (0x2FFE, 0x3FFE));
}

#[test]
fn a_faulting_copy_can_go_on() {
    // rep movsd: the destination ends at 10000
    let mut m = flat(&[0xF3, 0xA5]);
    paged(&mut m, 16);
    for k in 0..0x40usize {
        m.mem[0x5000 + k] = k as u8 + 1;
    }
    registers(&mut m, 0x5000, 0xFFF0, 10);
    step(&mut m);
    assert_eq!(m.pending_fault, Some(Fault { vector: 14, addr: 0x1_0000, code: 2 }));
    assert_eq!((m.cpu.reg32(SI), m.cpu.reg32(DI), m.cpu.reg32(CX)), (0x5010, 0x1_0000, 6));
    // the page comes, and the instruction goes on where it was
    m.store(0x2000 + 4 * 16, &[0x07, 0x00, 0x01, 0x00]);
    m.pending_fault = None;
    m.cpu.ip = 0x8000;
    step(&mut m);
    assert_eq!(m.pending_fault, None);
    assert_eq!(m.cpu.reg32(CX), 0);
    assert_eq!(m.mem[0xFFF0..0x1_0018], m.mem[0x5000..0x5028]);
}

#[test]
fn a_comparison_that_faults_is_not_counted() {
    // repe cmpsb: the second operand is not there
    let mut m = flat(&[0xF3, 0xA6]);
    paged(&mut m, 16);
    registers(&mut m, 0x5000, 0x1_0000, 4);
    let flags = m.cpu.eflags();
    step(&mut m);
    assert_eq!(m.pending_fault, Some(Fault { vector: 14, addr: 0x1_0000, code: 0 }));
    assert_eq!((m.cpu.reg32(SI), m.cpu.reg32(DI), m.cpu.reg32(CX)), (0x5000, 0x1_0000, 4));
    assert_eq!(m.cpu.eflags(), flags);
}

#[test]
fn a_fill_may_write_its_own_page_table() {
    // rep stosd over the table: the entry of page 3 comes to point at page 5
    let mut m = flat(&[0xF3, 0xAB]);
    paged(&mut m, 16);
    // page 9 is mapped to the table itself
    m.store(0x2000 + 4 * 9, &[0x07, 0x20, 0x00, 0x00]);
    registers(&mut m, 0, 0x900C, 1);
    m.cpu.set_reg32(AX, 0x5007);
    step(&mut m);
    assert_eq!(m.translate_for(0x3123, false), Ok(0x5123));
    // a fill that takes its own mapping away goes on at the new place
    let mut m = flat(&[0xF3, 0xAB]);
    paged(&mut m, 16);
    m.store(0x2000 + 4 * 9, &[0x07, 0x20, 0x00, 0x00]);
    registers(&mut m, 0, 0x9020, 3);
    m.cpu.set_reg32(AX, 0x5007);
    step(&mut m);
    // entry 8, entry 9, and from then on page 9 is at 5000
    assert_eq!(m.mem[0x2020..0x202C], [7, 0x50, 0, 0, 7, 0x50, 0, 0, 7, 0xA0, 0, 0]);
    assert_eq!(m.mem[0x5028..0x502C], [7, 0x50, 0, 0]);
}

#[test]
fn a_fill_over_cached_code_is_noticed() {
    // rep stosb
    let mut m = flat(&[0xF3, 0xAA]);
    m.dcache.page_has_code[3] = true;
    registers(&mut m, 0, 0x3000, 100);
    step(&mut m);
    assert!(!m.dcache.page_has_code[3]);
    assert_eq!(m.dcache.page_gen[3], 1);
}

#[test]
fn a_copy_upon_itself_spreads_the_first_byte() {
    for pages in [0u32, 32] {
        // rep movsb
        let mut m = flat(&[0xF3, 0xA4]);
        if pages > 0 {
            paged(&mut m, pages);
        }
        for k in 0..20usize {
            m.mem[0x5000 + k] = k as u8 + 7;
        }
        registers(&mut m, 0x5000, 0x5001, 10);
        step(&mut m);
        assert!(m.mem[0x5000..0x500B].iter().all(|b| *b == 7));
        assert_eq!(m.mem[0x500B], 18);
        assert_eq!((m.cpu.reg32(SI), m.cpu.reg32(DI), m.cpu.reg32(CX)), (0x500A, 0x500B, 0));
    }
}

#[test]
fn a_repetition_is_its_single_elements() {
    // rep movsd, and movsd six times
    let mut a = flat(&[0xF3, 0xA5]);
    let mut b = flat(&[0xA5, 0xA5, 0xA5, 0xA5, 0xA5, 0xA5]);
    for m in [&mut a, &mut b] {
        for k in 0..64usize {
            m.mem[0x5000 + k] = k as u8 + 1;
        }
        registers(m, 0x5000, 0x5006, 6);
    }
    step(&mut a);
    for _ in 0..6 {
        step(&mut b);
    }
    assert!(a.mem[0x4000..0x6000] == b.mem[0x4000..0x6000]);
    assert_eq!(a.cpu.reg32(SI), b.cpu.reg32(SI));
    assert_eq!(a.cpu.reg32(DI), b.cpu.reg32(DI));
    assert_eq!(a.cpu.reg32(CX), 0);
}
