use rustx86_core::cpu::sse::{halves, high_half, low_word};
use rustx86_core::cpu::state::{AX, BX, CS, DS, SP};
use rustx86_core::cpu::vector::{lane, signs, vector, LaneOp};
use rustx86_core::cpu::{step, SegHidden};
use rustx86_core::machine::{Machine, MachineProfile};

fn flat(code: &[u8]) -> Machine {
    let mut m = Machine::new(0x11_0000, MachineProfile { has_fpu: true, has_cpuid: true }, 1000);
    m.store(0x8000, code);
    m.cpu.cr0 = 1;
    for i in 0..6usize {
        m.cpu.hidden[i] = SegHidden { base: 0, limit: 0xFFFF_FFFF, access: 0x93, big: true };
        m.cpu.sregs[i] = 0x18;
    }
    m.cpu.sregs[CS] = 0x10;
    m.cpu.ip = 0x8000;
    m.cpu.set_reg32(SP, 0x7000);
    m
}

#[test]
fn lanes_are_counted_from_the_low_end() {
    let v = 0x0706_0504_0302_0100u128;
    assert_eq!(lane(v, 0, 8), 0);
    assert_eq!(lane(v, 3, 16), 0x0706);
    assert_eq!(lane(v, 1, 32), 0x0706_0504);
    assert_eq!(signs(0x80FF_0080, 8, 4), 0b1101);
}

#[test]
fn lane_arithmetic() {
    assert_eq!(vector(LaneOp::Add, 0x00FF, 0x0001, 8, 2), 0x0000);
    assert_eq!(vector(LaneOp::Add, 0x00FF, 0x0001, 16, 1), 0x0100);
    assert_eq!(vector(LaneOp::Sub, 0x0000, 0x0001, 8, 2), 0x00FF);
}

#[test]
fn halves_of_a_register() {
    let v = halves(1, 2);
    assert_eq!(v, (2u128 << 64) + 1);
    assert_eq!(high_half(v), 2);
    assert_eq!(low_word(0xFFFF_FFFF_1234_5678), 0x1234_5678);
}

#[test]
fn mmx_moves_and_sums() {
    // movq mm0, [ebx]; paddb mm0, [ebx+8]; movq [ebx+16], mm0; emms
    let mut m = flat(&[
        0x0F, 0x6F, 0x03, 0x0F, 0xFC, 0x43, 0x08, 0x0F, 0x7F, 0x43, 0x10, 0x0F, 0x77,
    ]);
    m.cpu.set_reg32(BX, 0x600);
    m.store(0x600, &[1, 2, 3, 4, 0xFF, 6, 7, 8]);
    m.store(0x608, &[1, 1, 1, 1, 1, 1, 1, 1]);
    for _ in 0..4 {
        step(&mut m);
    }
    assert_eq!(&m.mem[0x610..0x618], &[2, 3, 4, 5, 0, 7, 8, 9]);
    assert!(m.cpu.fpu.st_empty(0));
}

#[test]
fn sse_moves_and_logic() {
    // movups xmm0, [ebx]; pxor xmm0, xmm0; movd xmm1, eax; movq
    let mut m = flat(&[0x0F, 0x10, 0x03, 0x66, 0x0F, 0xEF, 0xC0, 0x66, 0x0F, 0x6E, 0xC8]);
    m.cpu.set_reg32(BX, 0x600);
    m.cpu.set_reg32(AX, 0xDEAD_BEEF);
    m.store(0x600, &[0x11; 16]);
    step(&mut m);
    assert_eq!(m.cpu.xmm[0], 0x1111_1111_1111_1111_1111_1111_1111_1111);
    step(&mut m);
    assert_eq!(m.cpu.xmm[0], 0);
    step(&mut m);
    assert_eq!(m.cpu.xmm[1], 0xDEAD_BEEF);
}

#[test]
fn the_state_is_saved_and_restored() {
    // fxsave [ebx]; fxrstor [ebx]
    let mut m = flat(&[0x0F, 0xAE, 0x03, 0x0F, 0xAE, 0x0B]);
    m.cpu.set_reg32(BX, 0x600);
    m.cpu.xmm[5] = 0x1234_5678_9ABC_DEF0;
    m.cpu.mxcsr = 0x1FA0;
    m.cpu.fpu_cw = 0x027F;
    step(&mut m);
    m.cpu.xmm[5] = 0;
    m.cpu.mxcsr = 0;
    m.cpu.fpu_cw = 0;
    step(&mut m);
    assert_eq!(m.cpu.xmm[5], 0x1234_5678_9ABC_DEF0);
    assert_eq!((m.cpu.mxcsr, m.cpu.fpu_cw), (0x1FA0, 0x027F));
}

#[test]
fn a_shift_counts_with_all_of_its_operand() {
    // movq mm0, [ebx]; movq mm1, [ebx+8]; psraw or psrad mm0, mm1; movq [ebx+16], mm0
    for (op, expected) in [(0xE1u8, 0xFFFF_0000_FFFF_FFFFu64), (0xE2, 0xFFFF_FFFF_FFFF_FFFF)] {
        let mut m = flat(&[
            0x0F, 0x6F, 0x03, 0x0F, 0x6F, 0x4B, 0x08, 0x0F, op, 0xC1, 0x0F, 0x7F, 0x43, 0x10,
        ]);
        m.cpu.set_reg32(BX, 0x600);
        m.store(0x600, &0x8000_7FFF_8001_8000u64.to_le_bytes());
        m.store(0x608, &0x1_0000_0000u64.to_le_bytes());
        for _ in 0..4 {
            step(&mut m);
        }
        assert_eq!(&m.mem[0x610..0x618], &expected.to_le_bytes());
    }
    // a count within the lane still shifts
    assert_eq!(vector(LaneOp::ShiftRightSigned, 0x8000, 4, 16, 1), 0xF800);
    assert_eq!(vector(LaneOp::ShiftRightSigned, 0x8000, 0x1_0000_0000, 16, 1), 0xFFFF);
    assert_eq!(vector(LaneOp::ShiftRightSigned, 0x4000, 0x1_0000_0000, 16, 1), 0);
}

#[test]
fn the_stack_registers_are_saved_and_restored() {
    // fld1; fldpi; fxsave [ebx]; fninit; fxrstor [ebx]
    let mut m = flat(&[0xD9, 0xE8, 0xD9, 0xEB, 0x0F, 0xAE, 0x03, 0xDB, 0xE3, 0x0F, 0xAE, 0x0B]);
    m.cpu.set_reg32(BX, 0x600);
    for _ in 0..4 {
        step(&mut m);
    }
    assert_eq!(&m.mem[0x620..0x62A], &[0, 0xC0, 0x68, 0x21, 0xA2, 0xDA, 0x0F, 0xC9, 0x00, 0x40]);
    assert_eq!(&m.mem[0x630..0x63A], &[0, 0, 0, 0, 0, 0, 0, 0x80, 0xFF, 0x3F]);
    assert!(m.cpu.fpu.st_empty(0));
    step(&mut m);
    assert_eq!(m.cpu.fpu.st(0), std::f64::consts::PI.to_bits());
    assert_eq!(m.cpu.fpu.st(1), 1.0f64.to_bits());
    assert!(m.cpu.fpu.st_empty(2));
}

#[test]
fn vector_moves_go_by_the_address_alone() {
    // movd mm0, [ebx]; movd [ebx+4], mm0; pinsrw mm0, [ebx], 1; movd xmm0, [ebx];
    // movd [ebx+8], xmm0; cvtsi2sd xmm1, [ebx]
    let mut m = flat(&[
        0x0F, 0x6E, 0x03, 0x0F, 0x7E, 0x43, 0x04, 0x0F, 0xC4, 0x03, 0x01, 0x66, 0x0F, 0x6E, 0x03,
        0x66, 0x0F, 0x7E, 0x43, 0x08, 0xF2, 0x0F, 0x2A, 0x0B,
    ]);
    m.cpu.hidden[DS] = SegHidden { base: 0, limit: 0xFF, access: 0x91, big: true };
    m.cpu.set_reg32(BX, 0x600);
    m.store(0x600, &7u32.to_le_bytes());
    for _ in 0..6 {
        step(&mut m);
        assert_eq!(m.pending_fault, None);
    }
    assert_eq!(m.cpu.fpu.mm(0), 0x7_0007);
    assert_eq!((m.read_phys32(0x604), m.read_phys32(0x608)), (7, 7));
    assert_eq!(m.cpu.xmm[0], 7);
    assert_eq!(m.cpu.xmm[1] as u64, 7.0f64.to_bits());
    // mov eax, [ebx] does not
    m.store(0x8000, &[0x8B, 0x03]);
    m.cpu.ip = 0x8000;
    step(&mut m);
    assert!(m.pending_fault.is_some());
}
