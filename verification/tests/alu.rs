use rustx86_core::bits::{even_parity, signed16, signed32, signed8};
use rustx86_core::cpu::alu::{
    alu16, alu32, alu8, alu_w, condition, inc_dec8, inc_dec_w, set_szp16, set_szp32, set_szp8,
    set_szp_w,
};
use rustx86_core::cpu::shift::shift_rot;
use rustx86_core::cpu::state::{AF, AX, CF, DF, IF, OF, PF, SF, SP, ZF};
use rustx86_core::cpu::twobyte::{bit_scan, shxd, swapped};
use rustx86_core::cpu::Cpu;

#[test]
fn parity_counts_ones() {
    assert!(even_parity(0));
    assert!(!even_parity(1));
    assert!(even_parity(0b1001_0110));
    assert!(!even_parity(0x80));
}

#[test]
fn numbers_with_a_sign() {
    assert_eq!(signed8(0xFF), -1);
    assert_eq!(signed8(0x7F), 127);
    assert_eq!(signed16(0x8000), -32768);
    assert_eq!(signed32(0xFFFF_FFFE), -2);
}

#[test]
fn addition_carries_and_overflows() {
    let mut c = Cpu::new();
    assert_eq!(alu8(&mut c, 0, 0x7F, 0x01), 0x80);
    assert!(c.flag(OF) && c.flag(SF) && c.flag(AF));
    assert!(!c.flag(CF) && !c.flag(ZF) && !c.flag(PF));
    assert_eq!(alu8(&mut c, 0, 0xFF, 0x01), 0x00);
    assert!(c.flag(CF) && c.flag(ZF) && c.flag(AF) && c.flag(PF));
    assert!(!c.flag(OF) && !c.flag(SF));
}

#[test]
fn adc_and_sbb_take_the_carry() {
    let mut c = Cpu::new();
    c.set_flag(CF, true);
    assert_eq!(alu16(&mut c, 2, 0x00FF, 0x0001), 0x0101);
    assert!(!c.flag(CF));
    c.set_flag(CF, true);
    assert_eq!(alu32(&mut c, 3, 0, 0), 0xFFFF_FFFF);
    assert!(c.flag(CF) && c.flag(SF));
}

#[test]
fn subtraction_borrows() {
    let mut c = Cpu::new();
    assert_eq!(alu32(&mut c, 5, 0x8000_0000, 1), 0x7FFF_FFFF);
    assert!(c.flag(OF) && !c.flag(CF) && !c.flag(SF));
    // a comparison gives its operand back
    assert_eq!(alu8(&mut c, 7, 0x10, 0x20), 0x10);
    assert!(c.flag(CF) && c.flag(SF));
}

#[test]
fn logic_clears_carry_and_overflow() {
    let mut c = Cpu::new();
    c.set_flag(CF, true);
    c.set_flag(OF, true);
    assert_eq!(alu8(&mut c, 4, 0xF0, 0x3C), 0x30);
    assert!(!c.flag(CF) && !c.flag(OF));
    assert_eq!(alu_w(&mut c, 6, 0xFFFF_1234, 0x1234, false), 0);
    assert!(c.flag(ZF));
    assert_eq!(alu_w(&mut c, 1, 0x10, 0x01, true), 0x11);
}

#[test]
fn inc_and_dec_leave_the_carry() {
    let mut c = Cpu::new();
    c.set_flag(CF, true);
    assert_eq!(inc_dec8(&mut c, 0x7F, false), 0x80);
    assert!(c.flag(CF) && c.flag(OF));
    assert_eq!(inc_dec_w(&mut c, 0, true, true), 0xFFFF_FFFF);
    assert!(c.flag(CF) && c.flag(SF) && !c.flag(OF));
    assert_eq!(inc_dec_w(&mut c, 0xFFFF, false, false), 0);
    assert!(c.flag(CF) && c.flag(ZF));
}

#[test]
fn sign_zero_and_parity_of_a_value() {
    let mut c = Cpu::new();
    set_szp8(&mut c, 0x80);
    assert!(c.flag(SF) && !c.flag(ZF) && !c.flag(PF));
    set_szp16(&mut c, 0);
    assert!(!c.flag(SF) && c.flag(ZF) && c.flag(PF));
    set_szp32(&mut c, 0x8000_0003);
    assert!(c.flag(SF) && !c.flag(ZF) && c.flag(PF));
    set_szp_w(&mut c, 0x7FFF, false);
    assert!(!c.flag(SF));
}

#[test]
fn conditions_come_in_pairs() {
    let mut c = Cpu::new();
    alu32(&mut c, 7, 3, 5);
    assert!(condition(&c, 2) && condition(&c, 6) && condition(&c, 0xC) && condition(&c, 5));
    alu32(&mut c, 7, 5, 5);
    assert!(condition(&c, 4) && condition(&c, 0xE) && condition(&c, 0xD));
    alu32(&mut c, 7, 0xFFFF_FFFF, 1);
    assert!(condition(&c, 0xC) && condition(&c, 7));
    for cc in 0..8u8 {
        assert_ne!(condition(&c, 2 * cc), condition(&c, 2 * cc + 1));
    }
}

#[test]
fn shifts_and_rotates() {
    let mut c = Cpu::new();
    assert_eq!(shift_rot(&mut c, 4, 0x81, 1, 8), 0x02);
    assert!(c.flag(CF) && c.flag(OF));
    assert_eq!(shift_rot(&mut c, 5, 0x81, 1, 8), 0x40);
    assert!(c.flag(CF));
    assert_eq!(shift_rot(&mut c, 7, 0x80, 3, 8), 0xF0);
    assert_eq!(shift_rot(&mut c, 0, 0x8001, 4, 16), 0x0018);
    assert_eq!(shift_rot(&mut c, 1, 0x8001, 4, 16), 0x1800);
    c.set_flag(CF, true);
    assert_eq!(shift_rot(&mut c, 2, 0x4000_0000, 1, 32), 0x8000_0001);
    assert!(!c.flag(CF));
    c.set_flag(CF, true);
    assert_eq!(shift_rot(&mut c, 3, 0x02, 1, 8), 0x81);
}

#[test]
fn a_shift_by_zero_changes_nothing() {
    let mut c = Cpu::new();
    c.set_flag(CF, true);
    c.set_flag(ZF, true);
    assert_eq!(shift_rot(&mut c, 4, 0x1234, 32, 16), 0x1234);
    assert!(c.flag(CF) && c.flag(ZF));
}

#[test]
fn double_shifts() {
    assert_eq!(shxd(0x1234_5678, 0x9ABC_DEF0, 8, true, true), (0x3456_789A, false));
    assert_eq!(shxd(0x1234_5678, 0x9ABC_DEF0, 8, false, true), (0xF012_3456, false));
    assert_eq!(shxd(0x8000, 0x0001, 1, true, false), (0x0000, true));
}

#[test]
fn bit_scans_and_byte_swaps() {
    let mut c = Cpu::new();
    assert_eq!(bit_scan(&mut c, 0x0001_0400, false), Some(10));
    assert_eq!(bit_scan(&mut c, 0x0001_0400, true), Some(16));
    assert!(!c.flag(ZF));
    assert_eq!(bit_scan(&mut c, 0, false), None);
    assert!(c.flag(ZF));
    assert_eq!(swapped(0x1122_3344), 0x4433_2211);
    assert_eq!(swapped(swapped(0xDEAD_BEEF)), 0xDEAD_BEEF);
}

#[test]
fn registers_share_their_bytes() {
    let mut c = Cpu::new();
    c.set_reg32(AX, 0x1122_3344);
    assert_eq!(c.reg8(0), 0x44);
    assert_eq!(c.reg8(4), 0x33);
    assert_eq!(c.reg16(AX), 0x3344);
    c.set_reg8(4, 0xAA);
    assert_eq!(c.reg32(AX), 0x1122_AA44);
    c.set_reg16(SP, 0x8000);
    assert_eq!(c.reg32(SP), 0x8000);
    c.set_reg_w(SP, 0xFFFF_0001, false);
    assert_eq!(c.reg_w(SP, false), 0x0001);
}

#[test]
fn flags_are_read_back() {
    let mut c = Cpu::new();
    c.set_eflags(0x0ED7);
    assert_eq!(c.eflags(), 0x0ED7);
    assert!(c.flag(CF) && c.flag(IF) && c.flag(DF) && c.flag(OF));
    alu8(&mut c, 0, 1, 1);
    assert_eq!(c.eflags() & 0x08D5, 0);
    c.materialize();
    assert_eq!(c.eflags() & 0x0600, 0x0600);
}

#[test]
fn a_rotation_through_the_carry_is_undone() {
    for n in 0..32u8 {
        for carry in [false, true] {
            let mut c = Cpu::new();
            c.set_flag(CF, carry);
            let r = shift_rot(&mut c, 2, 0x5A, n, 8);
            assert_eq!(shift_rot(&mut c, 3, r, n, 8), 0x5A);
            assert_eq!(c.flag(CF), carry);
            let r = shift_rot(&mut c, 2, 0x8000_1234, n, 32);
            assert_eq!(shift_rot(&mut c, 3, r, n, 32), 0x8000_1234);
            assert_eq!(c.flag(CF), carry);
        }
    }
}
