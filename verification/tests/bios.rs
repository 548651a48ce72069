use rustx86_core::bios::scancode_to_ascii;
use rustx86_core::cpu::state::{AX, BX, CF, CX, DX, SP, ZF};
use rustx86_core::machine::{Machine, MachineProfile};

fn machine() -> Machine {
    let mut m = Machine::new(0x11_0000, MachineProfile { has_fpu: true, has_cpuid: true }, 1000);
    m.cpu.set_reg32(SP, 0x7000);
    m.power_on_self_test();
    m
}

#[test]
fn keys_and_letters() {
    assert_eq!(scancode_to_ascii(0x1E, false, false), Some(b'a'));
    assert_eq!(scancode_to_ascii(0x1E, true, false), Some(b'A'));
    assert_eq!(scancode_to_ascii(0x1E, false, true), Some(1));
    assert_eq!(scancode_to_ascii(0x02, true, false), Some(b'!'));
    assert_eq!(scancode_to_ascii(0x1C, false, false), Some(0x0D));
    assert_eq!(scancode_to_ascii(0x39, false, false), Some(b' '));
}

#[test]
fn the_self_test_fills_the_vectors() {
    let mut m = machine();
    assert_eq!(m.read16(0x10 * 4 + 2), 0xF000);
    assert_eq!(m.read16(0x413), 640);
    assert_eq!(m.peek_key(), None);
}

#[test]
fn the_keyboard_queue_is_first_in_first_out() {
    let mut m = machine();
    m.kbd_enqueue(0x1E61);
    m.kbd_enqueue(0x3062);
    assert_eq!(m.peek_key(), Some(0x1E61));
    assert_eq!(m.take_key(), Some(0x1E61));
    assert_eq!(m.take_key(), Some(0x3062));
    assert_eq!(m.take_key(), None);
    // fifteen keys fit
    for i in 0..20u16 {
        m.kbd_enqueue(i + 1);
    }
    for i in 0..15u16 {
        assert_eq!(m.take_key(), Some(i + 1));
    }
    assert_eq!(m.take_key(), None);
}

#[test]
fn text_goes_to_the_screen() {
    let mut m = machine();
    for c in b"Hi" {
        m.teletype(*c);
    }
    assert_eq!(m.read_phys8(0xB_8000), b'H');
    assert_eq!(m.read_phys8(0xB_8002), b'i');
    assert_eq!(m.cursor_pos(), (0, 2));
    m.teletype(0x0D);
    m.teletype(0x0A);
    assert_eq!(m.cursor_pos(), (1, 0));
    m.teletype(b'x');
    m.teletype(0x08);
    assert_eq!(m.cursor_pos(), (1, 0));
}

#[test]
fn the_screen_scrolls_at_its_end() {
    let mut m = machine();
    m.set_cursor_pos(1, 0);
    m.teletype(b'A');
    m.set_cursor_pos(24, 0);
    m.teletype(0x0A);
    assert_eq!(m.cursor_pos(), (24, 0));
    assert_eq!(m.read_phys8(0xB_8000), b'A');
}

#[test]
fn a_window_is_cleared() {
    let mut m = machine();
    m.set_cursor_pos(2, 3);
    m.teletype(b'Z');
    m.scroll_window(0, 0, 24, 79, 0, 0x1F, true);
    assert_eq!(m.read_phys8(0xB_8000 + 2 * (2 * 80 + 3)), b' ');
    assert_eq!(m.read_phys8(0xB_8001), 0x1F);
}

#[test]
fn a_window_scrolls_both_ways() {
    let cell = |r: u32, c: u32| 0xB_8000 + 2 * (r * 80 + c);
    let mut m = machine();
    m.store(cell(5, 10), &[b'a', 1]);
    m.store(cell(6, 10), &[b'b', 2]);
    m.store(cell(5, 9), &[b'o', 3]);
    // up by one: row 6 comes to row 5, row 6 is blank, what is outside stays
    m.scroll_window(5, 10, 6, 20, 1, 0x1F, true);
    assert_eq!(m.mem[cell(5, 10) as usize..cell(5, 11) as usize], [b'b', 2]);
    assert_eq!(m.mem[cell(6, 10) as usize..cell(6, 11) as usize], [b' ', 0x1F]);
    assert_eq!(m.mem[cell(5, 9) as usize..cell(5, 10) as usize], [b'o', 3]);
    // down by one
    m.scroll_window(5, 10, 6, 20, 1, 0x2F, false);
    assert_eq!(m.mem[cell(6, 10) as usize..cell(6, 11) as usize], [b'b', 2]);
    assert_eq!(m.mem[cell(5, 10) as usize..cell(5, 11) as usize], [b' ', 0x2F]);
}

#[test]
fn sectors_are_written_and_read_back() {
    let mut m = machine();
    m.boot_from_disk(vec![0u8; 1_474_560]).unwrap();
    for k in 0..1024usize {
        m.mem[0x9000 + k] = (k * 3 + k / 256) as u8;
    }
    // write two sectors from 0:9000 to cylinder 1, head 1, sector 4
    m.cpu.set_reg32(AX, 0x0302);
    m.cpu.set_reg32(CX, 0x0104);
    m.cpu.set_reg32(DX, 0x0100);
    m.cpu.set_reg32(BX, 0x9000);
    m.bios_interrupt(0x13);
    assert_eq!(m.cpu.reg8(4), 0);
    // and read them to 0:A000
    m.cpu.set_reg32(AX, 0x0202);
    m.cpu.set_reg32(CX, 0x0104);
    m.cpu.set_reg32(DX, 0x0100);
    m.cpu.set_reg32(BX, 0xA000);
    m.bios_interrupt(0x13);
    assert_eq!(m.cpu.reg8(4), 0);
    assert_eq!(m.mem[0xA000..0xA400], m.mem[0x9000..0x9400]);
    assert_eq!(m.mem[0xA400], 0);
}

#[test]
fn int_10_writes_a_character() {
    let mut m = machine();
    m.cpu.set_reg32(AX, 0x0E00 + b'Q' as u32);
    m.cpu.set_reg32(BX, 0);
    assert!(m.bios_interrupt(0x10));
    assert_eq!(m.read_phys8(0xB_8000), b'Q');
    assert_eq!(m.board.console, b"Q".to_vec());
    // cursor position
    m.cpu.set_reg32(AX, 0x0200);
    m.cpu.set_reg32(DX, 0x0507);
    m.bios_interrupt(0x10);
    assert_eq!(m.cursor_pos(), (5, 7));
}

#[test]
fn int_12_tells_the_memory() {
    let mut m = machine();
    assert!(m.bios_interrupt(0x12));
    assert_eq!(m.cpu.reg16(AX), 640);
}

#[test]
fn int_13_reads_sectors() {
    let mut m = machine();
    let mut image = vec![0u8; 1_474_560];
    image[512] = 0xAB;
    image[1023] = 0xCD;
    m.boot_from_disk(image).unwrap();
    // read one sector, cylinder 0, head 0, sector 2, to 0:9000
    m.cpu.set_reg32(AX, 0x0201);
    m.cpu.set_reg32(CX, 0x0002);
    m.cpu.set_reg32(DX, 0x0000);
    m.cpu.set_reg32(BX, 0x9000);
    m.cpu.set_reg32(SP, 0x7000);
    m.bios_interrupt(0x13);
    assert_eq!(m.read_phys8(0x9000), 0xAB);
    assert_eq!(m.read_phys8(0x91FF), 0xCD);
    assert_eq!(m.cpu.reg8(4), 0);
}

#[test]
fn int_16_waits_for_keys() {
    let mut m = machine();
    m.kbd_enqueue(0x1E61);
    m.cpu.set_reg32(AX, 0x0000);
    assert!(m.bios_interrupt(0x16));
    assert_eq!(m.cpu.reg16(AX), 0x1E61);
    // without a key the interrupt is not done
    m.cpu.set_reg32(AX, 0x0000);
    assert!(!m.bios_interrupt(0x16));
    let _ = (CF, ZF);
}
