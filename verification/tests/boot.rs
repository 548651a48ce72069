use rustx86_core::boot::bzimage::{
    build_zero_page, zero_page_e820, zero_page_e820_count, Lfb, SetupHeader,
};
use rustx86_core::boot::elf::{is_elf, parse_vmlinux};
use rustx86_core::boot::{initrd_ram_needed, BootError};
use rustx86_core::cpu::state::{CS, DS, DX, ES, FS, GS, IF, SI, SS};
use rustx86_core::machine::{Machine, MachineProfile};

const MB: usize = 1 << 20;

fn machine(bytes: usize) -> Machine {
    Machine::new(bytes, MachineProfile { has_fpu: true, has_cpuid: true }, 1000)
}

/// A kernel image with one sector of setup code.
fn image() -> Vec<u8> {
    let mut b = vec![0u8; 1024 + 64];
    b[0x1F1] = 1;
    b[0x202..0x206].copy_from_slice(b"HdrS");
    b[0x206..0x208].copy_from_slice(&0x020Cu16.to_le_bytes());
    b[0x211] = 1;
    b[0x214..0x218].copy_from_slice(&0x10_0000u32.to_le_bytes());
    for i in 0..64usize {
        b[1024 + i] = i as u8 + 1;
    }
    b
}

/// An executable with one part of sixteen bytes that takes 32 in memory.
fn executable() -> Vec<u8> {
    let mut b = vec![0u8; 0x34 + 32 + 16];
    b[0..4].copy_from_slice(&[0x7F, b'E', b'L', b'F']);
    b[4] = 1;
    b[5] = 1;
    b[0x12] = 3;
    b[0x18..0x1C].copy_from_slice(&0x20_0000u32.to_le_bytes());
    b[0x1C] = 0x34;
    b[0x2A] = 32;
    b[0x2C] = 1;
    b[0x34] = 1;
    b[0x38] = 0x54;
    b[0x40..0x44].copy_from_slice(&0x20_0000u32.to_le_bytes());
    b[0x44] = 16;
    b[0x48] = 32;
    for i in 0..16usize {
        b[0x54 + i] = 0xE0 + i as u8;
    }
    b
}

#[test]
fn headers_and_their_errors() {
    let h = SetupHeader::parse(&image()).unwrap();
    assert_eq!((h.setup_sects, h.version, h.code32_start), (1, 0x020C, 0x10_0000));
    assert_eq!(h.kernel_offset(), 1024);
    assert!(h.loaded_high());
    assert_eq!(SetupHeader::parse(&[0; 100]), Err(BootError::TooShort { len: 100 }));
    assert_eq!(SetupHeader::parse(&[0; 1000]), Err(BootError::NoMagic));
    let mut old = image();
    old[0x206] = 0xFF;
    old[0x207] = 0x01;
    assert_eq!(SetupHeader::parse(&old), Err(BootError::OldProtocol { version: 0x01FF }));
    let mut zero = image();
    zero[0x1F1] = 0;
    assert_eq!(SetupHeader::parse(&zero).unwrap().kernel_offset(), 5 * 512);
}

#[test]
fn the_memory_map_is_read_back() {
    let z = build_zero_page(&image(), 64 << 20, 0x2_0000, Some((0x300_0000, 1234)), None);
    assert_eq!(z.len(), 4096);
    assert_eq!(zero_page_e820_count(&z), 4);
    assert_eq!(zero_page_e820(&z, 0), (0, 0x9_FC00, 1));
    assert_eq!(zero_page_e820(&z, 1), (0x9_FC00, 0x400, 2));
    assert_eq!(zero_page_e820(&z, 2), (0xA_0000, 0x6_0000, 2));
    assert_eq!(zero_page_e820(&z, 3), (0x10_0000, 63 << 20, 1));
    assert_eq!(&z[0x202..0x206], b"HdrS");
    assert_eq!(z[0x210], 0xFF);
    assert_eq!(&z[0x218..0x21C], &0x300_0000u32.to_le_bytes());
    assert_eq!(&z[0x21C..0x220], &1234u32.to_le_bytes());
    assert_eq!(&z[0x228..0x22C], &0x2_0000u32.to_le_bytes());
}

#[test]
fn a_framebuffer_takes_the_end_of_memory() {
    let l = Lfb::at_top_of(64 << 20);
    assert_eq!((l.width, l.height, l.bpp), (640, 480, 32));
    assert_eq!(l.base, 62 << 20);
    assert_eq!(l.line_bytes(), 2560);
    assert_eq!(l.frame_bytes(), 2560 * 480);
    assert_eq!(l.reserve_bytes(64 << 20), 2 << 20);
    let z = build_zero_page(&image(), 64 << 20, 0x2_0000, None, Some(l));
    assert_eq!(zero_page_e820_count(&z), 5);
    assert_eq!(zero_page_e820(&z, 3), (0x10_0000, 61 << 20, 1));
    assert_eq!(zero_page_e820(&z, 4), (62 << 20, 2 << 20, 2));
    assert_eq!(z[0x0F], 0x70);
    assert_eq!(&z[0x12..0x14], &640u16.to_le_bytes());
    let m = Lfb::sized_at_top_of(64 << 20, 800, 600);
    assert_eq!((m.width, m.height, m.base), (800, 600, 62 << 20));
}

#[test]
fn an_initial_disk_needs_room_to_unpack() {
    assert_eq!(initrd_ram_needed(&[0; 100]), 200 + (68 << 20));
    let mut gz = vec![0u8; 100];
    gz[0] = 0x1F;
    gz[1] = 0x8B;
    gz[96..100].copy_from_slice(&5000u32.to_le_bytes());
    assert_eq!(initrd_ram_needed(&gz), 5100 + (68 << 20));
}

#[test]
fn a_compressed_kernel_starts() {
    let mut m = machine(16 * MB);
    m.boot_bzimage(&image(), b"console=ttyS0").unwrap();
    assert_eq!(m.cpu.ip, 0x10_0000);
    assert_eq!(m.cpu.reg32(SI), 0x1_0000);
    assert_eq!(m.read_phys8(0x10_0000), 1);
    assert_eq!(m.read_phys8(0x10_003F), 64);
    assert_eq!(&m.mem[0x2_0000..0x2_000E], b"console=ttyS0\0");
    assert!(m.cpu.pe() && !m.cpu.pg() && !m.cpu.flag(IF));
    assert_eq!(m.cpu.sregs[CS], 0x10);
    assert!(m.cpu.seg_is32(CS));
    for s in [DS, ES, FS, GS, SS] {
        assert_eq!(m.cpu.sregs[s], 0x18);
        assert!(m.cpu.hidden[s].flat_rw());
    }
}

#[test]
fn a_small_kernel_is_refused() {
    let mut low = image();
    low[0x211] = 0;
    let mut m = machine(16 * MB);
    assert_eq!(m.boot_bzimage(&low, b""), Err(BootError::NotHigh));
    assert_eq!(m.boot_bzimage(&[0; 10], b""), Err(BootError::TooShort { len: 10 }));
}

#[test]
fn an_initial_disk_goes_below_the_last_megabyte() {
    let mut m = machine(80 * MB);
    let disk = [0x5Au8; 5000];
    m.boot_bzimage_with_initrd(&image(), b"", Some(&disk)).unwrap();
    let at = (80 * MB - 5000 - MB) / 4096 * 4096;
    assert_eq!(m.mem[at], 0x5A);
    assert_eq!(m.mem[at + 4999], 0x5A);
    assert_eq!(m.read_phys32(0x1_0218), at as u32);
    assert_eq!(m.read_phys32(0x1_021C), 5000);
    let mut small = machine(16 * MB);
    assert_eq!(
        small.boot_bzimage_with_initrd(&image(), b"", Some(&disk)),
        Err(BootError::InitrdTooLarge {
            packed: 5000,
            needed: 10_000 + (68 << 20),
            ram: 16 << 20,
        })
    );
}

#[test]
fn an_executable_kernel_starts() {
    assert!(is_elf(&executable()));
    assert!(!is_elf(&image()));
    let v = parse_vmlinux(&executable()).unwrap();
    assert_eq!(v.entry, 0x20_0000);
    assert_eq!(v.segments.len(), 1);
    let mut m = machine(16 * MB);
    m.mem[0x20_0018] = 0xFF;
    m.boot_linux_with_initrd(&executable(), b"", None).unwrap();
    assert_eq!(m.cpu.ip, 0x20_0000);
    assert_eq!(m.mem[0x20_0000], 0xE0);
    assert_eq!(m.mem[0x20_000F], 0xEF);
    assert_eq!(m.mem[0x20_0018], 0);
    assert_eq!(m.read_phys32(0x1_0214), 0x20_0000);
    let mut n = machine(16 * MB);
    n.boot_linux_with_initrd(&image(), b"", None).unwrap();
    assert_eq!(n.cpu.ip, 0x10_0000);
}

#[test]
fn broken_executables() {
    let e = |b: &[u8]| parse_vmlinux(b).err();
    assert_eq!(e(&image()), Some(BootError::NotElf));
    let mut b = executable();
    b[0x12] = 62;
    assert_eq!(e(&b), Some(BootError::NotElf));
    let mut b = executable();
    b[0x2C] = 9;
    assert_eq!(e(&b), Some(BootError::BrokenElf));
    let mut b = executable();
    b[0x44] = 200;
    assert_eq!(e(&b), Some(BootError::BrokenElf));
    let mut m = machine(MB);
    assert_eq!(
        m.boot_vmlinux_with_initrd(&executable(), b"", None),
        Err(BootError::SegmentOutside { paddr: 0x20_0000, end: 0x20_0020, ram: 0x10_0000 })
    );
}

#[test]
fn a_floppy_starts_at_7c00() {
    let mut m = machine(MB);
    let mut image = vec![0u8; 1_474_560];
    image[0] = 0xEB;
    image[511] = 0xAA;
    m.boot_from_disk(image).unwrap();
    assert_eq!((m.cpu.sregs[CS], m.cpu.ip), (0, 0x7C00));
    assert_eq!(m.cpu.reg32(DX), 0);
    assert_eq!((m.mem[0x7C00], m.mem[0x7DFF]), (0xEB, 0xAA));
    assert!(m.board.disk.is_some());
    assert_eq!(m.boot_from_disk(vec![0; 3]), Err(BootError::UnknownDisk));
}

#[test]
fn a_rom_ends_at_one_megabyte() {
    let mut m = machine(MB);
    m.boot_rom(&[0x12u8; 0x1_0000]).unwrap();
    assert_eq!((m.cpu.sregs[CS], m.cpu.ip), (0xF000, 0xFFF0));
    assert_eq!((m.mem[0xE_FFFF], m.mem[0xF_0000], m.mem[0xF_FFFF]), (0, 0x12, 0x12));
    assert!(!m.board.bios_hle);
    assert_eq!(m.boot_rom(&vec![0; 0x2_0001]), Err(BootError::RomTooLarge { len: 0x2_0001 }));
}
