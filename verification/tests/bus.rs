use rustx86_core::bus::isa;
use rustx86_core::bus::memmap::{decode_mem, MemRegion};
use rustx86_core::bus::{decode_io, IoTarget};
use rustx86_core::disk::{geometry, Disk};

#[test]
fn ports_of_the_isa_chips() {
    assert_eq!(decode_io(0x20), IoTarget::Pic { slave: false });
    assert_eq!(decode_io(0x60), IoTarget::Keyboard);
    assert_eq!(isa::decode(0x20), Some(IoTarget::Pic { slave: false }));
    assert_eq!(isa::decode(0x1234), None);
    assert_eq!(decode_io(0xA1), IoTarget::Pic { slave: true });
    assert_eq!(decode_io(0x43), IoTarget::Pit);
    assert_eq!(decode_io(0x71), IoTarget::Cmos);
    assert_eq!(decode_io(0x3FF), IoTarget::Uart);
    assert_eq!(decode_io(0x31F), IoTarget::Net);
}

#[test]
fn pci_has_a_window_of_eight_ports() {
    assert_eq!(decode_io(0xCF7), IoTarget::Unmapped);
    assert_eq!(decode_io(0xCF8), IoTarget::PciConfig);
    assert_eq!(decode_io(0xCFF), IoTarget::PciConfig);
    assert_eq!(decode_io(0xD00), IoTarget::Unmapped);
}

#[test]
fn regions_of_memory() {
    assert_eq!(decode_mem(0x9_FFFF), MemRegion::Ram);
    assert_eq!(decode_mem(0xA_0000), MemRegion::VideoGraphics);
    assert_eq!(decode_mem(0xB_7FFF), MemRegion::VideoMono);
    assert_eq!(decode_mem(0xB_8000), MemRegion::VideoText);
    assert_eq!(decode_mem(0xB_FFFF), MemRegion::VideoText);
    assert_eq!(decode_mem(0xF_FFF0), MemRegion::Rom);
}

#[test]
fn disks_are_known_by_their_size() {
    assert_eq!(geometry(1_474_560), Some((80, 2, 18)));
    assert_eq!(geometry(368_640), Some((40, 2, 9)));
    assert_eq!(geometry(1), None);
    assert!(Disk::from_image(vec![0u8; 1000]).is_none());
}

#[test]
fn sectors_have_one_place_each() {
    let d = Disk::from_image(vec![0u8; 1_474_560]).unwrap();
    assert_eq!(d.chs_to_lba(0, 0, 1), Some(0));
    assert_eq!(d.chs_to_lba(0, 1, 1), Some(18));
    assert_eq!(d.chs_to_lba(1, 0, 1), Some(36));
    assert_eq!(d.chs_to_lba(79, 1, 18), Some(2879));
    assert_eq!(d.chs_to_lba(80, 0, 1), None);
    assert_eq!(d.chs_to_lba(0, 0, 0), None);
    assert_eq!(d.chs_to_lba(0, 0, 19), None);
    assert!(d.has_sector(2879));
    assert!(!d.has_sector(2880));
}
