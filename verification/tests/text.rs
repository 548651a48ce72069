use rustx86_core::boot::BootError;
use rustx86_core::machine::TrapReason;

#[test]
fn opcodes_that_are_missing() {
    assert_eq!(TrapReason::Opcode { op: 0x0F }.message(), "unimplemented opcode 0x0f");
    assert_eq!(TrapReason::Opcode0f { op: 0xB6 }.message(), "unimplemented opcode 0f 0xb6");
    assert_eq!(TrapReason::Opcode0f { op: 0xAE }.message(), "unimplemented 0f ae variant");
    assert_eq!(TrapReason::NoCpuid.message(), "CPUID on a machine without it");
}

#[test]
fn slots_that_are_missing() {
    assert_eq!(TrapReason::Group { op: 0x00, slot: 6 }.message(), "unimplemented 0f 00 /6");
    assert_eq!(
        TrapReason::Group { op: 0xC7, slot: 2 }.message(),
        "0f c7 /2 (not cmpxchg8b m64)"
    );
    assert_eq!(TrapReason::Group { op: 0xBA, slot: 3 }.message(), "0f ba /3 (undefined encoding)");
    assert_eq!(TrapReason::Group { op: 0xFF, slot: 7 }.message(), "GRP5 /7 (undefined encoding)");
}

#[test]
fn operands_that_make_no_sense() {
    assert_eq!(
        TrapReason::SegmentRegister { number: 7, load: false }.message(),
        "mov r/m16, sreg with reg=7 (reserved)"
    );
    assert_eq!(
        TrapReason::SegmentRegister { number: 6, load: true }.message(),
        "mov sreg, r/m16 with reg=6 (reserved)"
    );
    assert_eq!(
        TrapReason::RegisterOperand { op: 0xFF }.message(),
        "far call/jmp with register operand"
    );
    assert_eq!(
        TrapReason::RegisterOperand { op: 0xB2 }.message(),
        "LSS/LFS/LGS with register operand (0f 0xb2)"
    );
}

#[test]
fn instructions_of_the_floating_point_unit() {
    assert_eq!(TrapReason::Fpu { op: 0xDB, modrm: 0x23 }.message(), "x87 mem op=DB /4");
    assert_eq!(TrapReason::Fpu { op: 0xD9, modrm: 0xE2 }.message(), "x87 D9 E2");
    assert_eq!(TrapReason::Fpu { op: 0xD9, modrm: 0xEF }.message(), "x87 D9 EF");
    assert_eq!(TrapReason::Fpu { op: 0xDB, modrm: 0xE7 }.message(), "x87 DB E7");
    assert_eq!(TrapReason::Fpu { op: 0xDF, modrm: 0xFB }.message(), "x87 reg op=DF /7 st3");
}

#[test]
fn images_that_do_not_start() {
    assert_eq!(
        BootError::TooShort { len: 10 }.message(),
        "bzImage が短すぎる (10 バイト、ヘッダに届かない)"
    );
    assert_eq!(
        BootError::NoMagic.message(),
        "セットアップヘッダのマジック 'HdrS' が無い。bzImage ではない"
    );
    assert_eq!(
        BootError::OldProtocol { version: 0x010F }.message(),
        "boot protocol 1.0f は古すぎる (2.00 以上が要る)"
    );
    assert_eq!(
        BootError::NotHigh.message(),
        "LOADED_HIGH でない (bzImage ではなく zImage?)"
    );
    assert_eq!(
        BootError::RomTooLarge { len: 131_073 }.message(),
        "ROMが大きすぎる (131073 バイト > 128KB)"
    );
}

#[test]
fn memory_that_does_not_suffice() {
    let e = BootError::SegmentOutside { paddr: 0x20_0000, end: 0x1_2345_6789, ram: 16 << 20 };
    let s = "vmlinux のセグメント (物理 0x00200000..0x123456789) がRAM (16MB) に収まらない";
    assert_eq!(e.message(), s);
    let e = BootError::InitrdTooLarge {
        packed: 5 << 19,
        needed: (5 << 19) + (9 << 20) + (64 << 20),
        ram: 64 << 20,
    };
    let mb = |b: u64| b as f64 / (1 << 20) as f64;
    let s = format!(
        "initrd を展開しきれない — 圧縮 {:.1}MB + 展開後 {:.1}MB + カーネル作業域 64MB = {:.0}MB 必要 (いまのRAMは {}MB)",
        mb(5 << 19),
        mb(9 << 20),
        mb((5 << 19) + (9 << 20) + (64 << 20)).ceil(),
        64
    );
    assert_eq!(e.message(), s);
}

#[test]
fn sizes_are_rounded_as_numbers_are_printed() {
    for packed in [0u32, 1, 52_428, 52_429, 131_072, 262_144, 393_216, 1_048_575, 123_456_789] {
        let e = BootError::InitrdTooLarge { packed, needed: packed as u64, ram: 0 };
        let s = format!("圧縮 {:.1}MB", packed as f64 / 1_048_576.0);
        assert!(e.message().contains(&s), "{} in {}", s, e.message());
    }
}
