//! Numbers written out, and the messages that say why the machine stopped or could
//! not be started.

use vstd::prelude::*;
use vstd::string::*;
use crate::boot::BootError;
use crate::machine::TrapReason;

verus! {

/// The bytes of a megabyte.
pub const MEGABYTE: u64 = 0x10_0000;

/// One digit of a number, with capital letters or small ones.
pub open spec fn digit(n: nat, capital: bool) -> Seq<char> {
    if n == 0 {
        "0"@
    } else if n == 1 {
        "1"@
    } else if n == 2 {
        "2"@
    } else if n == 3 {
        "3"@
    } else if n == 4 {
        "4"@
    } else if n == 5 {
        "5"@
    } else if n == 6 {
        "6"@
    } else if n == 7 {
        "7"@
    } else if n == 8 {
        "8"@
    } else if n == 9 {
        "9"@
    } else if n == 10 {
        if capital {
            "A"@
        } else {
            "a"@
        }
    } else if n == 11 {
        if capital {
            "B"@
        } else {
            "b"@
        }
    } else if n == 12 {
        if capital {
            "C"@
        } else {
            "c"@
        }
    } else if n == 13 {
        if capital {
            "D"@
        } else {
            "d"@
        }
    } else if n == 14 {
        if capital {
            "E"@
        } else {
            "e"@
        }
    } else if capital {
        "F"@
    } else {
        "f"@
    }
}

fn digit_text(n: u64, capital: bool) -> (r: &'static str)
    ensures
        r@ == digit(n as nat, capital),
{
    match n {
        0 => "0",
        1 => "1",
        2 => "2",
        3 => "3",
        4 => "4",
        5 => "5",
        6 => "6",
        7 => "7",
        8 => "8",
        9 => "9",
        10 => if capital {
            "A"
        } else {
            "a"
        },
        11 => if capital {
            "B"
        } else {
            "b"
        },
        12 => if capital {
            "C"
        } else {
            "c"
        },
        13 => if capital {
            "D"
        } else {
            "d"
        },
        14 => if capital {
            "E"
        } else {
            "e"
        },
        _ => if capital {
            "F"
        } else {
            "f"
        },
    }
}

/// A number in a base of at most sixteen, filled up with zeros to a width.
pub open spec fn numeral(n: nat, base: nat, width: nat, capital: bool) -> Seq<char>
    decreases n + width,
{
    if base < 2 || (n < base && width <= 1) {
        digit(n, capital)
    } else {
        let rest = if width == 0 {
            0
        } else {
            (width - 1) as nat
        };
        proof {
            lemma_shorter(n, base, width);
        }
        numeral(n / base, base, rest, capital) + digit(n % base, capital)
    }
}

/// A number in decimal.
pub open spec fn decimal(n: nat) -> Seq<char> {
    numeral(n, 10, 1, false)
}

/// A number in hexadecimal with small letters.
pub open spec fn hexadecimal(n: nat, width: nat) -> Seq<char> {
    numeral(n, 16, width, false)
}

/// A number without its last digit is less.
pub proof fn lemma_shorter(n: nat, base: nat, width: nat)
    requires
        base >= 2,
        n >= base || width > 1,
    ensures
        n / base <= n,
        n >= base ==> n / base < n,
{
    if n > 0 {
        assert(n / base < n) by (nonlinear_arith)
            requires
                n > 0,
                base >= 2,
        ;
    } else {
        assert(n / base == 0) by (nonlinear_arith)
            requires
                n == 0,
                base >= 2,
        ;
    }
}

fn put_numeral(s: String, n: u64, base: u64, width: u64, capital: bool) -> (r: String)
    requires
        2 <= base <= 16,
    ensures
        r@ == s@ + numeral(n as nat, base as nat, width as nat, capital),
    decreases n + width,
{
    if n < base && width <= 1 {
        s.concat(digit_text(n, capital))
    } else {
        proof {
            lemma_shorter(n as nat, base as nat, width as nat);
        }
        let rest: u64 = if width == 0 {
            0
        } else {
            width - 1
        };
        let head = put_numeral(s, n / base, base, rest, capital);
        let r = head.concat(digit_text(n % base, capital));
        assert(r@ == s@ + numeral(n as nat, base as nat, width as nat, capital));
        r
    }
}

fn put(s: String, t: &str) -> (r: String)
    ensures
        r@ == s@ + t@,
{
    s.concat(t)
}

fn put_decimal(s: String, n: u64) -> (r: String)
    ensures
        r@ == s@ + decimal(n as nat),
{
    put_numeral(s, n, 10, 1, false)
}

fn put_hexadecimal(s: String, n: u64, width: u64) -> (r: String)
    ensures
        r@ == s@ + hexadecimal(n as nat, width as nat),
{
    put_numeral(s, n, 16, width, false)
}

/// So many bytes as tenths of a megabyte, rounded to the nearest and between two to
/// the even one.
pub open spec fn megabyte_tenths(n: nat) -> nat {
    let q = n * 10 / MEGABYTE as nat;
    let r = n * 10 % MEGABYTE as nat;
    if 2 * r > MEGABYTE || (2 * r == MEGABYTE && q % 2 == 1) {
        q + 1
    } else {
        q
    }
}

/// So many bytes in megabytes, with one place behind the point.
pub open spec fn megabytes(n: nat) -> Seq<char> {
    decimal(megabyte_tenths(n) / 10) + "."@ + decimal(megabyte_tenths(n) % 10)
}

fn put_megabytes(s: String, n: u64) -> (r: String)
    ensures
        r@ == s@ + megabytes(n as nat),
{
    let t: u128 = n as u128 * 10;
    let q: u128 = t / 0x10_0000;
    let rest: u128 = t % 0x10_0000;
    let tenths: u64 = if 2 * rest > 0x10_0000 || (2 * rest == 0x10_0000 && q % 2 == 1) {
        (q + 1) as u64
    } else {
        q as u64
    };
    assert(tenths == megabyte_tenths(n as nat));
    let r = put_decimal(put(put_decimal(s, tenths / 10), "."), tenths % 10);
    assert(r@ == s@ + megabytes(n as nat));
    r
}

/// The megabytes that hold so many bytes.
pub open spec fn whole_megabytes(n: nat) -> nat {
    (n + MEGABYTE as nat - 1) as nat / MEGABYTE as nat
}

impl TrapReason {
    /// What is said of an instruction that the machine does not have.
    pub open spec fn text(self) -> Seq<char> {
        match self {
            TrapReason::Opcode { op } => "unimplemented opcode 0x"@ + hexadecimal(op as nat, 2),
            TrapReason::Opcode0f { op } => if op == 0xAE {
                "unimplemented 0f ae variant"@
            } else {
                "unimplemented opcode 0f 0x"@ + hexadecimal(op as nat, 2)
            },
            TrapReason::Group { op, slot } => if op == 0x00 {
                "unimplemented 0f 00 /"@ + decimal(slot as nat)
            } else if op == 0xC7 {
                "0f c7 /"@ + decimal(slot as nat) + " (not cmpxchg8b m64)"@
            } else if op == 0xBA {
                "0f ba /"@ + decimal(slot as nat) + " (undefined encoding)"@
            } else {
                "GRP5 /"@ + decimal(slot as nat) + " (undefined encoding)"@
            },
            TrapReason::SegmentRegister { number, load } => if load {
                "mov sreg, r/m16 with reg="@ + decimal(number as nat) + " (reserved)"@
            } else {
                "mov r/m16, sreg with reg="@ + decimal(number as nat) + " (reserved)"@
            },
            TrapReason::RegisterOperand { op } => if op == 0xFF {
                "far call/jmp with register operand"@
            } else {
                "LSS/LFS/LGS with register operand (0f 0x"@ + hexadecimal(op as nat, 2) + ")"@
            },
            TrapReason::Fpu { op, modrm } => if modrm < 0xC0 {
                "x87 mem op="@ + numeral(op as nat, 16, 2, true) + " /"@ + decimal(
                    (modrm / 8 % 8) as nat,
                )
            } else if (op == 0xD9 || op == 0xDB) && modrm / 8 == 28 || op == 0xD9 && modrm == 0xEF {
                "x87 "@ + numeral(op as nat, 16, 2, true) + " "@ + numeral(
                    modrm as nat,
                    16,
                    2,
                    true,
                )
            } else {
                "x87 reg op="@ + numeral(op as nat, 16, 2, true) + " /"@ + decimal(
                    (modrm / 8 % 8) as nat,
                ) + " st"@ + decimal((modrm % 8) as nat)
            },
            TrapReason::NoCpuid => "CPUID on a machine without it"@,
        }
    }

    /// The message for an instruction that the machine does not have.
    pub fn message(&self) -> (r: String)
        ensures
            r@ == self.text(),
    {
        match *self {
            TrapReason::Opcode { op } => put_hexadecimal(
                String::from_str("unimplemented opcode 0x"),
                op as u64,
                2,
            ),
            TrapReason::Opcode0f { op } => if op == 0xAE {
                String::from_str("unimplemented 0f ae variant")
            } else {
                put_hexadecimal(String::from_str("unimplemented opcode 0f 0x"), op as u64, 2)
            },
            TrapReason::Group { op, slot } => if op == 0x00 {
                put_decimal(String::from_str("unimplemented 0f 00 /"), slot as u64)
            } else if op == 0xC7 {
                put(put_decimal(String::from_str("0f c7 /"), slot as u64), " (not cmpxchg8b m64)")
            } else if op == 0xBA {
                put(put_decimal(String::from_str("0f ba /"), slot as u64), " (undefined encoding)")
            } else {
                put(put_decimal(String::from_str("GRP5 /"), slot as u64), " (undefined encoding)")
            },
            TrapReason::SegmentRegister { number, load } => {
                let s = if load {
                    String::from_str("mov sreg, r/m16 with reg=")
                } else {
                    String::from_str("mov r/m16, sreg with reg=")
                };
                put(put_decimal(s, number as u64), " (reserved)")
            },
            TrapReason::RegisterOperand { op } => if op == 0xFF {
                String::from_str("far call/jmp with register operand")
            } else {
                let s = String::from_str("LSS/LFS/LGS with register operand (0f 0x");
                put(put_hexadecimal(s, op as u64, 2), ")")
            },
            TrapReason::Fpu { op, modrm } => fpu_message(op, modrm),
            TrapReason::NoCpuid => String::from_str("CPUID on a machine without it"),
        }
    }
}

fn fpu_message(op: u8, modrm: u8) -> (r: String)
    ensures
        r@ == (TrapReason::Fpu { op, modrm }).text(),
{
    let reg: u64 = (modrm / 8 % 8) as u64;
    if modrm < 0xC0 {
        let s = put_numeral(String::from_str("x87 mem op="), op as u64, 16, 2, true);
        put_decimal(put(s, " /"), reg)
    } else if (op == 0xD9 || op == 0xDB) && modrm / 8 == 28 || op == 0xD9 && modrm == 0xEF {
        let s = put_numeral(String::from_str("x87 "), op as u64, 16, 2, true);
        put_numeral(put(s, " "), modrm as u64, 16, 2, true)
    } else {
        let s = put_numeral(String::from_str("x87 reg op="), op as u64, 16, 2, true);
        put_decimal(put(put_decimal(put(s, " /"), reg), " st"), (modrm % 8) as u64)
    }
}

impl BootError {
    /// What is said of something that cannot be started.
    pub open spec fn text(self) -> Seq<char> {
        match self {
            BootError::UnknownDisk => "ディスクイメージの大きさが分からない"@,
            BootError::RomTooLarge { len } => "ROMが大きすぎる ("@ + decimal(len as nat)
                + " バイト > 128KB)"@,
            BootError::TooShort { len } => "bzImage が短すぎる ("@ + decimal(len as nat)
                + " バイト、ヘッダに届かない)"@,
            BootError::NoMagic =>
                "セットアップヘッダのマジック 'HdrS' が無い。bzImage ではない"@,
            BootError::OldProtocol { version } => "boot protocol "@ + hexadecimal(
                (version / 0x100) as nat,
                1,
            ) + "."@ + hexadecimal((version % 0x100) as nat, 2) + " は古すぎる (2.00 以上が要る)"@,
            BootError::NotHigh => "LOADED_HIGH でない (bzImage ではなく zImage?)"@,
            BootError::NotElf => "32bit x86 の ELF ではない"@,
            BootError::BrokenElf => "ELF の中身がファイルに収まらない"@,
            BootError::SegmentOutside { paddr, end, ram } => "vmlinux のセグメント (物理 0x"@
                + hexadecimal(paddr as nat, 8) + "..0x"@ + hexadecimal(end as nat, 8)
                + ") がRAM ("@ + decimal((ram / MEGABYTE) as nat) + "MB) に収まらない"@,
            BootError::InitrdTooLarge { packed, needed, ram } =>
                "initrd を展開しきれない — 圧縮 "@ + megabytes(packed as nat) + "MB + 展開後 "@
                + megabytes(unpacking(packed, needed) as nat)
                + "MB + カーネル作業域 64MB = "@ + decimal(whole_megabytes(needed as nat))
                + "MB 必要 (いまのRAMは "@ + decimal((ram / MEGABYTE) as nat) + "MB)"@,
        }
    }

    /// The message for something that cannot be started.
    pub fn message(&self) -> (r: String)
        ensures
            r@ == self.text(),
    {
        match *self {
            BootError::UnknownDisk => String::from_str("ディスクイメージの大きさが分からない"),
            BootError::RomTooLarge { len } => put(
                put_decimal(String::from_str("ROMが大きすぎる ("), len as u64),
                " バイト > 128KB)",
            ),
            BootError::TooShort { len } => put(
                put_decimal(String::from_str("bzImage が短すぎる ("), len as u64),
                " バイト、ヘッダに届かない)",
            ),
            BootError::NoMagic => String::from_str(
                "セットアップヘッダのマジック 'HdrS' が無い。bzImage ではない",
            ),
            BootError::OldProtocol { version } => {
                let s = String::from_str("boot protocol ");
                let s = put(put_hexadecimal(s, (version / 0x100) as u64, 1), ".");
                let s = put_hexadecimal(s, (version % 0x100) as u64, 2);
                put(s, " は古すぎる (2.00 以上が要る)")
            },
            BootError::NotHigh => String::from_str(
                "LOADED_HIGH でない (bzImage ではなく zImage?)",
            ),
            BootError::NotElf => String::from_str("32bit x86 の ELF ではない"),
            BootError::BrokenElf => String::from_str("ELF の中身がファイルに収まらない"),
            BootError::SegmentOutside { paddr, end, ram } => {
                let s = String::from_str("vmlinux のセグメント (物理 0x");
                let s = put(put_hexadecimal(s, paddr as u64, 8), "..0x");
                let s = put(put_hexadecimal(s, end, 8), ") がRAM (");
                put(put_decimal(s, ram / MEGABYTE), "MB) に収まらない")
            },
            BootError::InitrdTooLarge { packed, needed, ram } => {
                let s = String::from_str("initrd を展開しきれない — 圧縮 ");
                let s = put(put_megabytes(s, packed as u64), "MB + 展開後 ");
                let s = put_megabytes(s, unpacking(packed, needed));
                let s = put(s, "MB + カーネル作業域 64MB = ");
                let whole: u64 = if needed % MEGABYTE == 0 {
                    needed / MEGABYTE
                } else {
                    needed / MEGABYTE + 1
                };
                assert(whole == whole_megabytes(needed as nat));
                let s = put(put_decimal(s, whole), "MB 必要 (いまのRAMは ");
                put(put_decimal(s, ram / MEGABYTE), "MB)")
            },
        }
    }
}

/// Of the memory that an initial disk needs, what is neither its file nor the
/// kernel's 64 MB.
#[verifier::allow_in_spec]
pub fn unpacking(packed: u32, needed: u64) -> u64
    returns
        (if needed < packed + 64 * MEGABYTE {
            0
        } else {
            (needed - packed - 64 * MEGABYTE) as u64
        }),
{
    if needed < packed as u64 + 64 * MEGABYTE {
        0
    } else {
        needed - packed as u64 - 64 * MEGABYTE
    }
}

} // verus!
