//! The Linux boot protocol: the setup header of a kernel image, and the page of
//! parameters that a boot loader hands to the kernel.

use vstd::prelude::*;
use crate::boot::BootError;
use crate::machine::{byte_of, le16, le32};

verus! {

/// The fields of the setup header that starting the kernel needs.
#[derive(Clone, Copy, Debug, PartialEq, Eq, Structural)]
pub struct SetupHeader {
    /// Sectors of the setup code.
    pub setup_sects: u8,
    /// Version of the protocol, 0x0206 for 2.06.
    pub version: u16,
    /// Bit 0: the kernel goes to 1 MB.
    pub loadflags: u8,
    /// Where the 32-bit kernel starts.
    pub code32_start: u32,
    /// Size of the 32-bit part in sixteen bytes.
    pub syssize: u32,
}

/// A word of an image.
pub open spec fn word_at(s: Seq<u8>, i: int) -> u16 {
    le16(s[i], s[i + 1])
}

/// A doubleword of an image.
pub open spec fn dword_at(s: Seq<u8>, i: int) -> u32 {
    le32(word_at(s, i), word_at(s, i + 2))
}

/// A quadword of an image.
pub open spec fn qword_at(s: Seq<u8>, i: int) -> u64 {
    (dword_at(s, i) + 0x1_0000_0000 * dword_at(s, i + 4)) as u64
}

pub fn read16(b: &[u8], i: usize) -> (r: u16)
    requires
        i + 2 <= b.len(),
    ensures
        r == word_at(b@, i as int),
{
    le16(b[i], b[i + 1])
}

pub fn read32(b: &[u8], i: usize) -> (r: u32)
    requires
        i + 4 <= b.len(),
    ensures
        r == dword_at(b@, i as int),
{
    le32(read16(b, i), read16(b, i + 2))
}

pub fn read64(b: &[u8], i: usize) -> (r: u64)
    requires
        i + 8 <= b.len(),
    ensures
        r == qword_at(b@, i as int),
{
    read32(b, i) as u64 + 0x1_0000_0000 * read32(b, i + 4) as u64
}

impl SetupHeader {
    /// The header of an image, or why it is none.
    pub open spec fn parsed(img: Seq<u8>) -> Result<SetupHeader, BootError> {
        if img.len() < 0x218 {
            Err(BootError::TooShort { len: img.len() as u64 })
        } else if !(img[0x202] == 0x48 && img[0x203] == 0x64 && img[0x204] == 0x72 && img[0x205]
            == 0x53) {
            Err(BootError::NoMagic)
        } else if word_at(img, 0x206) < 0x0200 {
            Err(BootError::OldProtocol { version: word_at(img, 0x206) })
        } else {
            Ok(
                SetupHeader {
                    setup_sects: if img[0x1F1] == 0 { 4 } else { img[0x1F1] },
                    version: word_at(img, 0x206),
                    loadflags: img[0x211],
                    code32_start: dword_at(img, 0x214),
                    syssize: dword_at(img, 0x1F4),
                },
            )
        }
    }

    /// Reads the header at the start of an image. A count of zero sectors means
    /// four.
    pub fn parse(img: &[u8]) -> (r: Result<SetupHeader, BootError>)
        ensures
            r == SetupHeader::parsed(img@),
    {
        if img.len() < 0x218 {
            return Err(BootError::TooShort { len: img.len() as u64 });
        }
        if !(img[0x202] == 0x48 && img[0x203] == 0x64 && img[0x204] == 0x72 && img[0x205] == 0x53) {
            return Err(BootError::NoMagic);
        }
        let version: u16 = read16(img, 0x206);
        if version < 0x0200 {
            return Err(BootError::OldProtocol { version });
        }
        let setup_sects: u8 = if img[0x1F1] == 0 {
            4
        } else {
            img[0x1F1]
        };
        Ok(
            SetupHeader {
                setup_sects,
                version,
                loadflags: img[0x211],
                code32_start: read32(img, 0x214),
                syssize: read32(img, 0x1F4),
            },
        )
    }

    /// Where the 32-bit kernel starts in the image: after the boot sector and the
    /// setup code.
    #[verifier::allow_in_spec]
    pub fn kernel_offset(&self) -> usize
        returns
            ((self.setup_sects + 1) * 512) as usize,
    {
        (self.setup_sects as usize + 1) * 512
    }

    /// Whether the kernel goes to 1 MB.
    #[verifier::allow_in_spec]
    pub fn loaded_high(&self) -> bool
        returns
            self.loadflags % 2 == 1,
    {
        self.loadflags % 2 == 1
    }
}

/// A linear framebuffer at the top of memory.
#[derive(Clone, Copy, Debug, PartialEq, Eq, Structural)]
pub struct Lfb {
    pub base: u32,
    pub width: u16,
    pub height: u16,
    /// Bits of a pixel.
    pub bpp: u16,
}

/// Bytes of memory that a screen takes at four bytes a pixel: whole megabytes.
#[verifier::allow_in_spec]
pub fn screen_reserve(width: u16, height: u16) -> u64
    returns
        ((width * height * 4 + 0xF_FFFF) / 0x10_0000 * 0x10_0000) as u64,
{
    assert(0 <= width * height <= 0xFFFE_0001) by (nonlinear_arith)
        requires
            0 <= width <= 0xFFFF,
            0 <= height <= 0xFFFF,
    ;
    (width as u64 * height as u64 * 4 + 0xF_FFFF) / 0x10_0000 * 0x10_0000
}

impl Lfb {
    pub const DEFAULT_WIDTH: u16 = 640;

    pub const DEFAULT_HEIGHT: u16 = 480;

    /// A screen of the default size at the end of memory.
    pub fn at_top_of(ram_bytes: u64) -> (r: Self)
        requires
            screen_reserve(640, 480) <= ram_bytes,
        ensures
            r == (Lfb {
                base: (ram_bytes - screen_reserve(640, 480)) as u32,
                width: 640,
                height: 480,
                bpp: 32,
            }),
    {
        Lfb::sized_at_top_of(ram_bytes, Lfb::DEFAULT_WIDTH, Lfb::DEFAULT_HEIGHT)
    }

    /// A screen of a given size at the end of memory.
    pub fn sized_at_top_of(ram_bytes: u64, width: u16, height: u16) -> (r: Self)
        requires
            screen_reserve(width, height) <= ram_bytes,
        ensures
            r == (Lfb {
                base: (ram_bytes - screen_reserve(width, height)) as u32,
                width,
                height,
                bpp: 32,
            }),
    {
        Lfb { base: (ram_bytes - screen_reserve(width, height)) as u32, width, height, bpp: 32 }
    }

    /// Memory from the start of the screen on.
    #[verifier::allow_in_spec]
    pub fn reserve_bytes(&self, ram_bytes: u64) -> u64
        requires
            self.base <= ram_bytes,
        returns
            (ram_bytes - self.base) as u64,
    {
        ram_bytes - self.base as u64
    }

    /// Bytes of a line.
    #[verifier::allow_in_spec]
    pub fn line_bytes(&self) -> u32
        returns
            (self.width * (self.bpp / 8)) as u32,
    {
        assert(0 <= self.width * (self.bpp / 8) <= 0xFFFF * 0x1FFF) by (nonlinear_arith)
            requires
                0 <= self.width <= 0xFFFF,
                0 <= self.bpp / 8 <= 0x1FFF,
        ;
        self.width as u32 * (self.bpp as u32 / 8)
    }

    /// Bytes of the screen.
    #[verifier::allow_in_spec]
    pub fn frame_bytes(&self) -> u32
        requires
            self.line_bytes() * self.height <= u32::MAX,
        returns
            (self.line_bytes() * self.height) as u32,
    {
        assert(0 <= self.line_bytes() * self.height) by (nonlinear_arith)
            requires
                0 <= self.line_bytes(),
                0 <= self.height,
        ;
        self.line_bytes() * self.height as u32
    }
}

/// A screen at the top of memory holds all of its pixels: it ends within memory.
pub proof fn law_screen_fits(ram_bytes: u64, width: u16, height: u16)
    requires
        screen_reserve(width, height) <= ram_bytes <= 0x1_0000_0000,
        width > 0,
        height > 0,
    ensures
        ({
            let l = Lfb {
                base: (ram_bytes - screen_reserve(width, height)) as u32,
                width,
                height,
                bpp: 32,
            };
            &&& l.base + l.line_bytes() * height <= ram_bytes
            &&& l.reserve_bytes(ram_bytes) == screen_reserve(width, height)
            &&& l.reserve_bytes(ram_bytes) >= l.line_bytes() * height
        }),
{
    let n = width as int * height as int;
    assert(0 < n <= 0xFFFE_0001) by (nonlinear_arith)
        requires
            0 < width <= 0xFFFF,
            0 < height <= 0xFFFF,
            n == width as int * height as int,
    ;
    let l = Lfb {
        base: (ram_bytes - screen_reserve(width, height)) as u32,
        width,
        height,
        bpp: 32,
    };
    assert(l.line_bytes() == width * 4);
    assert((width * 4) * height == n * 4) by (nonlinear_arith)
        requires
            n == width as int * height as int,
    ;
    let r = (n * 4 + 0xF_FFFF) / 0x10_0000 * 0x10_0000;
    assert(screen_reserve(width, height) == r);
    assert(r >= n * 4 && r >= 0x10_0000);
    assert(l.base == ram_bytes - r);
}

/// A range of the memory map: 1 is memory for use, 2 is reserved.
#[derive(Clone, Copy, Debug, PartialEq, Eq, Structural)]
pub struct E820 {
    pub base: u64,
    pub size: u64,
    pub kind: u32,
}

/// End of the memory that the kernel may use.
pub open spec fn usable_end(ram_bytes: u64, lfb: Option<Lfb>) -> u64 {
    match lfb {
        Some(l) => l.base as u64,
        None => ram_bytes,
    }
}

/// The memory map of a machine.
pub open spec fn e820_map(ram_bytes: u64, lfb: Option<Lfb>) -> Seq<E820> {
    let low = seq![
        E820 { base: 0, size: 0x9_FC00, kind: 1 },
        E820 { base: 0x9_FC00, size: 0x400, kind: 2 },
        E820 { base: 0xA_0000, size: 0x6_0000, kind: 2 },
    ];
    let end = usable_end(ram_bytes, lfb);
    let mid = if end > 0x10_0000 {
        low.push(E820 { base: 0x10_0000, size: (end - 0x10_0000) as u64, kind: 1 })
    } else {
        low
    };
    match lfb {
        Some(l) => mid.push(
            E820 { base: l.base as u64, size: (ram_bytes - l.base) as u64, kind: 2 },
        ),
        None => mid,
    }
}

/// The memory map of a machine with more than a megabyte for use has no gap and no
/// overlap, and ends where memory ends.
pub proof fn law_map_covers_memory(ram_bytes: u64, lfb: Option<Lfb>)
    requires
        usable_end(ram_bytes, lfb) > 0x10_0000,
        lfb matches Some(l) ==> l.base <= ram_bytes,
    ensures
        ({
            let m = e820_map(ram_bytes, lfb);
            let last = m[m.len() - 1];
            &&& m[0].base == 0
            &&& forall|i: int|
                #![trigger m[i]]
                0 <= i < m.len() - 1 ==> m[i].base + m[i].size == m[i + 1].base
            &&& last.base + last.size == ram_bytes
        }),
{
}

/// Byte `i` of a number, the low one first.
#[verifier::allow_in_spec]
pub fn byte64(v: u64, i: usize) -> u8
    returns
        (if i == 0 {
            (v % 0x100) as u8
        } else if i == 1 {
            (v / 0x100 % 0x100) as u8
        } else if i == 2 {
            (v / 0x1_0000 % 0x100) as u8
        } else if i == 3 {
            (v / 0x100_0000 % 0x100) as u8
        } else if i == 4 {
            (v / 0x1_0000_0000 % 0x100) as u8
        } else if i == 5 {
            (v / 0x100_0000_0000 % 0x100) as u8
        } else if i == 6 {
            (v / 0x1_0000_0000_0000 % 0x100) as u8
        } else {
            (v / 0x100_0000_0000_0000 % 0x100) as u8
        }),
{
    if i == 0 {
        (v % 0x100) as u8
    } else if i == 1 {
        (v / 0x100 % 0x100) as u8
    } else if i == 2 {
        (v / 0x1_0000 % 0x100) as u8
    } else if i == 3 {
        (v / 0x100_0000 % 0x100) as u8
    } else if i == 4 {
        (v / 0x1_0000_0000 % 0x100) as u8
    } else if i == 5 {
        (v / 0x100_0000_0000 % 0x100) as u8
    } else if i == 6 {
        (v / 0x1_0000_0000_0000 % 0x100) as u8
    } else {
        (v / 0x100_0000_0000_0000 % 0x100) as u8
    }
}

/// The bytes of a number, the low one first.
pub open spec fn le_bytes(v: u64, n: nat) -> Seq<u8> {
    Seq::new(n, |i: int| byte64(v, i as usize))
}

proof fn lemma_half_bytes(v: u64)
    ensures
        ({
            let lo = (v % 0x1_0000_0000) as u32;
            let hi = (v / 0x1_0000_0000) as u32;
            &&& byte64(v, 0) == byte_of(lo, 0)
            &&& byte64(v, 1) == byte_of(lo, 1)
            &&& byte64(v, 2) == byte_of(lo, 2)
            &&& byte64(v, 3) == byte_of(lo, 3)
            &&& byte64(v, 4) == byte_of(hi, 0)
            &&& byte64(v, 5) == byte_of(hi, 1)
            &&& byte64(v, 6) == byte_of(hi, 2)
            &&& byte64(v, 7) == byte_of(hi, 3)
        }),
{
    lemma_half_bits(v);
}

proof fn lemma_half_bits(v: u64)
    by (bit_vector)
    ensures
        (v % 0x1_0000_0000) % 0x100 == v % 0x100,
        (v % 0x1_0000_0000) / 0x100 % 0x100 == v / 0x100 % 0x100,
        (v % 0x1_0000_0000) / 0x1_0000 % 0x100 == v / 0x1_0000 % 0x100,
        (v % 0x1_0000_0000) / 0x100_0000 % 0x100 == v / 0x100_0000 % 0x100,
        (v % 0x1_0000_0000) / 0x100_0000 == v / 0x100_0000 % 0x100,
        v / 0x1_0000_0000 / 0x100 == v / 0x100_0000_0000,
        v / 0x1_0000_0000 / 0x1_0000 == v / 0x1_0000_0000_0000,
        v / 0x1_0000_0000 / 0x100_0000 == v / 0x100_0000_0000_0000,
        v / 0x100_0000_0000_0000 < 0x100,
{
}

/// The eight bytes of a number put together give the number.
pub proof fn law_number_of_bytes(s: Seq<u8>, at: int, v: u64)
    requires
        forall|j: int| 0 <= j < 8 ==> #[trigger] s[at + j] == byte64(v, j as usize),
    ensures
        qword_at(s, at) == v,
{
    lemma_half_bytes(v);
    crate::machine::law_bytes_of_word((v % 0x1_0000_0000) as u32);
    crate::machine::law_bytes_of_word((v / 0x1_0000_0000) as u32);
    assert(s[at + 0] == byte64(v, 0));
    assert(s[at + 1] == byte64(v, 1));
    assert(s[at + 2] == byte64(v, 2));
    assert(s[at + 3] == byte64(v, 3));
    assert(s[at + 4] == byte64(v, 4));
    assert(s[at + 5] == byte64(v, 5));
    assert(s[at + 6] == byte64(v, 6));
    assert(s[at + 7] == byte64(v, 7));
    assert(dword_at(s, at) == v % 0x1_0000_0000);
    assert(dword_at(s, at + 4) == v / 0x1_0000_0000);
}

/// The four bytes of a doubleword put together give it.
pub proof fn law_doubleword_of_bytes(s: Seq<u8>, at: int, v: u32)
    requires
        forall|j: int| 0 <= j < 4 ==> #[trigger] s[at + j] == byte64(v as u64, j as usize),
    ensures
        dword_at(s, at) == v,
{
    lemma_half_bytes(v as u64);
    crate::machine::law_bytes_of_word(v);
    assert(s[at + 0] == byte64(v as u64, 0));
    assert(s[at + 1] == byte64(v as u64, 1));
    assert(s[at + 2] == byte64(v as u64, 2));
    assert(s[at + 3] == byte64(v as u64, 3));
}

/// A sequence with some bytes from a place on replaced.
pub open spec fn patched(s: Seq<u8>, at: int, bytes: Seq<u8>) -> Seq<u8> {
    Seq::new(
        s.len(),
        |i: int| if at <= i < at + bytes.len() { bytes[i - at] } else { s[i] },
    )
}

/// Byte `j` of an entry of the memory map.
pub open spec fn entry_byte(e: E820, j: int) -> u8 {
    if j < 8 {
        byte64(e.base, j as usize)
    } else if j < 16 {
        byte64(e.size, (j - 8) as usize)
    } else {
        byte64(e.kind as u64, (j - 16) as usize)
    }
}

/// The memory map as bytes, twenty for each entry.
pub open spec fn map_bytes(m: Seq<E820>) -> Seq<u8> {
    Seq::new(20 * m.len(), |k: int| entry_byte(m[k / 20], k % 20))
}

/// The fields of the screen: a text screen of 80 by 25.
pub open spec fn with_text_screen(z: Seq<u8>) -> Seq<u8> {
    z.update(0x04, 0).update(0x06, 3).update(0x07, 80).update(0x0E, 25).update(0x0F, 1).update(
        0x10,
        16,
    )
}

/// The fields of a framebuffer: size, place and the bits of the colours.
pub open spec fn with_framebuffer(z: Seq<u8>, l: Lfb) -> Seq<u8> {
    let a = patched(z.update(0x0F, 0x70), 0x12, le_bytes(l.width as u64, 2));
    let b = patched(a, 0x14, le_bytes(l.height as u64, 2));
    let c = patched(b, 0x16, le_bytes(l.bpp as u64, 2));
    let d = patched(c, 0x18, le_bytes(l.base as u64, 4));
    let e = patched(d, 0x1C, le_bytes(((l.frame_bytes() + 0xFFFF) / 0x1_0000) as u64, 4));
    let f = patched(e, 0x24, le_bytes((l.line_bytes() % 0x1_0000) as u64, 2));
    f.update(0x26, 8).update(0x27, 8).update(0x28, 8).update(0x29, 16).update(0x2A, 8).update(
        0x2B,
        24,
    ).update(0x2C, 8).update(0x2D, 0)
}

/// Bytes of the setup header that an image has.
pub open spec fn header_length(img: Seq<u8>) -> int {
    if img.len() < 0x1F1 {
        0
    } else if img.len() - 0x1F1 < 0x77 {
        img.len() - 0x1F1
    } else {
        0x77
    }
}

/// The page of parameters of a kernel.
#[verifier::opaque]
pub open spec fn zero_page(
    img: Seq<u8>,
    ram_bytes: u64,
    cmdline_ptr: u32,
    initrd: Option<(u32, u32)>,
    lfb: Option<Lfb>,
) -> Seq<u8> {
    let n = header_length(img);
    let blank = Seq::new(4096, |i: int| 0u8);
    let a = with_text_screen(patched(blank, 0x1F1, Seq::new(n as nat, |i: int| img[0x1F1 + i])));
    let b = match lfb {
        Some(l) => with_framebuffer(a, l),
        None => a,
    };
    let c = b.update(0x210, 0xFF);
    let d = match initrd {
        Some((addr, size)) => patched(
            patched(c, 0x218, le_bytes(addr as u64, 4)),
            0x21C,
            le_bytes(size as u64, 4),
        ),
        None => c,
    };
    let e = patched(d, 0x228, le_bytes(cmdline_ptr as u64, 4));
    let m = e820_map(ram_bytes, lfb);
    patched(e.update(0x1E8, m.len() as u8), 0x2D0, map_bytes(m))
}

fn put_le(z: &mut Vec<u8>, at: usize, v: u64, n: usize)
    requires
        n <= 8,
        at + n <= old(z).len(),
    ensures
        final(z)@ == patched(old(z)@, at as int, le_bytes(v, n as nat)),
{
    let mut i: usize = 0;
    while i < n
        invariant
            i <= n <= 8,
            at + n <= z.len(),
            z@ == patched(old(z)@, at as int, le_bytes(v, i as nat)),
        decreases n - i,
    {
        z[at + i] = byte64(v, i);
        i = i + 1;
    }
}

fn put_slice(z: &mut Vec<u8>, at: usize, b: &[u8], from: usize, n: usize)
    requires
        at + n <= old(z).len(),
        from + n <= b.len(),
    ensures
        final(z)@ == patched(
            old(z)@,
            at as int,
            Seq::new(n as nat, |k: int| b@[from + k]),
        ),
{
    let mut i: usize = 0;
    while i < n
        invariant
            i <= n,
            at + n <= z.len(),
            from + n <= b.len(),
            z@ == patched(old(z)@, at as int, Seq::new(i as nat, |k: int| b@[from + k])),
        decreases n - i,
    {
        z[at + i] = b[from + i];
        i = i + 1;
    }
}

fn put_text_screen(z: &mut Vec<u8>)
    requires
        old(z).len() == 4096,
    ensures
        final(z)@ == with_text_screen(old(z)@),
{
    z[0x04] = 0;
    z[0x06] = 0x03;
    z[0x07] = 80;
    z[0x0E] = 25;
    z[0x0F] = 1;
    z[0x10] = 16;
}

fn put_framebuffer(z: &mut Vec<u8>, l: Lfb)
    requires
        old(z).len() == 4096,
        l.line_bytes() * l.height <= u32::MAX,
    ensures
        final(z)@ == with_framebuffer(old(z)@, l),
{
    z[0x0F] = 0x70;
    put_le(z, 0x12, l.width as u64, 2);
    put_le(z, 0x14, l.height as u64, 2);
    put_le(z, 0x16, l.bpp as u64, 2);
    put_le(z, 0x18, l.base as u64, 4);
    put_le(z, 0x1C, (l.frame_bytes() as u64 + 0xFFFF) / 0x1_0000, 4);
    put_le(z, 0x24, (l.line_bytes() % 0x1_0000) as u64, 2);
    z[0x26] = 8;
    z[0x27] = 8;
    z[0x28] = 8;
    z[0x29] = 16;
    z[0x2A] = 8;
    z[0x2B] = 24;
    z[0x2C] = 8;
    z[0x2D] = 0;
}

fn memory_map(ram_bytes: u64, lfb: Option<Lfb>) -> (m: Vec<E820>)
    requires
        lfb matches Some(l) ==> l.base <= ram_bytes,
    ensures
        m@ == e820_map(ram_bytes, lfb),
        3 <= m.len() <= 5,
{
    let mut m: Vec<E820> = Vec::new();
    m.push(E820 { base: 0, size: 0x9_FC00, kind: 1 });
    m.push(E820 { base: 0x9_FC00, size: 0x400, kind: 2 });
    m.push(E820 { base: 0xA_0000, size: 0x6_0000, kind: 2 });
    let end: u64 = match lfb {
        Some(l) => l.base as u64,
        None => ram_bytes,
    };
    if end > 0x10_0000 {
        m.push(E820 { base: 0x10_0000, size: end - 0x10_0000, kind: 1 });
    }
    if let Some(l) = lfb {
        m.push(E820 { base: l.base as u64, size: ram_bytes - l.base as u64, kind: 2 });
    }
    m
}

fn put_map(z: &mut Vec<u8>, m: &Vec<E820>)
    requires
        old(z).len() == 4096,
        m.len() <= 5,
    ensures
        final(z)@ == patched(old(z)@, 0x2D0, map_bytes(m@)),
{
    let mut i: usize = 0;
    while i < m.len()
        invariant
            i <= m.len() <= 5,
            z.len() == 4096,
            z@ == patched(old(z)@, 0x2D0, map_bytes(m@.take(i as int))),
        decreases m.len() - i,
    {
        let at: usize = 0x2D0 + 20 * i;
        let e: E820 = m[i];
        let ghost before = z@;
        put_le(z, at, e.base, 8);
        put_le(z, at + 8, e.size, 8);
        put_le(z, at + 16, e.kind as u64, 4);
        i = i + 1;
        proof {
            let t = m@.take(i as int);
            assert forall|k: int| 0 <= k < 4096 implies z@[k] == patched(
                old(z)@,
                0x2D0,
                map_bytes(t),
            )[k] by {
                if 0x2D0 <= k < 0x2D0 + 20 * i {
                    let q = (k - 0x2D0) / 20;
                    assert(t[q] == m@[q]);
                    if q < i - 1 {
                        assert(m@.take(i - 1)[q] == m@[q]);
                    }
                }
            }
            assert(z@ == patched(old(z)@, 0x2D0, map_bytes(t)));
        }
    }
    assert(m@.take(i as int) == m@);
}

/// The page of parameters for a kernel: a copy of its setup header, the screen, the
/// initial disk and the command line by their addresses, and the memory map.
pub fn build_zero_page(
    img: &[u8],
    ram_bytes: u64,
    cmdline_ptr: u32,
    initrd: Option<(u32, u32)>,
    lfb: Option<Lfb>,
) -> (z: Vec<u8>)
    requires
        lfb matches Some(l) ==> l.base <= ram_bytes && l.line_bytes() * l.height <= u32::MAX,
    ensures
        z@ == zero_page(img@, ram_bytes, cmdline_ptr, initrd, lfb),
        z.len() == 4096,
{
    proof {
        reveal(zero_page);
    }
    let mut z: Vec<u8> = Vec::new();
    while z.len() < 4096
        invariant
            z.len() <= 4096,
            z@ == Seq::new(z.len() as nat, |i: int| 0u8),
        decreases 4096 - z.len(),
    {
        z.push(0);
    }
    let have: usize = if img.len() < 0x1F1 {
        0
    } else {
        img.len() - 0x1F1
    };
    let n: usize = if have < 0x77 {
        have
    } else {
        0x77
    };
    if n > 0 {
        put_slice(&mut z, 0x1F1, img, 0x1F1, n);
    } else {
        assert(z@ == patched(z@, 0x1F1, Seq::new(n as nat, |i: int| img@[0x1F1 + i])));
    }
    put_text_screen(&mut z);
    if let Some(l) = lfb {
        put_framebuffer(&mut z, l);
    }
    z[0x210] = 0xFF;
    if let Some((addr, size)) = initrd {
        put_le(&mut z, 0x218, addr as u64, 4);
        put_le(&mut z, 0x21C, size as u64, 4);
    }
    put_le(&mut z, 0x228, cmdline_ptr as u64, 4);
    let m = memory_map(ram_bytes, lfb);
    z[0x1E8] = m.len() as u8;
    put_map(&mut z, &m);
    z
}

/// How many ranges the memory map of a page has.
pub fn zero_page_e820_count(zp: &[u8]) -> (r: u8)
    requires
        zp.len() > 0x1E8,
    ensures
        r == zp@[0x1E8],
{
    zp[0x1E8]
}

/// The range of a number in a page of parameters.
pub open spec fn e820_at(zp: Seq<u8>, i: int) -> (u64, u64, u32) {
    (
        qword_at(zp, 0x2D0 + 20 * i),
        qword_at(zp, 0x2D0 + 20 * i + 8),
        dword_at(zp, 0x2D0 + 20 * i + 16),
    )
}

/// Start, size and kind of a range of the memory map.
pub fn zero_page_e820(zp: &[u8], i: usize) -> (r: (u64, u64, u32))
    requires
        0x2D0 + 20 * i + 20 <= zp.len(),
    ensures
        r == e820_at(zp@, i as int),
{
    let o: usize = 0x2D0 + 20 * i;
    (read64(zp, o), read64(zp, o + 8), read32(zp, o + 16))
}

/// The memory map is read back from a page as it went in.
pub proof fn law_map_read_back(
    img: Seq<u8>,
    ram_bytes: u64,
    cmdline_ptr: u32,
    initrd: Option<(u32, u32)>,
    lfb: Option<Lfb>,
    i: int,
)
    requires
        0 <= i < e820_map(ram_bytes, lfb).len(),
    ensures
        ({
            let z = zero_page(img, ram_bytes, cmdline_ptr, initrd, lfb);
            let m = e820_map(ram_bytes, lfb);
            &&& z[0x1E8] == m.len()
            &&& e820_at(z, i) == (m[i].base, m[i].size, m[i].kind)
        }),
{
    reveal(zero_page);
    let z = zero_page(img, ram_bytes, cmdline_ptr, initrd, lfb);
    let m = e820_map(ram_bytes, lfb);
    let o = 0x2D0 + 20 * i;
    assert(m.len() <= 5);
    assert forall|j: int| 0 <= j < 20 implies #[trigger] z[o + j] == entry_byte(m[i], j) by {
        assert((20 * i + j) / 20 == i && (20 * i + j) % 20 == j);
    }
    assert forall|j: int| 0 <= j < 8 implies #[trigger] z[o + 8 + j] == byte64(
        m[i].size,
        j as usize,
    ) by {
        assert(z[o + (8 + j)] == entry_byte(m[i], 8 + j));
    }
    assert forall|j: int| 0 <= j < 4 implies #[trigger] z[o + 16 + j] == byte64(
        m[i].kind as u64,
        j as usize,
    ) by {
        assert(z[o + (16 + j)] == entry_byte(m[i], 16 + j));
    }
    assert forall|j: int| 0 <= j < 8 implies #[trigger] z[o + j] == byte64(m[i].base, j as usize) by {
        assert(z[o + j] == entry_byte(m[i], j));
    }
    law_number_of_bytes(z, o, m[i].base);
    law_number_of_bytes(z, o + 8, m[i].size);
    law_doubleword_of_bytes(z, o + 16, m[i].kind);
}

} // verus!
