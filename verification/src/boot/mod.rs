//! Starting an operating system: a disk, a ROM or a Linux kernel is put into memory,
//! and the processor is brought into the state that it expects.

pub mod bzimage;
pub mod elf;

use vstd::prelude::*;
use self::bzimage::{build_zero_page, read32, Lfb, SetupHeader};
use self::elf::{is_elf, parse_vmlinux, Segment};
use crate::cpu::segment::load_seg_pub;
use crate::cpu::state::{Cpu, SegHidden, CS, DS, DX, ES, FS, GS, IF, SI, SS};
use crate::disk::{geometry, Disk, DiskState};
use crate::machine::{BoardState, Machine, State};

verus! {

/// Why something could not be started.
#[derive(Clone, Copy, Debug, PartialEq, Eq, Structural)]
pub enum BootError {
    /// A disk image of no known size.
    UnknownDisk,
    /// A ROM of more than 128 KB.
    RomTooLarge { len: u64 },
    /// A kernel image that ends before its header does.
    TooShort { len: u64 },
    /// A kernel image without the mark of a setup header.
    NoMagic,
    /// A boot protocol before 2.00.
    OldProtocol { version: u16 },
    /// A kernel that does not go to 1 MB.
    NotHigh,
    /// A file that is no 32-bit executable of this kind of processor.
    NotElf,
    /// An executable whose parts lie outside of the file.
    BrokenElf,
    /// A part of the kernel that does not fit into memory.
    SegmentOutside { paddr: u32, end: u64, ram: u64 },
    /// An initial disk that cannot be unpacked in so much memory.
    InitrdTooLarge { packed: u32, needed: u64, ram: u64 },
}

/// That a part of a kernel does not fit into so much memory.
#[verifier::allow_in_spec]
pub fn segment_outside(g: Segment, ram: u64) -> BootError
    returns
        (BootError::SegmentOutside { paddr: g.paddr, end: (g.paddr + g.memsz) as u64, ram }),
{
    BootError::SegmentOutside { paddr: g.paddr, end: g.paddr as u64 + g.memsz as u64, ram }
}

/// Where the page of parameters, the command line, the descriptor table and the
/// kernel go.
pub const ZERO_PAGE_ADDR: u32 = 0x1_0000;
pub const CMDLINE_ADDR: u32 = 0x2_0000;
pub const GDT_ADDR: u32 = 0x800;
pub const KERNEL_BASE: u32 = 0x10_0000;

/// Memory that a kernel works in while it unpacks an initial disk: 68 MB.
pub const KERNEL_WORK: u64 = 71_303_168;

/// The size that a gzip file says it unpacks to; nothing for another file.
pub open spec fn gzip_size(s: Seq<u8>) -> Option<u64> {
    if s.len() < 18 || s[0] != 0x1F || s[1] != 0x8B {
        None
    } else {
        Some(crate::boot::bzimage::dword_at(s, s.len() - 4) as u64)
    }
}

/// Memory that an initial disk needs: itself, what it unpacks to, and room to work.
pub open spec fn ram_needed(s: Seq<u8>) -> int {
    s.len() + (match gzip_size(s) {
        Some(n) => n as int,
        None => s.len() as int,
    }) + KERNEL_WORK
}

fn gzip_isize(data: &[u8]) -> (r: Option<u64>)
    ensures
        r == gzip_size(data@),
{
    if data.len() < 18 || data[0] != 0x1F || data[1] != 0x8B {
        None
    } else {
        Some(read32(data, data.len() - 4) as u64)
    }
}

/// Memory that a machine needs to start with an initial disk.
pub fn initrd_ram_needed(initrd: &[u8]) -> (r: u64)
    requires
        initrd.len() <= 0x3FFF_FFFF_FFFF_FFFF,
    ensures
        r == ram_needed(initrd@),
{
    let unpacked: u64 = match gzip_isize(initrd) {
        Some(n) => n,
        None => initrd.len() as u64,
    };
    initrd.len() as u64 + unpacked + KERNEL_WORK
}

/// A file that may be missing.
pub open spec fn file_of(f: Option<&[u8]>) -> Option<Seq<u8>> {
    match f {
        Some(b) => Some(b@),
        None => None,
    }
}

/// The descriptor table of a kernel: flat code at 0x10 and flat data at 0x18.
pub open spec fn gdt_bytes() -> Seq<u8> {
    seq![
        0u8, 0u8, 0u8, 0u8, 0u8, 0u8, 0u8, 0u8,
        0u8, 0u8, 0u8, 0u8, 0u8, 0u8, 0u8, 0u8,
        0xFFu8, 0xFFu8, 0u8, 0u8, 0u8, 0x9Au8, 0xCFu8, 0u8,
        0xFFu8, 0xFFu8, 0u8, 0u8, 0u8, 0x92u8, 0xCFu8, 0u8,
    ]
}

/// A setup header for a kernel that came without one.
pub open spec fn made_header(entry: u32) -> Seq<u8> {
    let blank = Seq::new(0x268, |i: int| 0u8);
    let a = blank.update(0x202, 0x48).update(0x203, 0x64).update(0x204, 0x72).update(0x205, 0x53);
    let b = a.update(0x206, 0x0C).update(0x207, 0x02).update(0x211, 1);
    b.update(0x214, crate::machine::byte_of(entry, 0)).update(
        0x215,
        crate::machine::byte_of(entry, 1),
    ).update(0x216, crate::machine::byte_of(entry, 2)).update(
        0x217,
        crate::machine::byte_of(entry, 3),
    )
}

/// Address of an initial disk of so many bytes: below the last megabyte of memory,
/// at the start of a page.
pub open spec fn initrd_address(memory: int, size: int) -> int {
    (memory - size - 0x10_0000) / 0x1000 * 0x1000
}

impl State {
    /// The framebuffer that a kernel is told of lies in memory.
    pub open spec fn lfb_ok(self) -> bool {
        self.board.lfb matches Some(l) ==> l.base <= self.mem.len() && l.line_bytes() * l.height
            <= u32::MAX
    }

    /// A command line, with a zero after it.
    #[verifier::opaque]
    pub open spec fn cmdline_stored(self, cmdline: Seq<u8>) -> State {
        self.stored(CMDLINE_ADDR, cmdline).with_phys8(
            CMDLINE_ADDR.wrapping_add(cmdline.len() as u32),
            0,
        )
    }

    /// An initial disk put near the top of memory: where it is and how large, or that
    /// it cannot be unpacked. Where memory ends is an address: all 4 GB end at zero.
    #[verifier::opaque]
    pub open spec fn initrd_placed(self, initrd: Option<Seq<u8>>) -> (
        State,
        Result<Option<(u32, u32)>, BootError>,
    ) {
        match initrd {
            None => (self, Ok(None)),
            Some(data) => {
                let needed = ram_needed(data);
                let top = self.mem.len() as u32;
                if needed > top {
                    (
                        self,
                        Err(
                            BootError::InitrdTooLarge {
                                packed: data.len() as u32,
                                needed: needed as u64,
                                ram: top as u64,
                            },
                        ),
                    )
                } else {
                    let addr = initrd_address(top as int, data.len() as int) as u32;
                    (self.stored(addr, data), Ok(Some((addr, data.len() as u32))))
                }
            },
        }
    }

    pub open spec fn seg_loaded(self, idx: usize, sel: u16) -> Option<State> {
        match self.load_seg(idx, sel) {
            None => None,
            Some((s, _)) => Some(s),
        }
    }

    /// The segment registers of a kernel, from the descriptor table.
    #[verifier::opaque]
    pub open spec fn segments_loaded(self) -> Option<State> {
        match self.seg_loaded(CS, 0x10) {
            None => None,
            Some(s1) => match s1.seg_loaded(DS, 0x18) {
                None => None,
                Some(s2) => match s2.seg_loaded(ES, 0x18) {
                    None => None,
                    Some(s3) => match s3.seg_loaded(FS, 0x18) {
                        None => None,
                        Some(s4) => match s4.seg_loaded(GS, 0x18) {
                            None => None,
                            Some(s5) => s5.seg_loaded(SS, 0x18),
                        },
                    },
                },
            },
        }
    }

    /// The processor at the entry of a kernel: protected mode, flat segments, the
    /// address of the page of parameters in ESI, interrupts off.
    #[verifier::opaque]
    pub open spec fn kernel_entered(self, entry: u32) -> Option<State> {
        let s = self.stored(GDT_ADDR, gdt_bytes());
        let t = s.with_cpu(
            Cpu { gdtr_base: GDT_ADDR, gdtr_limit: 31, cr0: s.cpu.cr0 | 1, ..s.cpu },
        );
        match t.segments_loaded() {
            None => None,
            Some(u) => Some(
                u.with_cpu(
                    u.cpu.with_reg(SI, ZERO_PAGE_ADDR).with_ip(entry).with_flag(IF, false),
                ),
            ),
        }
    }

    /// The last part of starting a kernel: command line, initial disk, parameters and
    /// the state of the processor.
    #[verifier::opaque]
    pub open spec fn linux_booted(
        self,
        header: Seq<u8>,
        cmdline: Seq<u8>,
        initrd: Option<Seq<u8>>,
        entry: u32,
    ) -> Option<(State, Result<(), BootError>)> {
        let (s, placed) = self.cmdline_stored(cmdline).initrd_placed(initrd);
        match placed {
            Err(e) => Some((s, Err(e))),
            Ok(loc) => {
                let z = crate::boot::bzimage::zero_page(
                    header,
                    s.mem.len() as u64,
                    CMDLINE_ADDR,
                    loc,
                    s.board.lfb,
                );
                match s.stored(ZERO_PAGE_ADDR, z).kernel_entered(entry) {
                    None => None,
                    Some(t) => Some((t, Ok(()))),
                }
            },
        }
    }

    /// The start of a compressed kernel.
    #[verifier::opaque]
    pub open spec fn bzimage_booted(
        self,
        image: Seq<u8>,
        cmdline: Seq<u8>,
        initrd: Option<Seq<u8>>,
    ) -> Option<(State, Result<(), BootError>)> {
        match SetupHeader::parsed(image) {
            Err(e) => Some((self, Err(e))),
            Ok(h) => if !h.loaded_high() {
                Some((self, Err(BootError::NotHigh)))
            } else {
                let body = if h.kernel_offset() <= image.len() {
                    image.subrange(h.kernel_offset() as int, image.len() as int)
                } else {
                    Seq::empty()
                };
                self.self_tested().stored(KERNEL_BASE, body).linux_booted(
                    image,
                    cmdline,
                    initrd,
                    h.code32_start,
                )
            },
        }
    }

    /// A part of a kernel put into memory, with zeros for what the file does not
    /// have.
    #[verifier::opaque]
    pub open spec fn segment_placed(self, image: Seq<u8>, g: Segment) -> State {
        self.stored(
            g.paddr,
            image.subrange(g.offset as int, g.offset + g.filesz),
        ).stored(
            g.paddr.wrapping_add(g.filesz),
            Seq::new((g.memsz - g.filesz) as nat, |i: int| 0u8),
        )
    }

    /// Parts `k` and on; it ends at the first that does not fit, and names it.
    #[verifier::opaque]
    pub open spec fn segments_placed(self, image: Seq<u8>, gs: Seq<Segment>, k: nat) -> (
        State,
        Option<Segment>,
    )
        decreases gs.len() - k,
    {
        if k >= gs.len() {
            (self, None)
        } else if gs[k as int].paddr + gs[k as int].memsz > self.mem.len() {
            (self, Some(gs[k as int]))
        } else {
            self.segment_placed(image, gs[k as int]).segments_placed(image, gs, k + 1)
        }
    }

    /// The start of a kernel that is not compressed.
    #[verifier::opaque]
    pub open spec fn vmlinux_booted(
        self,
        image: Seq<u8>,
        cmdline: Seq<u8>,
        initrd: Option<Seq<u8>>,
    ) -> Option<(State, Result<(), BootError>)> {
        if !crate::boot::elf::is_kernel(image) {
            Some((self, Err(BootError::NotElf)))
        } else {
            match crate::boot::elf::kernel_segments(image) {
                None => Some((self, Err(BootError::BrokenElf))),
                Some(gs) => {
                    let entry = crate::boot::bzimage::dword_at(image, 0x18);
                    let (s, outside) = self.self_tested().segments_placed(image, gs, 0);
                    match outside {
                        Some(g) => Some((s, Err(segment_outside(g, s.mem.len() as u64)))),
                        None => s.linux_booted(made_header(entry), cmdline, initrd, entry),
                    }
                },
            }
        }
    }

    /// The start of a kernel of either kind.
    pub open spec fn any_linux_booted(
        self,
        image: Seq<u8>,
        cmdline: Seq<u8>,
        initrd: Option<Seq<u8>>,
    ) -> Option<(State, Result<(), BootError>)> {
        if crate::boot::elf::has_mark(image) {
            self.vmlinux_booted(image, cmdline, initrd)
        } else {
            self.bzimage_booted(image, cmdline, initrd)
        }
    }

    /// The start from a floppy disk: the disk goes into the drive and its first
    /// sector to 0x7C00.
    #[verifier::opaque]
    pub open spec fn disk_booted(self, d: DiskState) -> State {
        let s = self.with_board(BoardState { disk: Some(d), ..self.board }).self_tested().stored(
            0x7C00,
            d.image.subrange(0, 512),
        );
        s.with_cpu(
            (Cpu { ip: 0x7C00, ..s.cpu.with_sreg(CS, 0) }).with_reg(DX, 0),
        )
    }

    /// The start of a ROM: it ends at 1 MB, and execution starts at the reset vector
    /// without the firmware.
    #[verifier::opaque]
    pub open spec fn rom_booted(self, rom: Seq<u8>) -> State {
        let s = self.stored((0x10_0000 - rom.len()) as u32, rom);
        let t = s.with_board(BoardState { bios_hle: false, ..s.board });
        t.with_cpu(Cpu { ip: 0xFFF0, ..t.cpu.with_sreg(CS, 0xF000) })
    }
}

fn gdt() -> (r: Vec<u8>)
    ensures
        r@ == gdt_bytes(),
{
    let mut g: Vec<u8> = Vec::new();
    while g.len() < 32
        invariant
            g.len() <= 32,
            g@ == Seq::new(g.len() as nat, |i: int| 0u8),
        decreases 32 - g.len(),
    {
        g.push(0);
    }
    g[16] = 0xFF;
    g[17] = 0xFF;
    g[21] = 0x9A;
    g[22] = 0xCF;
    g[24] = 0xFF;
    g[25] = 0xFF;
    g[29] = 0x92;
    g[30] = 0xCF;
    g
}

fn make_header(entry: u32) -> (r: Vec<u8>)
    ensures
        r@ == made_header(entry),
{
    let mut h: Vec<u8> = Vec::new();
    while h.len() < 0x268
        invariant
            h.len() <= 0x268,
            h@ == Seq::new(h.len() as nat, |i: int| 0u8),
        decreases 0x268 - h.len(),
    {
        h.push(0);
    }
    h[0x202] = 0x48;
    h[0x203] = 0x64;
    h[0x204] = 0x72;
    h[0x205] = 0x53;
    h[0x206] = 0x0C;
    h[0x207] = 0x02;
    h[0x211] = 1;
    h[0x214] = crate::machine::byte_of(entry, 0);
    h[0x215] = crate::machine::byte_of(entry, 1);
    h[0x216] = crate::machine::byte_of(entry, 2);
    h[0x217] = crate::machine::byte_of(entry, 3);
    h
}

impl Machine {
    /// Starts from a floppy disk, given as an image.
    pub fn boot_from_disk(&mut self, image: Vec<u8>) -> (r: Result<(), BootError>)
        ensures
            match geometry(image@.len() as usize) {
                None => r == Err::<(), BootError>(BootError::UnknownDisk) && final(self)@
                    == old(self)@,
                Some((cylinders, heads, sectors)) => r is Ok && final(self)@
                    == old(self)@.disk_booted(
                    DiskState { image: image@, cylinders, heads, sectors },
                ),
            },
    {
        proof {
            reveal(State::disk_booted);
        }
        match Disk::from_image(image) {
            None => Err(BootError::UnknownDisk),
            Some(d) => {
                let mut first: Vec<u8> = Vec::new();
                while first.len() < 512
                    invariant
                        d.image.len() >= 512,
                        first.len() <= 512,
                        first@ == d.image@.subrange(0, first.len() as int),
                    decreases 512 - first.len(),
                {
                    let i: usize = first.len();
                    first.push(d.image[i]);
                }
                self.board.disk = Some(d);
                self.power_on_self_test();
                self.store(0x7C00, first.as_slice());
                self.cpu.set_cs_ip(0x0000, 0x7C00);
                self.cpu.set_reg32(DX, 0);
                Ok(())
            },
        }
    }

    /// Starts a ROM as it is, without the firmware.
    pub fn boot_rom(&mut self, rom: &[u8]) -> (r: Result<(), BootError>)
        ensures
            if rom.len() > 0x2_0000 {
                &&& final(self)@ == old(self)@
                &&& r == Err::<(), BootError>(BootError::RomTooLarge { len: rom.len() as u64 })
            } else {
                r is Ok && final(self)@ == old(self)@.rom_booted(rom@)
            },
    {
        proof {
            reveal(State::rom_booted);
        }
        if rom.len() > 0x2_0000 {
            return Err(BootError::RomTooLarge { len: rom.len() as u64 });
        }
        self.store(0x10_0000 - rom.len() as u32, rom);
        self.board.bios_hle = false;
        self.cpu.set_cs_ip(0xF000, 0xFFF0);
        Ok(())
    }

    /// Starts a compressed kernel without an initial disk.
    pub fn boot_bzimage(&mut self, image: &[u8], cmdline: &[u8]) -> (r: Result<(), BootError>)
        requires
            old(self)@.lfb_ok(),
            old(self)@.bzimage_booted(image@, cmdline@, None) is Some,
        ensures
            Some((final(self)@, r)) == old(self)@.bzimage_booted(image@, cmdline@, None),
    {
        self.boot_bzimage_with_initrd(image, cmdline, None)
    }

    /// Starts a kernel of either kind, by what the file is.
    pub fn boot_linux_with_initrd(
        &mut self,
        image: &[u8],
        cmdline: &[u8],
        initrd: Option<&[u8]>,
    ) -> (r: Result<(), BootError>)
        requires
            old(self)@.lfb_ok(),
            initrd matches Some(d) ==> d.len() <= 0x3FFF_FFFF_FFFF_FFFF,
            old(self)@.any_linux_booted(image@, cmdline@, file_of(initrd)) is Some,
        ensures
            Some((final(self)@, r)) == old(self)@.any_linux_booted(
                image@,
                cmdline@,
                file_of(initrd),
            ),
    {
        if is_elf(image) {
            self.boot_vmlinux_with_initrd(image, cmdline, initrd)
        } else {
            self.boot_bzimage_with_initrd(image, cmdline, initrd)
        }
    }

    fn place_segment(&mut self, image: &[u8], g: Segment)
        requires
            g.offset + g.filesz <= image.len(),
            g.filesz <= g.memsz,
        ensures
            final(self)@ == old(self)@.segment_placed(image@, g),
    {
        proof {
            reveal(State::segment_placed);
        }
        let part: &[u8] = vstd::slice::slice_subrange(
            image,
            g.offset as usize,
            g.offset as usize + g.filesz as usize,
        );
        self.store(g.paddr, part);
        let rest: usize = (g.memsz - g.filesz) as usize;
        let zeros: Vec<u8> = vec![0u8; rest];
        assert(zeros@ == Seq::new((g.memsz - g.filesz) as nat, |i: int| 0u8));
        self.store(g.paddr.wrapping_add(g.filesz), zeros.as_slice());
    }

    fn place_segments(&mut self, image: &[u8], gs: &Vec<Segment>) -> (r: Option<Segment>)
        requires
            crate::boot::elf::kernel_segments(image@) == Some(gs@),
        ensures
            (final(self)@, r) == old(self)@.segments_placed(image@, gs@, 0),
    {
        let mut k: usize = 0;
        while k < gs.len()
            invariant
                k <= gs.len(),
                crate::boot::elf::kernel_segments(image@) == Some(gs@),
                self@.segments_placed(image@, gs@, k as nat) == old(self)@.segments_placed(
                    image@,
                    gs@,
                    0,
                ),
            decreases gs.len() - k,
        {
            proof {
                reveal_with_fuel(State::segments_placed, 2);
                crate::boot::elf::lemma_segments_in_file(image@, gs@, k as int);
            }
            let g: Segment = gs[k];
            if g.paddr as u64 + g.memsz as u64 > self.mem.len() as u64 {
                return Some(g);
            }
            self.place_segment(image, g);
            k = k + 1;
        }
        proof {
            reveal_with_fuel(State::segments_placed, 2);
        }
        None
    }

    /// Starts a kernel that is not compressed.
    pub fn boot_vmlinux_with_initrd(
        &mut self,
        image: &[u8],
        cmdline: &[u8],
        initrd: Option<&[u8]>,
    ) -> (r: Result<(), BootError>)
        requires
            old(self)@.lfb_ok(),
            initrd matches Some(d) ==> d.len() <= 0x3FFF_FFFF_FFFF_FFFF,
            old(self)@.vmlinux_booted(image@, cmdline@, file_of(initrd)) is Some,
        ensures
            Some((final(self)@, r)) == old(self)@.vmlinux_booted(image@, cmdline@, file_of(initrd)),
    {
        proof {
            reveal(State::vmlinux_booted);
            lemma_self_test_keeps(self@);
        }
        match parse_vmlinux(image) {
            Err(e) => Err(e),
            Ok(v) => {
                self.power_on_self_test();
                proof {
                    lemma_segments_placed_keeps(self@, image@, v.segments@, 0);
                }
                if let Some(g) = self.place_segments(image, &v.segments) {
                    return Err(segment_outside(g, self.mem.len() as u64));
                }
                let header = make_header(v.entry);
                self.finish_linux_boot(header.as_slice(), cmdline, initrd, v.entry)
            },
        }
    }

    /// Starts a compressed kernel.
    pub fn boot_bzimage_with_initrd(
        &mut self,
        image: &[u8],
        cmdline: &[u8],
        initrd: Option<&[u8]>,
    ) -> (r: Result<(), BootError>)
        requires
            old(self)@.lfb_ok(),
            initrd matches Some(d) ==> d.len() <= 0x3FFF_FFFF_FFFF_FFFF,
            old(self)@.bzimage_booted(image@, cmdline@, file_of(initrd)) is Some,
        ensures
            Some((final(self)@, r)) == old(self)@.bzimage_booted(image@, cmdline@, file_of(initrd)),
    {
        proof {
            reveal(State::bzimage_booted);
            lemma_self_test_keeps(self@);
        }
        let h = match SetupHeader::parse(image) {
            Err(e) => {
                return Err(e);
            },
            Ok(h) => h,
        };
        if !h.loaded_high() {
            return Err(BootError::NotHigh);
        }
        self.power_on_self_test();
        let at: usize = h.kernel_offset();
        let ghost s = self@;
        if at <= image.len() {
            let body: &[u8] = vstd::slice::slice_subrange(image, at, image.len());
            proof {
                lemma_stored_keeps(s, KERNEL_BASE, body@, 0);
            }
            self.store(KERNEL_BASE, body);
        } else {
            proof {
                reveal(State::stored_from);
            }
        }
        self.finish_linux_boot(image, cmdline, initrd, h.code32_start)
    }

    fn place_initrd(&mut self, initrd: Option<&[u8]>) -> (r: Result<Option<(u32, u32)>, BootError>)
        requires
            initrd matches Some(d) ==> d.len() <= 0x3FFF_FFFF_FFFF_FFFF,
        ensures
            (final(self)@, r) == old(self)@.initrd_placed(file_of(initrd)),
    {
        proof {
            reveal(State::initrd_placed);
        }
        match initrd {
            None => Ok(None),
            Some(data) => {
                let needed: u64 = initrd_ram_needed(data);
                let top: u32 = self.mem.len() as u32;
                if needed > top as u64 {
                    return Err(
                        BootError::InitrdTooLarge {
                            packed: data.len() as u32,
                            needed,
                            ram: top as u64,
                        },
                    );
                }
                let size: u32 = data.len() as u32;
                let addr: u32 = (top - size - 0x10_0000) / 0x1000 * 0x1000;
                self.store(addr, data);
                Ok(Some((addr, size)))
            },
        }
    }

    fn load_segments(&mut self)
        requires
            old(self)@.segments_loaded() is Some,
        ensures
            Some(final(self)@) == old(self)@.segments_loaded(),
    {
        proof {
            reveal(State::segments_loaded);
        }
        load_seg_pub(self, CS, 0x10);
        load_seg_pub(self, DS, 0x18);
        load_seg_pub(self, ES, 0x18);
        load_seg_pub(self, FS, 0x18);
        load_seg_pub(self, GS, 0x18);
        load_seg_pub(self, SS, 0x18);
    }

    fn enter_kernel(&mut self, entry: u32)
        requires
            old(self)@.kernel_entered(entry) is Some,
        ensures
            Some(final(self)@) == old(self)@.kernel_entered(entry),
    {
        proof {
            reveal(State::kernel_entered);
        }
        let g = gdt();
        self.store(GDT_ADDR, g.as_slice());
        self.cpu.gdtr_base = GDT_ADDR;
        self.cpu.gdtr_limit = 31;
        self.cpu.cr0 = self.cpu.cr0 | 1;
        self.load_segments();
        self.cpu.set_reg32(SI, ZERO_PAGE_ADDR);
        self.cpu.set_ip(entry);
        self.cpu.set_flag(IF, false);
    }

    fn finish_linux_boot(
        &mut self,
        header: &[u8],
        cmdline: &[u8],
        initrd: Option<&[u8]>,
        entry: u32,
    ) -> (r: Result<(), BootError>)
        requires
            old(self)@.lfb_ok(),
            initrd matches Some(d) ==> d.len() <= 0x3FFF_FFFF_FFFF_FFFF,
            old(self)@.linux_booted(header@, cmdline@, file_of(initrd), entry) is Some,
        ensures
            Some((final(self)@, r)) == old(self)@.linux_booted(
                header@,
                cmdline@,
                file_of(initrd),
                entry,
            ),
    {
        proof {
            reveal(State::linux_booted);
            reveal(State::cmdline_stored);
            reveal(State::with_phys8);
            reveal(State::initrd_placed);
            lemma_stored_keeps(self@, CMDLINE_ADDR, cmdline@, 0);
        }
        self.store(CMDLINE_ADDR, cmdline);
        self.write_phys8(CMDLINE_ADDR.wrapping_add(cmdline.len() as u32), 0);
        proof {
            if let Some(d) = initrd {
                lemma_stored_keeps(
                    self@,
                    initrd_address(self@.mem.len() as u32 as int, d@.len() as int) as u32,
                    d@,
                    0,
                );
            }
        }
        let loc: Option<(u32, u32)> = match self.place_initrd(initrd) {
            Err(e) => {
                return Err(e);
            },
            Ok(loc) => loc,
        };
        let lfb: Option<Lfb> = self.board.lfb;
        let z = build_zero_page(header, self.mem.len() as u64, CMDLINE_ADDR, loc, lfb);
        self.store(ZERO_PAGE_ADDR, z.as_slice());
        self.enter_kernel(entry);
        Ok(())
    }
}

/// Storing bytes leaves all but memory and the decode cache alone.
proof fn lemma_stored_keeps(s: State, pa: u32, bytes: Seq<u8>, k: nat)
    ensures
        s.stored_from(pa, bytes, k).mem.len() == s.mem.len(),
        s.stored_from(pa, bytes, k).board == s.board,
        s.stored_from(pa, bytes, k).cpu == s.cpu,
    decreases bytes.len() - k,
{
    reveal_with_fuel(State::stored_from, 2);
    reveal(State::with_phys8);
    if k < bytes.len() {
        lemma_stored_keeps(
            s.with_phys8(pa.wrapping_add(k as u32), bytes[k as int]),
            pa,
            bytes,
            k + 1,
        );
    }
}

proof fn lemma_segments_placed_keeps(s: State, image: Seq<u8>, gs: Seq<Segment>, k: nat)
    ensures
        s.segments_placed(image, gs, k).0.mem.len() == s.mem.len(),
        s.segments_placed(image, gs, k).0.board == s.board,
        s.segments_placed(image, gs, k).0.cpu == s.cpu,
    decreases gs.len() - k,
{
    reveal_with_fuel(State::segments_placed, 2);
    reveal(State::segment_placed);
    if k < gs.len() && gs[k as int].paddr + gs[k as int].memsz <= s.mem.len() {
        let g = gs[k as int];
        let a = image.subrange(g.offset as int, g.offset + g.filesz);
        let b = Seq::new((g.memsz - g.filesz) as nat, |i: int| 0u8);
        lemma_stored_keeps(s, g.paddr, a, 0);
        lemma_stored_keeps(s.stored(g.paddr, a), g.paddr.wrapping_add(g.filesz), b, 0);
        lemma_segments_placed_keeps(s.segment_placed(image, g), image, gs, k + 1);
    }
}

proof fn lemma_writes_keep(s: State, lin: u32, v: u32)
    ensures
        s.write8(lin, v as u8).board == s.board,
        s.write8(lin, v as u8).cpu == s.cpu,
        s.write8(lin, v as u8).mem.len() == s.mem.len(),
        s.write16(lin, v as u16).board == s.board,
        s.write16(lin, v as u16).cpu == s.cpu,
        s.write16(lin, v as u16).mem.len() == s.mem.len(),
{
    reveal(State::with_phys8);
    reveal(State::write8);
    reveal(State::write16);
}

proof fn lemma_vectors_keep(s: State, n: nat)
    ensures
        s.vectors_from(n).board == s.board,
        s.vectors_from(n).cpu == s.cpu,
        s.vectors_from(n).mem.len() == s.mem.len(),
    decreases 256 - n,
{
    reveal_with_fuel(State::vectors_from, 2);
    if n < 256 {
        let t = s.write16((4 * n) as u32, n as u16);
        lemma_writes_keep(s, (4 * n) as u32, n as u32);
        lemma_writes_keep(t, (4 * n + 2) as u32, 0xF000);
        lemma_vectors_keep(t.write16((4 * n + 2) as u32, 0xF000), n + 1);
    }
}

proof fn lemma_cursors_keep(s: State, p: nat)
    ensures
        s.cursors_from(p).board == s.board,
        s.cursors_from(p).cpu == s.cpu,
        s.cursors_from(p).mem.len() == s.mem.len(),
    decreases 8 - p,
{
    reveal_with_fuel(State::cursors_from, 2);
    if p < 8 {
        lemma_writes_keep(s, (0x450 + 2 * p) as u32, 0);
        lemma_cursors_keep(s.write16((0x450 + 2 * p) as u32, 0), p + 1);
    }
}

/// The self test leaves the board and the size of memory alone.
proof fn lemma_self_test_keeps(s: State)
    ensures
        s.self_tested().board == s.board,
        s.self_tested().cpu == s.cpu,
        s.self_tested().mem.len() == s.mem.len(),
{
    reveal(State::self_tested);
    reveal(State::pic_started);
    reveal(State::pit_started);
    assert(s.rom_id_installed().board == s.board && s.rom_id_installed().mem.len() == s.mem.len()
        && s.rom_id_installed().cpu == s.cpu) by {
        reveal(State::rom_id_installed);
        assert forall|t: State, a: u32, v: u8|
            (#[trigger] t.write8(a, v)).board == t.board && t.write8(a, v).mem.len()
                == t.mem.len() && t.write8(a, v).cpu == t.cpu by {
            lemma_writes_keep(t, a, v as u32);
        }
    }
    let t = s.rom_id_installed();
    lemma_vectors_keep(t, 0);
    let u = t.vectors_from(0);
    assert(u.data_area_installed().board == u.board && u.data_area_installed().mem.len()
        == u.mem.len() && u.data_area_installed().cpu == u.cpu) by {
        reveal(State::data_area_installed);
        assert forall|t: State, a: u32, v: u8|
            (#[trigger] t.write8(a, v)).board == t.board && t.write8(a, v).mem.len()
                == t.mem.len() && t.write8(a, v).cpu == t.cpu by {
            lemma_writes_keep(t, a, v as u32);
        }
        assert forall|t: State, a: u32, v: u16|
            (#[trigger] t.write16(a, v)).board == t.board && t.write16(a, v).mem.len()
                == t.mem.len() && t.write16(a, v).cpu == t.cpu by {
            lemma_writes_keep(t, a, v as u32);
        }
        assert forall|t: State|
            (#[trigger] t.cursors_from(0)).board == t.board && t.cursors_from(0).mem.len()
                == t.mem.len() && t.cursors_from(0).cpu == t.cpu by {
            lemma_cursors_keep(t, 0);
        }
    }
}

/// A flat segment with the access byte of code or of data.
pub open spec fn flat_segment(access: u8) -> SegHidden {
    SegHidden { base: 0, limit: 0xFFFF_FFFF, access, big: true }
}

impl State {
    /// Ring 0 with the descriptor table of a kernel in memory, without paging.
    pub open spec fn has_kernel_table(self) -> bool {
        &&& self.cpu.pe()
        &&& !self.cpu.pg()
        &&& !self.cpu.vm86()
        &&& self.cpu.cpl() == 0
        &&& self.cpu.gdtr_base == GDT_ADDR
        &&& self.cpu.gdtr_limit == 31
        &&& self.mem.len() >= 0x820
        &&& forall|k: int| 0 <= k < 32 ==> #[trigger] self.mem[0x800 + k] == gdt_bytes()[k]
    }
}

proof fn lemma_table_read(s: State, sel: u16)
    requires
        s.has_kernel_table(),
        sel == 0x10 || sel == 0x18,
    ensures
        s.read_descriptor(sel) == (s, 0x0000_FFFFu32, if sel == 0x10 {
            0x00CF_9A00u32
        } else {
            0x00CF_9200u32
        }),
{
    reveal(State::read_descriptor);
    reveal(State::read32);
    reveal(State::read16);
    reveal(State::read8);
    reveal(State::phys8);
    reveal(State::translate);
    let g = gdt_bytes();
    let at = if sel == 0x10 { 16int } else { 24int };
    assert(s.mem[0x800 + at] == g[at]);
    assert(s.mem[0x800 + (at + 1)] == g[at + 1]);
    assert(s.mem[0x800 + (at + 2)] == g[at + 2]);
    assert(s.mem[0x800 + (at + 3)] == g[at + 3]);
    assert(s.mem[0x800 + (at + 4)] == g[at + 4]);
    assert(s.mem[0x800 + (at + 5)] == g[at + 5]);
    assert(s.mem[0x800 + (at + 6)] == g[at + 6]);
    assert(s.mem[0x800 + (at + 7)] == g[at + 7]);
}

proof fn lemma_flat_loaded(s: State, idx: usize)
    requires
        s.has_kernel_table(),
        idx < 6,
    ensures
        ({
            let sel: u16 = if idx == CS { 0x10 } else { 0x18 };
            let access: u8 = if idx == CS { 0x9A } else { 0x92 };
            let t = s.with_cpu(s.cpu.with_segment(idx, sel, flat_segment(access)));
            &&& s.seg_loaded(idx, sel) == Some(t)
            &&& t.has_kernel_table()
        }),
{
    reveal(State::load_seg);
    reveal(crate::cpu::segment::load_fault);
    let sel: u16 = if idx == CS { 0x10 } else { 0x18 };
    lemma_table_read(s, sel);
    assert(0x9Au8 & 0x10 != 0 && 0x9Au8 & 0x08 != 0 && 0x9Au8 & 0x02 != 0 && 0x9Au8 & 0x04 == 0
        && 0x9Au8 & 0x80 != 0 && 0x92u8 & 0x10 != 0 && 0x92u8 & 0x08 == 0 && 0x92u8 & 0x02 != 0
        && 0x92u8 & 0x04 == 0 && 0x92u8 & 0x80 != 0 && 0x10u16 & 3 == 0) by (bit_vector);
}

/// A kernel gets the processor that it expects: protected mode without paging, flat
/// segments over all of memory, interrupts off, the address of the page of parameters
/// in ESI, and execution at its entry. The machine must be one that is not in user
/// code and has memory for the descriptor table.
pub proof fn law_kernel_entry(s: State, entry: u32)
    requires
        !s.cpu.pg(),
        s.cpu.flags & crate::cpu::state::VM == 0,
        s.cpu.sregs[CS as int] & 3 == 0,
        s.mem.len() >= 0x820,
    ensures
        s.kernel_entered(entry) matches Some(t) && {
            &&& t.cpu.ip == entry
            &&& t.cpu.reg32(SI) == ZERO_PAGE_ADDR
            &&& t.cpu.pe() && !t.cpu.pg() && !t.cpu.flag(IF)
            &&& t.cpu.sregs[CS as int] == 0x10 && t.cpu.hidden[CS as int] == flat_segment(0x9A)
            &&& forall|i: int|
                #![trigger t.cpu.hidden[i]]
                0 <= i < 6 && i != CS ==> t.cpu.sregs[i] == 0x18 && t.cpu.hidden[i]
                    == flat_segment(0x92)
            &&& t.mem == s.stored(GDT_ADDR, gdt_bytes()).mem
        },
{
    reveal(State::kernel_entered);
    reveal(State::segments_loaded);
    crate::machine::law_stored(s, GDT_ADDR, gdt_bytes());
    let a = s.stored(GDT_ADDR, gdt_bytes());
    let cr0 = a.cpu.cr0;
    assert((cr0 | 1) & 1 != 0 && (cr0 | 1) & 0x8000_0000 == cr0 & 0x8000_0000) by (bit_vector);
    let t = a.with_cpu(
        Cpu { gdtr_base: GDT_ADDR, gdtr_limit: 31, cr0: a.cpu.cr0 | 1, ..a.cpu },
    );
    assert forall|k: int| 0 <= k < 32 implies #[trigger] t.mem[0x800 + k] == gdt_bytes()[k] by {
        assert(t.mem[0x800 + k] == gdt_bytes()[0x800 + k - 0x800]);
    }
    assert(t.has_kernel_table());
    lemma_flat_loaded(t, CS);
    let t1 = t.seg_loaded(CS, 0x10)->0;
    lemma_flat_loaded(t1, DS);
    let t2 = t1.seg_loaded(DS, 0x18)->0;
    lemma_flat_loaded(t2, ES);
    let t3 = t2.seg_loaded(ES, 0x18)->0;
    lemma_flat_loaded(t3, FS);
    let t4 = t3.seg_loaded(FS, 0x18)->0;
    lemma_flat_loaded(t4, GS);
    let t5 = t4.seg_loaded(GS, 0x18)->0;
    lemma_flat_loaded(t5, SS);
    let u = t5.seg_loaded(SS, 0x18)->0;
    crate::cpu::state::lemma_full_mask(entry);
    let c = u.cpu.with_reg(SI, ZERO_PAGE_ADDR).with_ip(entry);
    assert(!c.with_flag(IF, false).flag(IF) && c.with_flag(IF, false).regs == c.regs && c.with_flag(
        IF,
        false,
    ).hidden == c.hidden && c.with_flag(IF, false).sregs == c.sregs && c.with_flag(IF, false).ip
        == c.ip && c.with_flag(IF, false).cr0 == c.cr0) by {
        lemma_interrupts_off(c);
    }
}

proof fn lemma_interrupts_off(c: Cpu)
    ensures
        !c.with_flag(IF, false).flag(IF),
        c.with_flag(IF, false).regs == c.regs,
        c.with_flag(IF, false).hidden == c.hidden,
        c.with_flag(IF, false).sregs == c.sregs,
        c.with_flag(IF, false).ip == c.ip,
        c.with_flag(IF, false).cr0 == c.cr0,
{
    reveal(Cpu::with_flag);
    crate::cpu::state::lemma_with_flag(c, IF, false);
    let f = c.eflags();
    assert((f & !0x0200u32) & 0x0200 == 0) by (bit_vector);
}

proof fn lemma_tail_possible(
    s: State,
    header: Seq<u8>,
    cmdline: Seq<u8>,
    initrd: Option<Seq<u8>>,
    entry: u32,
)
    requires
        !s.cpu.pg(),
        s.cpu.flags & crate::cpu::state::VM == 0,
        s.cpu.sregs[CS as int] & 3 == 0,
        s.mem.len() >= 0x820,
    ensures
        s.linux_booted(header, cmdline, initrd, entry) is Some,
{
    reveal(State::linux_booted);
    reveal(State::cmdline_stored);
    reveal(State::initrd_placed);
    reveal(State::with_phys8);
    lemma_stored_keeps(s, CMDLINE_ADDR, cmdline, 0);
    let a = s.cmdline_stored(cmdline);
    if let Some(d) = initrd {
        lemma_stored_keeps(
            a,
            initrd_address(a.mem.len() as u32 as int, d.len() as int) as u32,
            d,
            0,
        );
    }
    let (b, placed) = a.initrd_placed(initrd);
    if let Ok(loc) = placed {
        let z = crate::boot::bzimage::zero_page(
            header,
            b.mem.len() as u64,
            CMDLINE_ADDR,
            loc,
            b.board.lfb,
        );
        lemma_stored_keeps(b, ZERO_PAGE_ADDR, z, 0);
        law_kernel_entry(b.stored(ZERO_PAGE_ADDR, z), entry);
    }
}

/// A machine that is not in user code and not paging can be told to start any kernel:
/// there is always an outcome, be it an error.
pub proof fn law_linux_can_start(
    s: State,
    image: Seq<u8>,
    cmdline: Seq<u8>,
    initrd: Option<Seq<u8>>,
)
    requires
        !s.cpu.pg(),
        s.cpu.flags & crate::cpu::state::VM == 0,
        s.cpu.sregs[CS as int] & 3 == 0,
        s.mem.len() >= 0x820,
    ensures
        s.bzimage_booted(image, cmdline, initrd) is Some,
        s.vmlinux_booted(image, cmdline, initrd) is Some,
        s.any_linux_booted(image, cmdline, initrd) is Some,
{
    reveal(State::bzimage_booted);
    reveal(State::vmlinux_booted);
    lemma_self_test_keeps(s);
    let t = s.self_tested();
    if let Ok(h) = SetupHeader::parsed(image) {
        let body = if h.kernel_offset() <= image.len() {
            image.subrange(h.kernel_offset() as int, image.len() as int)
        } else {
            Seq::empty()
        };
        lemma_stored_keeps(t, KERNEL_BASE, body, 0);
        lemma_tail_possible(t.stored(KERNEL_BASE, body), image, cmdline, initrd, h.code32_start);
    }
    if let Some(gs) = crate::boot::elf::kernel_segments(image) {
        let entry = crate::boot::bzimage::dword_at(image, 0x18);
        lemma_segments_placed_keeps(t, image, gs, 0);
        lemma_tail_possible(
            t.segments_placed(image, gs, 0).0,
            made_header(entry),
            cmdline,
            initrd,
            entry,
        );
    }
}

} // verus!
