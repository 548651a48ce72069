//! The memory map: 640 KB of memory, then windows for the display and for ROM.

use vstd::prelude::*;

verus! {

/// A part of the first megabyte.
#[derive(Clone, Copy, Debug, PartialEq, Eq, Structural)]
pub enum MemRegion {
    /// Ordinary memory.
    Ram,
    /// The graphics screen.
    VideoGraphics,
    /// The monochrome text screen.
    VideoMono,
    /// The colour text screen: character and attribute in turn.
    VideoText,
    /// ROM of cards and the BIOS.
    Rom,
}

/// The graphics screen.
pub const VRAM_GFX_BASE: u32 = 0xA_0000;
pub const GFX_COLS: usize = 320;
pub const GFX_ROWS: usize = 200;
pub const GFX_LEN: usize = 64_000;

/// The colour text screen.
pub const VRAM_TEXT_BASE: u32 = 0xB_8000;
pub const VRAM_TEXT_END: u32 = 0xB_FFFF;
pub const TEXT_COLS: usize = 80;
pub const TEXT_ROWS: usize = 25;
pub const TEXT_CELL: usize = 2;
pub const TEXT_LEN: usize = 4_000;

/// The part of the map that an address lies in; the map repeats every megabyte.
#[verifier::allow_in_spec]
pub fn decode_mem(addr: u32) -> MemRegion
    returns
        (if addr % 0x10_0000 < 0xA_0000 {
            MemRegion::Ram
        } else if addr % 0x10_0000 < 0xB_0000 {
            MemRegion::VideoGraphics
        } else if addr % 0x10_0000 < 0xB_8000 {
            MemRegion::VideoMono
        } else if addr % 0x10_0000 < 0xC_0000 {
            MemRegion::VideoText
        } else {
            MemRegion::Rom
        }),
{
    if addr % 0x10_0000 < 0xA_0000 {
        MemRegion::Ram
    } else if addr % 0x10_0000 < 0xB_0000 {
        MemRegion::VideoGraphics
    } else if addr % 0x10_0000 < 0xB_8000 {
        MemRegion::VideoMono
    } else if addr % 0x10_0000 < 0xC_0000 {
        MemRegion::VideoText
    } else {
        MemRegion::Rom
    }
}

/// The text screen is exactly the window from [`VRAM_TEXT_BASE`] to
/// [`VRAM_TEXT_END`], and a screen full of text fits.
pub proof fn law_text_window(addr: u32)
    requires
        addr < 0x10_0000,
    ensures
        (decode_mem(addr) == MemRegion::VideoText) == (VRAM_TEXT_BASE <= addr <= VRAM_TEXT_END),
        VRAM_TEXT_BASE + TEXT_LEN <= VRAM_TEXT_END + 1,
        TEXT_LEN == TEXT_COLS * TEXT_ROWS * TEXT_CELL,
{
}

} // verus!
